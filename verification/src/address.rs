//! The address model: a validated address is a network tag plus a payload
//! classification (legacy key hash, legacy script hash, or a witness
//! program with its version). Printing an address in its canonical textual
//! form and reading one back are the address library's work and stand
//! behind trusted wrappers; everything the descriptor logic reads is held
//! here as plain values.

use vstd::prelude::*;

use bitcoin::util::address as btc;

use crate::checksum::{find_in, input_charset, lemma_charset_lens};

verus! {

/// Network tag carried by an address.
#[derive(Clone, Copy, Debug, PartialEq, Eq, Hash, Structural)]
pub enum Network {
    Bitcoin,
    Testnet,
    Signet,
    Regtest,
}

/// How an address's spending condition is committed to: a hash of a public
/// key, a hash of a script, or a witness program tagged with its version.
#[derive(Clone, Debug, Hash)]
pub enum Payload {
    /// Legacy pay-to-public-key-hash: the 20-byte key hash.
    PubkeyHash(Vec<u8>),
    /// Legacy pay-to-script-hash: the 20-byte script hash.
    ScriptHash(Vec<u8>),
    /// Segwit output: version (0 to 16) and the program bytes.
    WitnessProgram { version: u8, program: Vec<u8> },
}

/// The ghost image of a [`Payload`].
#[verifier::ext_equal]
pub enum PayloadV {
    PubkeyHash(Seq<u8>),
    ScriptHash(Seq<u8>),
    WitnessProgram { version: u8, program: Seq<u8> },
}

impl View for Payload {
    type V = PayloadV;

    open spec fn view(&self) -> PayloadV {
        match self {
            Payload::PubkeyHash(h) => PayloadV::PubkeyHash(h@),
            Payload::ScriptHash(h) => PayloadV::ScriptHash(h@),
            Payload::WitnessProgram { version, program } => (PayloadV::WitnessProgram {
                version: *version,
                program: program@,
            }),
        }
    }
}

impl PayloadV {
    /// The shapes the address validator can produce: 20-byte legacy hashes,
    /// and witness programs of 2 to 40 bytes whose version is at most 16,
    /// with version-0 programs exactly 20 or 32 bytes long.
    pub open spec fn wf(self) -> bool {
        match self {
            PayloadV::PubkeyHash(h) => h.len() == 20,
            PayloadV::ScriptHash(h) => h.len() == 20,
            PayloadV::WitnessProgram { version, program } => version <= 16 && 2 <= program.len()
                && program.len() <= 40 && (version == 0 ==> program.len() == 20 || program.len()
                == 32),
        }
    }
}

/// A validated address: payload classification plus network tag.
#[derive(Clone, Debug, Hash)]
pub struct Address {
    pub payload: Payload,
    pub network: Network,
}

/// The ghost image of an [`Address`].
#[verifier::ext_equal]
pub struct AddressV {
    pub payload: PayloadV,
    pub network: Network,
}

impl View for Address {
    type V = AddressV;

    open spec fn view(&self) -> AddressV {
        AddressV { payload: self.payload@, network: self.network }
    }
}

impl AddressV {
    /// See [`PayloadV::wf`].
    pub open spec fn wf(self) -> bool {
        self.payload.wf()
    }
}

/// ASCII digits and letters: the only characters base58 and bech32 address
/// forms are written in.
pub open spec fn is_alnum(c: char) -> bool {
    (48 <= c as int && c as int <= 57) || (65 <= c as int && c as int <= 90) || (97 <= c as int
        && c as int <= 122)
}

/// Every digit or letter is in the descriptor input alphabet.
pub proof fn lemma_alnum_in_charset(c: char)
    requires
        is_alnum(c),
    ensures
        find_in(input_charset(), c) is Some,
{
    lemma_charset_lens();
    reveal_strlit(
        "0123456789()[],'/*abcdefgh@:$%{}IJKLMNOPQRSTUVWXYZ&+-.;<=>?!^_|~ijklmnopqrstuvwxyzABCDEFGH`#\"\\ ",
    );
    let cs = input_charset();
    let code = c as int;
    let i: int = if 48 <= code && code <= 57 {
        code - 48
    } else if 97 <= code && code <= 104 {
        code - 97 + 18
    } else if 73 <= code && code <= 90 {
        code - 73 + 32
    } else if 105 <= code && code <= 122 {
        code - 105 + 64
    } else {
        code - 65 + 82
    };
    assert(0 <= i < 95 && cs[i] == c);
    crate::checksum::lemma_find_in_none(cs, c);
}

/// The canonical text of an address, as the address library's formatter
/// writes it: a function of the address value alone.
pub uninterp spec fn address_text(a: AddressV) -> Seq<char>;

/// The address the address library's parser reads out of a string, if any:
/// a function of the string alone.
pub uninterp spec fn parsed_address(s: Seq<char>) -> Option<AddressV>;

/// Relies on `bitcoin::Address`'s `Display` impl: addresses print in base58
/// or bech32 form, both non-empty and written in ASCII digits and letters
/// only; and on `bitcoin::Address::from_str` reading such text back. On the
/// main and test networks the printed prefix maps back to the same network
/// tag, so parsing the printed text returns the same address; signet and
/// regtest share prefixes with the test network, so no such claim is made
/// for them.
#[verifier::external_body]
pub(crate) fn format_address(a: &Address) -> (r: String)
    requires
        a@.wf(),
    ensures
        r@ == address_text(a@),
        r@.len() >= 1,
        forall|i: int| 0 <= i < r@.len() ==> is_alnum(#[trigger] r@[i]),
        (a@.network == Network::Bitcoin || a@.network == Network::Testnet) ==> parsed_address(r@)
            == Some(a@),
{
    let payload = match &a.payload {
        Payload::PubkeyHash(h) => btc::Payload::PubkeyHash(<bitcoin::PubkeyHash as bitcoin::hashes::Hash>::from_slice(h).unwrap()),
        Payload::ScriptHash(h) => btc::Payload::ScriptHash(<bitcoin::ScriptHash as bitcoin::hashes::Hash>::from_slice(h).unwrap()),
        Payload::WitnessProgram { version, program } => btc::Payload::WitnessProgram { version: btc::WitnessVersion::try_from(*version).unwrap(), program: program.clone() },
    };
    let network = match a.network {
        Network::Bitcoin => bitcoin::Network::Bitcoin,
        Network::Testnet => bitcoin::Network::Testnet,
        Network::Signet => bitcoin::Network::Signet,
        Network::Regtest => bitcoin::Network::Regtest,
    };
    bitcoin::Address { payload, network }.to_string()
}

/// Relies on `bitcoin::Address::from_str`: it accepts exactly the valid
/// base58 and bech32 address forms, and the address it returns satisfies
/// the shape invariant (20-byte legacy hashes; witness programs of 2 to 40
/// bytes, version at most 16, version-0 programs 20 or 32 bytes). On
/// failure its error message is passed along.
#[verifier::external_body]
pub(crate) fn parse_address_str(s: &str) -> (r: Result<Address, String>)
    ensures
        r matches Ok(a) ==> parsed_address(s@) == Some(a@) && a@.wf(),
        r is Err ==> parsed_address(s@) is None,
{
    let parsed = match <bitcoin::Address as core::str::FromStr>::from_str(s) { Ok(a) => a, Err(e) => return Err(format!("{}", e)) };
    let network = match parsed.network {
        bitcoin::Network::Bitcoin => Network::Bitcoin,
        bitcoin::Network::Testnet => Network::Testnet,
        bitcoin::Network::Signet => Network::Signet,
        bitcoin::Network::Regtest => Network::Regtest,
    };
    let payload = match parsed.payload {
        btc::Payload::PubkeyHash(h) => Payload::PubkeyHash(h[..].to_vec()),
        btc::Payload::ScriptHash(h) => Payload::ScriptHash(h[..].to_vec()),
        btc::Payload::WitnessProgram { version, program } => Payload::WitnessProgram { version: version.to_num(), program },
    };
    Ok(Address { payload, network })
}

/// An equal copy of a byte vector.
fn copy_bytes(src: &Vec<u8>) -> (r: Vec<u8>)
    ensures
        r@ == src@,
{
    let mut out: Vec<u8> = Vec::new();
    let mut i: usize = 0;
    while i < src.len()
        invariant
            i <= src@.len(),
            out@ == src@.take(i as int),
        decreases src@.len() - i,
    {
        out.push(src[i]);
        proof {
            assert(out@ =~= src@.take(i as int + 1));
        }
        i += 1;
    }
    proof {
        assert(out@ =~= src@);
    }
    out
}

/// An equal copy of a payload.
fn copy_payload(p: &Payload) -> (r: Payload)
    ensures
        r@ == p@,
{
    match p {
        Payload::PubkeyHash(h) => Payload::PubkeyHash(copy_bytes(h)),
        Payload::ScriptHash(h) => Payload::ScriptHash(copy_bytes(h)),
        Payload::WitnessProgram { version, program } => Payload::WitnessProgram {
            version: *version,
            program: copy_bytes(program),
        },
    }
}

/// An equal copy of an address.
pub fn copy_address(a: &Address) -> (r: Address)
    ensures
        r@ == a@,
{
    Address { payload: copy_payload(&a.payload), network: a.network }
}

/// Byte-vector equality.
fn bytes_eq(a: &Vec<u8>, b: &Vec<u8>) -> (r: bool)
    ensures
        r == (a@ == b@),
{
    if a.len() != b.len() {
        return false;
    }
    let mut i: usize = 0;
    while i < a.len()
        invariant
            a@.len() == b@.len(),
            i <= a@.len(),
            forall|j: int| 0 <= j < i ==> a@[j] == b@[j],
        decreases a@.len() - i,
    {
        if a[i] != b[i] {
            return false;
        }
        i += 1;
    }
    proof {
        assert(a@ =~= b@);
    }
    true
}

/// Payload equality: same classification, same bytes.
pub fn payload_eq(a: &Payload, b: &Payload) -> (r: bool)
    ensures
        r == (a@ == b@),
{
    match (a, b) {
        (Payload::PubkeyHash(x), Payload::PubkeyHash(y)) => bytes_eq(x, y),
        (Payload::ScriptHash(x), Payload::ScriptHash(y)) => bytes_eq(x, y),
        (
            Payload::WitnessProgram { version: v1, program: p1 },
            Payload::WitnessProgram { version: v2, program: p2 },
        ) => *v1 == *v2 && bytes_eq(p1, p2),
        _ => false,
    }
}

/// Address equality: same payload, same network.
pub fn address_eq(a: &Address, b: &Address) -> (r: bool)
    ensures
        r == (a@ == b@),
{
    payload_eq(&a.payload, &b.payload) && a.network == b.network
}

} // verus!
