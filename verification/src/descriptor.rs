//! The standalone address descriptor: wraps one validated address, derives
//! the scripts its output type admits, and serializes to and parses from
//! the checksummed form `addr(<address>)#<checksum>`.

use vstd::prelude::*;
use vstd::string::{StrSliceExecFns, StringExecFns};

use crate::address::{
    address_eq, address_text, copy_address, format_address, is_alnum, lemma_alnum_in_charset,
    parse_address_str, parsed_address, Address, AddressV, Network, Payload, PayloadV,
};
use crate::checksum::{
    checksum_of, desc_checksum, find_in, input_charset, lemma_find_in_at, lemma_find_in_none,
    lemma_paren_in_charset, lemma_state_some, verify_checksum, verify_spec,
};
use crate::error::{Error, ErrorV};
use crate::expression::{split_args, tree_parse, Tree, TreeV};
use crate::script::{kind_of, script_pubkey_bytes, spk_of, AddressKind};

verus! {

/// The descriptor body serialization: `addr(` + the address text + `)`.
pub open spec fn body_text(a: AddressV) -> Seq<char> {
    "addr("@ + address_text(a) + ")"@
}

/// The full serialization: the body, `#`, and the body's checksum.
pub open spec fn full_text(a: AddressV) -> Seq<char> {
    body_text(a) + "#"@ + checksum_of(body_text(a)).unwrap()
}

/// What building a descriptor from a parsed expression yields: the tree
/// must be `addr` applied to exactly one argument that reads as an address.
pub open spec fn from_tree_spec(t: TreeV) -> Result<AddressV, ErrorV> {
    if t.name == "addr"@ && t.args.len() == 1 {
        match parsed_address(t.args[0]) {
            Some(a) => Ok(a),
            None => Err(ErrorV::InvalidAddress),
        }
    } else {
        Err(ErrorV::MalformedExpression { name: t.name, n_args: t.args.len() as int })
    }
}

/// What parsing a full descriptor string yields: checksum verification,
/// then expression parsing, then the tree-shape and address checks.
pub open spec fn parse_spec(s: Seq<char>) -> Result<AddressV, ErrorV> {
    match verify_spec(s) {
        None => Err(ErrorV::ChecksumMismatch),
        Some(body) => match tree_parse(body) {
            None => Err(ErrorV::InvalidExpression),
            Some(t) => from_tree_spec(t),
        },
    }
}

/// Facts about a body `addr(<t>)` whose argument is non-empty and written
/// in digits and letters: its checksum exists, it holds no `#`, and it
/// parses as the expression `addr` with the single argument `t`.
pub proof fn lemma_wrapped_text(t: Seq<char>)
    requires
        t.len() >= 1,
        forall|i: int| 0 <= i < t.len() ==> is_alnum(#[trigger] t[i]),
    ensures
        checksum_of("addr("@ + t + ")"@) is Some,
        find_in("addr("@ + t + ")"@, '#') is None,
        tree_parse("addr("@ + t + ")"@) == Some(TreeV { name: "addr"@, args: seq![t] }),
{
    reveal_strlit("addr(");
    reveal_strlit("addr");
    reveal_strlit(")");
    let p = "addr("@;
    let q = ")"@;
    let s = p + t + q;
    assert(p.len() == 5 && q.len() == 1);
    assert(p[0] == 'a' && p[1] == 'd' && p[2] == 'd' && p[3] == 'r' && p[4] == '(');
    assert(q[0] == ')');
    assert(s.len() == t.len() + 6);
    assert(forall|j: int| 0 <= j < t.len() ==> s[j + 5] == t[j]);
    assert(s[s.len() - 1] == ')');
    // no `#` anywhere
    assert forall|j: int| 0 <= j < s.len() implies s[j] != '#' by {
        if 5 <= j < s.len() - 1 {
            assert(is_alnum(t[j - 5]));
        }
    }
    lemma_find_in_none(s, '#');
    // every character is in the input alphabet
    lemma_paren_in_charset();
    assert forall|i: int| 0 <= i < s.len() implies find_in(input_charset(), #[trigger] s[i])
        is Some by {
        if 5 <= i < s.len() - 1 {
            assert(is_alnum(t[i - 5]));
            lemma_alnum_in_charset(s[i]);
        } else if i == 0 || i == 3 {
            lemma_alnum_in_charset(s[i]);
        } else if i == 1 || i == 2 {
            lemma_alnum_in_charset(s[i]);
        }
    }
    lemma_state_some(s, s.len() as int);
    // the expression shape
    lemma_find_in_at(s, '(', 4);
    assert(s.last() == ')');
    let name = s.take(4);
    let inner = s.subrange(5, s.len() - 1);
    assert(name =~= "addr"@);
    assert(inner =~= t);
    assert forall|j: int| 0 <= j < t.len() implies t[j] != '(' && t[j] != ')' && t[j]
        != ',' by {
        assert(is_alnum(t[j]));
    }
    lemma_find_in_none(inner, '(');
    lemma_find_in_none(inner, ')');
    assert(name[0] == 'a' && name[1] == 'd' && name[2] == 'd' && name[3] == 'r');
    lemma_find_in_none(name, ')');
    lemma_find_in_none(name, ',');
    lemma_find_in_none(t, ',');
    assert(split_args(t) == seq![t]);
    assert(tree_parse(s) == Some(TreeV { name, args: split_args(inner) }));
    assert(TreeV { name, args: split_args(inner) } =~~= (TreeV {
        name: "addr"@,
        args: seq![t],
    }));
}

/// The round-trip law at the level of serialized text: a body with its
/// correct checksum appended parses back to the address the body's single
/// argument denotes.
pub proof fn lemma_parse_serialized(body: Seq<char>, sum: Seq<char>, t: Seq<char>, a: AddressV)
    requires
        find_in(body, '#') is None,
        checksum_of(body) == Some(sum),
        tree_parse(body) == Some(TreeV { name: "addr"@, args: seq![t] }),
        parsed_address(t) == Some(a),
    ensures
        parse_spec(body + "#"@ + sum) == Ok::<AddressV, ErrorV>(a),
{
    reveal_strlit("#");
    reveal_strlit("addr");
    let s = body + "#"@ + sum;
    assert(s[body.len() as int] == '#');
    lemma_find_in_none(body, '#');
    assert forall|j: int| 0 <= j < body.len() implies s[j] != '#' by {
        assert(s[j] == body[j]);
    }
    lemma_find_in_at(s, '#', body.len() as int);
    assert(s.take(body.len() as int) =~= body);
    assert(s.skip(body.len() as int + 1) =~= sum);
    assert(verify_spec(s) == Some(body));
    let tv = TreeV { name: "addr"@, args: seq![t] };
    assert(tv.args[0] == t);
    assert(tv.name == "addr"@ && tv.args.len() == 1);
    assert(from_tree_spec(tv) == Ok::<AddressV, ErrorV>(a));
}

/// Checksum sensitivity: changing any one character of the checksum
/// segment of a serialized descriptor makes parsing fail with a checksum
/// error.
pub proof fn lemma_checksum_flip(body: Seq<char>, sum: Seq<char>, k: int, c: char)
    requires
        find_in(body, '#') is None,
        checksum_of(body) == Some(sum),
        0 <= k < sum.len(),
        c != sum[k],
    ensures
        parse_spec(body + "#"@ + sum.update(k, c)) == Err::<AddressV, ErrorV>(
            ErrorV::ChecksumMismatch,
        ),
{
    reveal_strlit("#");
    let bad = sum.update(k, c);
    let s = body + "#"@ + bad;
    assert(s[body.len() as int] == '#');
    lemma_find_in_none(body, '#');
    assert forall|j: int| 0 <= j < body.len() implies s[j] != '#' by {
        assert(s[j] == body[j]);
    }
    lemma_find_in_at(s, '#', body.len() as int);
    assert(s.take(body.len() as int) =~= body);
    assert(s.skip(body.len() as int + 1) =~= bad);
    assert(bad[k] == c && sum[k] != c);
    assert(bad != sum);
    assert(verify_spec(s) is None);
}

/// A standalone address descriptor.
#[derive(Debug, Hash)]
pub struct Addr {
    address: Address,
}

impl View for Addr {
    type V = AddressV;

    closed spec fn view(&self) -> AddressV {
        self.address@
    }
}

impl Addr {
    /// The wrapped address is always one the address validator could have
    /// produced.
    #[verifier::type_invariant]
    spec fn type_inv(self) -> bool {
        self.address@.wf()
    }

    /// Create a new address descriptor. The caller answers for the address
    /// being valid: the validator's shape invariant is required here.
    pub fn new(address: Address) -> (r: Addr)
        requires
            address@.wf(),
        ensures
            r@ == address@,
    {
        Addr { address }
    }

    /// Get the inner address.
    pub fn into_inner(self) -> (r: Address)
        ensures
            r@ == self@,
    {
        self.address
    }

    /// Get the inner address.
    pub fn as_inner(&self) -> (r: &Address)
        ensures
            r@ == self@,
    {
        &self.address
    }

    /// Checks whether the descriptor is safe: an address descriptor always
    /// is, since its address was validated at construction.
    pub fn sanity_check(&self) -> (r: Result<(), Error>)
        ensures
            r is Ok,
    {
        Ok(())
    }

    /// A copy of the wrapped address.
    pub fn address(&self) -> (r: Address)
        ensures
            r@ == self@,
    {
        copy_address(&self.address)
    }

    /// The witness version of the contained address, if its payload is a
    /// witness program.
    pub fn segwit_version(&self) -> (r: Option<u8>)
        ensures
            r == segwit_version_of(self@),
    {
        match &self.address.payload {
            Payload::WitnessProgram { version, program: _ } => Some(*version),
            _ => None,
        }
    }

    /// The output script this descriptor's address spends to.
    pub fn script_pubkey(&self) -> (r: Vec<u8>)
        ensures
            r@ == spk_of(self@.payload),
    {
        proof {
            use_type_invariant(self);
        }
        script_pubkey_bytes(&self.address.payload)
    }

    /// The explicit spending script: recoverable from the address alone
    /// only for pay-to-public-key-hash and version-0 pay-to-witness-
    /// public-key-hash outputs; every other type has none.
    pub fn explicit_script(&self) -> (r: Result<Vec<u8>, Error>)
        ensures
            has_explicit_script(self@) ==> (r matches Ok(v) && v@ == spk_of(self@.payload)),
            !has_explicit_script(self@) ==> (r matches Err(e) && e@ == ErrorV::NoExplicitScript),
    {
        proof {
            use_type_invariant(self);
        }
        let ok = match &self.address.payload {
            Payload::PubkeyHash(_) => true,
            Payload::WitnessProgram { version, program } => *version == 0 && program.len() == 20,
            _ => false,
        };
        if ok {
            Ok(script_pubkey_bytes(&self.address.payload))
        } else {
            Err(Error::NoExplicitScript)
        }
    }

    /// The script used in legacy and segwit-v0 signature hashing: taproot
    /// has none; every other output type reuses its output script.
    pub fn script_code(&self) -> (r: Result<Vec<u8>, Error>)
        ensures
            kind_of(self@.payload) == Some(AddressKind::P2tr) ==> (r matches Err(e) && e@
                == ErrorV::NoScriptCode),
            kind_of(self@.payload) != Some(AddressKind::P2tr) ==> (r matches Ok(v) && v@ == spk_of(
                self@.payload,
            )),
    {
        proof {
            use_type_invariant(self);
        }
        let is_p2tr = match &self.address.payload {
            Payload::WitnessProgram { version, program } => *version == 1 && program.len() == 32,
            _ => false,
        };
        if is_p2tr {
            Err(Error::NoScriptCode)
        } else {
            Ok(script_pubkey_bytes(&self.address.payload))
        }
    }

    /// The descriptor without the checksum: `addr(<address>)`.
    pub fn to_string_no_checksum(&self) -> (r: String)
        ensures
            r@ == body_text(self@),
            checksum_of(r@) is Some,
            find_in(r@, '#') is None,
            tree_parse(r@) == Some(TreeV { name: "addr"@, args: seq![address_text(self@)] }),
            (self@.network == Network::Bitcoin || self@.network == Network::Testnet)
                ==> parsed_address(address_text(self@)) == Some(self@),
    {
        proof {
            use_type_invariant(self);
        }
        let text = format_address(&self.address);
        let mut out: String = "addr(".to_owned();
        out.append(text.as_str());
        out.append(")");
        proof {
            assert(out@ =~= body_text(self@));
            lemma_wrapped_text(text@);
        }
        out
    }

    /// The full descriptor serialization `addr(<address>)#<checksum>`, and
    /// the round-trip law: on the main and test networks, parsing the
    /// returned string yields this same descriptor.
    pub fn descriptor_string(&self) -> (r: String)
        ensures
            checksum_of(body_text(self@)) is Some,
            r@ == full_text(self@),
            (self@.network == Network::Bitcoin || self@.network == Network::Testnet) ==> parse_spec(
                r@,
            ) == Ok::<AddressV, ErrorV>(self@),
    {
        proof {
            use_type_invariant(self);
        }
        let body = self.to_string_no_checksum();
        let ghost bodyv = body@;
        let sum = match desc_checksum(body.as_str()) {
            Some(x) => x,
            None => {
                proof {
                    assert(false);
                }
                String::new()
            },
        };
        let mut out = body;
        out.append("#");
        out.append(sum.as_str());
        proof {
            assert(out@ == bodyv + "#"@ + sum@);
            assert(checksum_of(bodyv).unwrap() == sum@);
            if self@.network == Network::Bitcoin || self@.network == Network::Testnet {
                lemma_parse_serialized(bodyv, sum@, address_text(self@), self@);
            }
        }
        out
    }

    /// Build a descriptor from a parsed expression tree: the name must be
    /// `addr` and there must be exactly one argument, which must read as a
    /// valid address.
    pub fn from_tree(top: &Tree) -> (r: Result<Addr, Error>)
        ensures
            r matches Ok(d) ==> from_tree_spec(top@) == Ok::<AddressV, ErrorV>(d@),
            r matches Err(e) ==> from_tree_spec(top@) == Err::<AddressV, ErrorV>(e@),
    {
        let addr_name: String = "addr".to_owned();
        proof {
            assert(top@.args.len() == top.args@.len());
        }
        if top.name.eq(&addr_name) && top.args.len() == 1 {
            proof {
                assert(top@.args[0] == top.args@[0]@);
            }
            match parse_address_str(top.args[0].as_str()) {
                Ok(address) => Ok(Addr::new(address)),
                Err(msg) => Err(Error::InvalidAddress(msg)),
            }
        } else {
            Err(
                Error::MalformedExpression {
                    name: top.name.clone(),
                    n_args: top.args.len(),
                },
            )
        }
    }

    /// Parse a full descriptor string: verify and strip the checksum,
    /// parse the expression, and build the descriptor from it.
    pub fn from_str(s: &str) -> (r: Result<Addr, Error>)
        ensures
            r matches Ok(d) ==> parse_spec(s@) == Ok::<AddressV, ErrorV>(d@),
            r matches Err(e) ==> parse_spec(s@) == Err::<AddressV, ErrorV>(e@),
    {
        let body = match verify_checksum(s) {
            Ok(b) => b,
            Err(e) => {
                return Err(e);
            },
        };
        let top = match Tree::from_str(body.as_str()) {
            Ok(t) => t,
            Err(e) => {
                return Err(e);
            },
        };
        Self::from_tree(&top)
    }

    /// Key-translation hook shared with key-bearing descriptor variants:
    /// this variant holds no keys, so the supplied key and key-hash
    /// translators are never invoked and translation always succeeds with
    /// an address-equal descriptor.
    pub fn translate_pk<F, G, E>(&self, _translate_key: F, _translate_key_hash: G) -> (r: Result<
        Addr,
        E,
    >)
        ensures
            r matches Ok(d) && d@ == self@,
    {
        proof {
            use_type_invariant(self);
        }
        Ok(Addr::new(copy_address(&self.address)))
    }
}

/// Whether an address's spending script is recoverable from the address
/// alone: true exactly for the two pay-to-public-key-hash forms.
pub open spec fn has_explicit_script(a: AddressV) -> bool {
    kind_of(a.payload) == Some(AddressKind::P2pkh) || kind_of(a.payload) == Some(
        AddressKind::P2wpkh,
    )
}

/// The witness version of an address, if its payload is a witness program.
pub open spec fn segwit_version_of(a: AddressV) -> Option<u8> {
    match a.payload {
        PayloadV::WitnessProgram { version, program } => Some(version),
        _ => None,
    }
}

impl PartialEq for Addr {
    /// Descriptors are equal exactly when their addresses are.
    fn eq(&self, other: &Addr) -> (r: bool) {
        address_eq(&self.address, &other.address)
    }
}

impl vstd::std_specs::cmp::PartialEqSpecImpl for Addr {
    open spec fn obeys_eq_spec() -> bool {
        true
    }

    open spec fn eq_spec(&self, other: &Addr) -> bool {
        self@ == other@
    }
}

} // verus!
