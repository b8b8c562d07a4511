use addr_descriptor::address::{Address, Network, Payload};
use addr_descriptor::checksum::{desc_checksum, verify_checksum};
use addr_descriptor::descriptor::Addr;
use addr_descriptor::error::Error;
use addr_descriptor::expression::Tree;

/// hash160 behind the well-known genesis-block P2PKH address.
const GENESIS_H160: [u8; 20] = [
    0x62, 0xe9, 0x07, 0xb1, 0x5c, 0xbf, 0x27, 0xd5, 0x42, 0x53, 0x99, 0xeb, 0xf6, 0xf0, 0xfb,
    0x50, 0xeb, 0xb8, 0x8f, 0x18,
];
const GENESIS_ADDR: &str = "1A1zP1eP5QGefi2DMPTfTL5SLmv7DivfNa";

/// hash160 behind the canonical first segwit example address.
const WPKH_PROGRAM: [u8; 20] = [
    0x75, 0x1e, 0x76, 0xe8, 0x19, 0x91, 0x96, 0xd4, 0x54, 0x94, 0x1c, 0x45, 0xd1, 0xb3, 0xa3,
    0x23, 0xf1, 0x43, 0x3b, 0xd6,
];
const WPKH_ADDR: &str = "bc1qw508d6qejxtdg4y5r3zarvary0c5xw7kv8f3t4";

fn p2pkh_genesis() -> Address {
    Address {
        payload: Payload::PubkeyHash(GENESIS_H160.to_vec()),
        network: Network::Bitcoin,
    }
}

fn p2wpkh_example() -> Address {
    Address {
        payload: Payload::WitnessProgram { version: 0, program: WPKH_PROGRAM.to_vec() },
        network: Network::Bitcoin,
    }
}

fn p2sh_bytes() -> Address {
    Address {
        payload: Payload::ScriptHash(vec![7u8; 20]),
        network: Network::Bitcoin,
    }
}

fn p2tr_bytes(network: Network) -> Address {
    Address {
        payload: Payload::WitnessProgram { version: 1, program: vec![4u8; 32] },
        network,
    }
}

fn checksummed(body: &str) -> String {
    let sum = desc_checksum(body).expect("body must be checksummable");
    format!("{}#{}", body, sum)
}

#[test]
fn checksum_known_value() {
    assert_eq!(desc_checksum("raw(deadbeef)").unwrap(), "89f8spxm");
}

#[test]
fn checksum_rejects_foreign_character() {
    assert!(desc_checksum("addr(\u{00e9})").is_none());
}

#[test]
fn genesis_body_text() {
    let d = Addr::new(p2pkh_genesis());
    assert_eq!(d.to_string_no_checksum(), format!("addr({})", GENESIS_ADDR));
    let full = d.descriptor_string();
    assert_eq!(full, checksummed(&format!("addr({})", GENESIS_ADDR)));
}

#[test]
fn round_trip_p2pkh() {
    let d = Addr::new(p2pkh_genesis());
    let s = d.descriptor_string();
    let parsed = Addr::from_str(&s).expect("round trip parses");
    assert_eq!(parsed, d);
    match parsed.into_inner().payload {
        Payload::PubkeyHash(h) => assert_eq!(h, GENESIS_H160.to_vec()),
        _ => panic!("wrong payload class"),
    }
}

#[test]
fn round_trip_p2wpkh() {
    let d = Addr::new(p2wpkh_example());
    assert_eq!(d.to_string_no_checksum(), format!("addr({})", WPKH_ADDR));
    let s = d.descriptor_string();
    let parsed = Addr::from_str(&s).expect("round trip parses");
    assert_eq!(parsed, d);
    assert_eq!(parsed.segwit_version(), Some(0));
}

#[test]
fn round_trip_more_types() {
    for a in [
        p2sh_bytes(),
        p2tr_bytes(Network::Bitcoin),
        p2tr_bytes(Network::Testnet),
        Address {
            payload: Payload::WitnessProgram { version: 0, program: vec![9u8; 32] },
            network: Network::Testnet,
        },
        Address {
            payload: Payload::PubkeyHash(vec![0xabu8; 20]),
            network: Network::Testnet,
        },
    ] {
        let d = Addr::new(a);
        let s = d.descriptor_string();
        let parsed = Addr::from_str(&s).expect("round trip parses");
        assert_eq!(parsed, d);
    }
}

#[test]
fn parse_without_checksum_segment() {
    let body = format!("addr({})", GENESIS_ADDR);
    let d = Addr::from_str(&body).expect("checksum segment is optional");
    assert_eq!(d, Addr::new(p2pkh_genesis()));
}

#[test]
fn script_policy_p2pkh() {
    let d = Addr::new(p2pkh_genesis());
    let spk = d.script_pubkey();
    let mut expect = vec![0x76u8, 0xa9, 0x14];
    expect.extend_from_slice(&GENESIS_H160);
    expect.extend_from_slice(&[0x88, 0xac]);
    assert_eq!(spk, expect);
    assert_eq!(d.explicit_script().expect("p2pkh has explicit script"), spk);
    assert_eq!(d.script_code().expect("p2pkh has script code"), spk);
    assert_eq!(d.segwit_version(), None);
}

#[test]
fn script_policy_p2wpkh() {
    let d = Addr::new(p2wpkh_example());
    let spk = d.script_pubkey();
    let mut expect = vec![0x00u8, 0x14];
    expect.extend_from_slice(&WPKH_PROGRAM);
    assert_eq!(spk, expect);
    assert_eq!(d.explicit_script().expect("p2wpkh has explicit script"), spk);
    assert_eq!(d.script_code().expect("p2wpkh has script code"), spk);
    assert_eq!(d.segwit_version(), Some(0));
}

#[test]
fn script_policy_p2sh() {
    let d = Addr::new(p2sh_bytes());
    let spk = d.script_pubkey();
    let mut expect = vec![0xa9u8, 0x14];
    expect.extend_from_slice(&[7u8; 20]);
    expect.push(0x87);
    assert_eq!(spk, expect);
    assert!(matches!(d.explicit_script(), Err(Error::NoExplicitScript)));
    assert_eq!(d.script_code().expect("p2sh has script code"), spk);
    assert_eq!(d.segwit_version(), None);
}

#[test]
fn script_policy_p2tr() {
    let d = Addr::new(p2tr_bytes(Network::Bitcoin));
    let spk = d.script_pubkey();
    let mut expect = vec![0x51u8, 0x20];
    expect.extend_from_slice(&[4u8; 32]);
    assert_eq!(spk, expect);
    assert!(matches!(d.explicit_script(), Err(Error::NoExplicitScript)));
    assert!(matches!(d.script_code(), Err(Error::NoScriptCode)));
    assert_eq!(d.segwit_version(), Some(1));
}

#[test]
fn checksum_flip_fails() {
    let d = Addr::new(p2pkh_genesis());
    let s = d.descriptor_string();
    let hash_pos = s.find('#').expect("serialized form has a checksum");
    assert_eq!(s.len() - hash_pos - 1, 8);
    for k in (hash_pos + 1)..s.len() {
        let mut chars: Vec<char> = s.chars().collect();
        chars[k] = if chars[k] == 'q' { 'p' } else { 'q' };
        let flipped: String = chars.into_iter().collect();
        assert!(
            matches!(Addr::from_str(&flipped), Err(Error::ChecksumMismatch)),
            "flip at {} must fail with a checksum error",
            k
        );
    }
}

#[test]
fn wrong_checksum_fails() {
    let body = format!("addr({})", GENESIS_ADDR);
    let s = format!("{}#aaaaaaaa", body);
    assert!(matches!(Addr::from_str(&s), Err(Error::ChecksumMismatch)));
}

#[test]
fn two_arguments_are_malformed() {
    let s = checksummed("addr(X,Y)");
    match Addr::from_str(&s) {
        Err(Error::MalformedExpression { name, n_args }) => {
            assert_eq!(name, "addr");
            assert_eq!(n_args, 2);
        },
        other => panic!("expected a malformed-expression error, got {:?}", other),
    }
}

#[test]
fn wrong_name_is_malformed() {
    let s = checksummed("notaddr(X)");
    match Addr::from_str(&s) {
        Err(Error::MalformedExpression { name, n_args }) => {
            assert_eq!(name, "notaddr");
            assert_eq!(n_args, 1);
        },
        other => panic!("expected a malformed-expression error, got {:?}", other),
    }
}

#[test]
fn bad_address_argument() {
    let s = checksummed("addr(zzzz)");
    assert!(matches!(Addr::from_str(&s), Err(Error::InvalidAddress(_))));
}

#[test]
fn unbalanced_expression() {
    let s = checksummed("addr(x");
    assert!(matches!(Addr::from_str(&s), Err(Error::InvalidExpression)));
}

#[test]
fn expression_tree_shape() {
    let t = Tree::from_str("addr(abc,def)").expect("flat expression parses");
    assert_eq!(t.name, "addr");
    assert_eq!(t.args, vec!["abc".to_string(), "def".to_string()]);
    let bare = Tree::from_str("pk").expect("a bare name parses");
    assert_eq!(bare.name, "pk");
    assert!(bare.args.is_empty());
    assert!(Tree::from_str("a(b)c").is_err());
    assert!(Tree::from_str("a(b(c))").is_err());
}

#[test]
fn from_tree_directly() {
    let t = Tree { name: "addr".to_string(), args: vec![GENESIS_ADDR.to_string()] };
    let d = Addr::from_tree(&t).expect("valid tree builds a descriptor");
    assert_eq!(d, Addr::new(p2pkh_genesis()));
    let bad = Tree { name: "addr".to_string(), args: vec![] };
    assert!(matches!(
        Addr::from_tree(&bad),
        Err(Error::MalformedExpression { n_args: 0, .. })
    ));
}

#[test]
fn translation_is_identity() {
    let d = Addr::new(p2wpkh_example());
    let translated = d
        .translate_pk::<_, _, String>(
            |_k: &u32| -> Result<u64, String> { Err("key translation must not run".to_string()) },
            |_h: &u32| -> Result<u64, String> { Err("hash translation must not run".to_string()) },
        )
        .expect("translation always succeeds");
    assert_eq!(translated, d);
}

#[test]
fn accessors_are_idempotent() {
    let d = Addr::new(p2pkh_genesis());
    assert!(d.sanity_check().is_ok());
    let first = d.as_inner().clone();
    let second = d.as_inner().clone();
    let again = Addr::new(first);
    let _ = second;
    assert_eq!(again, d);
    let inner = d.into_inner();
    assert_eq!(Addr::new(inner), Addr::new(p2pkh_genesis()));
}

#[test]
fn address_returns_copy() {
    let d = Addr::new(p2sh_bytes());
    let a = d.address();
    assert_eq!(Addr::new(a), d);
}

#[test]
fn verify_checksum_direct() {
    assert_eq!(verify_checksum("raw(deadbeef)#89f8spxm").unwrap(), "raw(deadbeef)");
    assert_eq!(verify_checksum("raw(deadbeef)").unwrap(), "raw(deadbeef)");
    assert!(matches!(
        verify_checksum("raw(deadbeef)#89f8spxq"),
        Err(Error::ChecksumMismatch)
    ));
}
