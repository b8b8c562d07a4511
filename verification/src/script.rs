//! Script derivation policy: the output script each payload classification
//! spends to, and the standard output classes used to decide which
//! addresses have an explicit script or a script code.

use vstd::prelude::*;

use crate::address::{Payload, PayloadV};

verus! {

/// The standard output classes an address can fall into.
#[derive(Clone, Copy, Debug, PartialEq, Eq, Structural)]
pub enum AddressKind {
    P2pkh,
    P2sh,
    P2wpkh,
    P2wsh,
    P2tr,
}

/// The standard class of a payload, if it has one: version-0 witness
/// programs of 20 or 32 bytes are the two hash-based segwit classes, a
/// 32-byte version-1 program is taproot, and any other witness program is
/// non-standard.
pub open spec fn kind_of(p: PayloadV) -> Option<AddressKind> {
    match p {
        PayloadV::PubkeyHash(_) => Some(AddressKind::P2pkh),
        PayloadV::ScriptHash(_) => Some(AddressKind::P2sh),
        PayloadV::WitnessProgram { version, program } => if version == 0 && program.len() == 20 {
            Some(AddressKind::P2wpkh)
        } else if version == 0 && program.len() == 32 {
            Some(AddressKind::P2wsh)
        } else if version == 1 && program.len() == 32 {
            Some(AddressKind::P2tr)
        } else {
            None
        },
    }
}

/// The output script a payload spends to: the legacy hash templates, or
/// the witness version opcode followed by a push of the program.
pub open spec fn spk_of(p: PayloadV) -> Seq<u8> {
    match p {
        PayloadV::PubkeyHash(h) => seq![0x76u8, 0xa9u8, 0x14u8] + h + seq![0x88u8, 0xacu8],
        PayloadV::ScriptHash(h) => seq![0xa9u8, 0x14u8] + h + seq![0x87u8],
        PayloadV::WitnessProgram { version, program } => seq![
            if version == 0 {
                0u8
            } else {
                (0x50 + version) as u8
            },
            program.len() as u8,
        ] + program,
    }
}

/// Append a copy of `src` to `dst`.
fn append_bytes(dst: &mut Vec<u8>, src: &Vec<u8>)
    ensures
        final(dst)@ == old(dst)@ + src@,
{
    let mut i: usize = 0;
    while i < src.len()
        invariant
            i <= src@.len(),
            dst@ == old(dst)@ + src@.take(i as int),
        decreases src@.len() - i,
    {
        dst.push(src[i]);
        proof {
            assert(old(dst)@ + src@.take(i as int + 1) =~= (old(dst)@ + src@.take(i as int)).push(
                src@[i as int],
            ));
        }
        i += 1;
    }
    proof {
        assert(src@.take(src@.len() as int) =~= src@);
    }
}

/// Build the output script for a payload.
pub fn script_pubkey_bytes(p: &Payload) -> (r: Vec<u8>)
    requires
        p@.wf(),
    ensures
        r@ == spk_of(p@),
{
    let mut v: Vec<u8> = Vec::new();
    match p {
        Payload::PubkeyHash(h) => {
            v.push(0x76);
            v.push(0xa9);
            v.push(0x14);
            append_bytes(&mut v, h);
            v.push(0x88);
            v.push(0xac);
            proof {
                assert(v@ =~= spk_of(p@));
            }
        },
        Payload::ScriptHash(h) => {
            v.push(0xa9);
            v.push(0x14);
            append_bytes(&mut v, h);
            v.push(0x87);
            proof {
                assert(v@ =~= spk_of(p@));
            }
        },
        Payload::WitnessProgram { version, program } => {
            if *version == 0 {
                v.push(0x00);
            } else {
                v.push(0x50 + *version);
            }
            v.push(program.len() as u8);
            append_bytes(&mut v, program);
            proof {
                assert(v@ =~= spk_of(p@));
            }
        },
    }
    v
}

} // verus!
