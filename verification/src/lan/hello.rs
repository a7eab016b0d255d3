//! The fixed eight-byte hello exchanged before any application frame.
use vstd::prelude::*;

use super::LanError;

verus! {

/// LAN protocol version spoken by this node.
pub const LAN_PROTOCOL_VERSION: u8 = 1;
/// Length of a hello.
pub const HELLO_BYTES: usize = 8;

/// The one valid hello: magic "LANT", kind 1, version, flags 0, reserved 0.
pub open spec fn hello_bytes() -> Seq<u8> {
    seq![0x4cu8, 0x41u8, 0x4eu8, 0x54u8, 1u8, LAN_PROTOCOL_VERSION, 0u8, 0u8]
}

pub fn encode_hello() -> (hello: [u8; 8])
    ensures
        hello@ == hello_bytes(),
{
    let hello = [0x4cu8, 0x41u8, 0x4eu8, 0x54u8, 1u8, LAN_PROTOCOL_VERSION, 0u8, 0u8];
    assert(hello@ =~= hello_bytes());
    hello
}

/// A hello is accepted only when every byte matches; a wrong version byte
/// alone is reported as an unsupported version.
pub fn decode_hello(bytes: [u8; 8]) -> (result: Result<(), LanError>)
    ensures
        bytes@ == hello_bytes() ==> result is Ok,
        (forall|i: int| 0 <= i < 5 ==> bytes@[i] == hello_bytes()[i]) && bytes@[5]
            != LAN_PROTOCOL_VERSION ==> result == Err::<(), LanError>(LanError::UnsupportedVersion),
        result is Ok ==> bytes@ == hello_bytes(),
        result == Err::<(), LanError>(LanError::UnsupportedVersion) ==> bytes@[5] != LAN_PROTOCOL_VERSION,
        result is Err ==> result == Err::<(), LanError>(LanError::UnsupportedVersion) || result
            == Err::<(), LanError>(LanError::InvalidHello),
        (exists|i: int| 0 <= i < 5 && bytes@[i] != hello_bytes()[i]) ==> result == Err::<
            (),
            LanError,
        >(LanError::InvalidHello),
        (forall|i: int| 0 <= i < 6 ==> bytes@[i] == hello_bytes()[i]) && (bytes@[6] != 0
            || bytes@[7] != 0) ==> result == Err::<(), LanError>(LanError::InvalidHello),
{
    if bytes[0] != 0x4c || bytes[1] != 0x41 || bytes[2] != 0x4e || bytes[3] != 0x54 || bytes[4]
        != 1 {
        return Err(LanError::InvalidHello);
    }
    if bytes[5] != LAN_PROTOCOL_VERSION {
        return Err(LanError::UnsupportedVersion);
    }
    if bytes[6] != 0 || bytes[7] != 0 {
        return Err(LanError::InvalidHello);
    }
    assert(bytes@ =~= hello_bytes());
    Ok(())
}

/// The hello this node sends is the one it accepts.
pub proof fn law_hello_accepted()
    ensures
        hello_bytes().len() == HELLO_BYTES,
        hello_bytes()[5] == LAN_PROTOCOL_VERSION,
        hello_bytes() == seq![76u8, 65u8, 78u8, 84u8, 1u8, 1u8, 0u8, 0u8],
{
    assert(hello_bytes() =~= seq![76u8, 65u8, 78u8, 84u8, 1u8, 1u8, 0u8, 0u8]);
}

} // verus!
