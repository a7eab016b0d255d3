//! Reading CBOR items of the cryptographic formats. These formats are checked
//! for canonical form by re-encoding the decoded value, so items are read here
//! in any head width; every structural problem is a malformed input.
use vstd::prelude::*;

use super::CryptoError;
use crate::cbor::{read_head, read_head_at};

verus! {

/// An unsigned integer item at `pos` and the position after it.
pub open spec fn r_uint(s: Seq<u8>, pos: int) -> Result<(u64, int), CryptoError> {
    match read_head(s, pos) {
        Some((m, v, end)) => if m == 0 {
            Ok((v, end))
        } else {
            Err(CryptoError::Malformed)
        },
        None => Err(CryptoError::Malformed),
    }
}

/// The map key `key` at `pos` and the position after it.
pub open spec fn r_key(s: Seq<u8>, pos: int, key: u64) -> Result<int, CryptoError> {
    match r_uint(s, pos) {
        Ok((v, end)) => if v == key {
            Ok(end)
        } else {
            Err(CryptoError::Malformed)
        },
        Err(e) => Err(e),
    }
}

/// A definite byte string at `pos`: its content and the position after it.
pub open spec fn r_bytes(s: Seq<u8>, pos: int) -> Result<(Seq<u8>, int), CryptoError> {
    match read_head(s, pos) {
        Some((m, n, end)) => if m != 2 || end + n > s.len() {
            Err(CryptoError::Malformed)
        } else {
            Ok((s.subrange(end, end + n), end + n))
        },
        None => Err(CryptoError::Malformed),
    }
}

/// A byte string of exactly `len` bytes at `pos`; a readable string of
/// another length has the wrong length.
pub open spec fn r_fixed(s: Seq<u8>, pos: int, len: int) -> Result<(Seq<u8>, int), CryptoError> {
    match r_bytes(s, pos) {
        Ok((b, end)) => if b.len() != len {
            Err(CryptoError::WrongLength)
        } else {
            Ok((b, end))
        },
        Err(e) => Err(e),
    }
}

pub fn read_uint(input: &[u8], pos: usize) -> (result: Result<(u64, usize), CryptoError>)
    ensures
        match r_uint(input@, pos as int) {
            Ok((v, end)) => result == Ok::<(u64, usize), CryptoError>((v, end as usize)) && pos
                < end <= input.len(),
            Err(e) => result == Err::<(u64, usize), CryptoError>(e),
        },
{
    match read_head_at(input, pos) {
        Some((m, v, end)) => {
            if m == 0 {
                Ok((v, end))
            } else {
                Err(CryptoError::Malformed)
            }
        },
        None => Err(CryptoError::Malformed),
    }
}

pub fn read_key(input: &[u8], pos: usize, key: u64) -> (result: Result<usize, CryptoError>)
    ensures
        match r_key(input@, pos as int, key) {
            Ok(end) => result == Ok::<usize, CryptoError>(end as usize) && pos < end
                <= input.len(),
            Err(e) => result == Err::<usize, CryptoError>(e),
        },
{
    let (v, end) = read_uint(input, pos)?;
    if v != key {
        return Err(CryptoError::Malformed);
    }
    Ok(end)
}

/// Reads a definite byte string; returns where its content starts and ends.
pub fn read_bytes(input: &[u8], pos: usize) -> (result: Result<(usize, usize), CryptoError>)
    ensures
        match r_bytes(input@, pos as int) {
            Ok((b, end)) => result matches Ok((start, stop)) && stop == end && start <= stop
                <= input.len() && input@.subrange(start as int, stop as int) == b && pos < start,
            Err(e) => result == Err::<(usize, usize), CryptoError>(e),
        },
{
    match read_head_at(input, pos) {
        Some((m, n, end)) => {
            if m != 2 || n > (input.len() - end) as u64 {
                return Err(CryptoError::Malformed);
            }
            Ok((end, end + n as usize))
        },
        None => Err(CryptoError::Malformed),
    }
}

/// Reads a byte string of exactly `len` bytes; returns where its content starts and ends.
pub fn read_fixed(input: &[u8], pos: usize, len: usize) -> (result: Result<(usize, usize), CryptoError>)
    ensures
        match r_fixed(input@, pos as int, len as int) {
            Ok((b, end)) => result matches Ok((start, stop)) && stop == end && start + len == stop
                && stop <= input.len() && input@.subrange(start as int, stop as int) == b && pos
                < start,
            Err(e) => result == Err::<(usize, usize), CryptoError>(e),
        },
{
    let (start, stop) = read_bytes(input, pos)?;
    if stop - start != len {
        return Err(CryptoError::WrongLength);
    }
    Ok((start, stop))
}

/// Copies sixteen bytes starting at `start`.
pub fn array16(input: &[u8], start: usize) -> (a: [u8; 16])
    requires
        start + 16 <= input.len(),
    ensures
        a@ == input@.subrange(start as int, start + 16),
{
    let mut a = [0u8; 16];
    let mut i: usize = 0;
    while i < 16
        invariant
            i <= 16,
            start + 16 <= input.len(),
            forall|k: int| 0 <= k < i ==> a@[k] == input@[start + k],
        decreases 16 - i,
    {
        a[i] = input[start + i];
        i += 1;
    }
    assert(a@ =~= input@.subrange(start as int, start + 16));
    a
}

/// Copies thirty-two bytes starting at `start`.
pub fn array32(input: &[u8], start: usize) -> (a: [u8; 32])
    requires
        start + 32 <= input.len(),
    ensures
        a@ == input@.subrange(start as int, start + 32),
{
    let mut a = [0u8; 32];
    let mut i: usize = 0;
    while i < 32
        invariant
            i <= 32,
            start + 32 <= input.len(),
            forall|k: int| 0 <= k < i ==> a@[k] == input@[start + k],
        decreases 32 - i,
    {
        a[i] = input[start + i];
        i += 1;
    }
    assert(a@ =~= input@.subrange(start as int, start + 32));
    a
}

} // verus!
