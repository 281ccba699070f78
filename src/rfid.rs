//! The pure parts of talking to the MFRC522 tag reader: register addressing, and
//! checking the UID in an anticollision reply.
use vstd::prelude::*;

verus! {

/// The SPI address byte that reads register `reg`: the register in bits 1 to 6,
/// and the read flag in bit 7.
pub fn read_address(reg: u8) -> (r: u8)
    ensures
        r == 0x80 + 2 * (reg % 64),
{
    assert(0x80u8 | ((reg << 1u8) & 0x7Eu8) == 0x80u8 + 2u8 * (reg % 64u8)) by (bit_vector);
    0x80u8 | ((reg << 1u8) & 0x7Eu8)
}

/// The SPI address byte that writes register `reg`.
pub fn write_address(reg: u8) -> (r: u8)
    ensures
        r == 2 * (reg % 64),
{
    assert((reg << 1u8) & 0x7Eu8 == 2u8 * (reg % 64u8)) by (bit_vector);
    (reg << 1u8) & 0x7Eu8
}

/// The reply to anticollision carries a UID whose check byte does not match.
#[derive(Debug, PartialEq, Eq)]
pub enum UidError {
    ChecksumMismatch,
}

/// The UID in an anticollision reply: its first four bytes, which the fifth byte
/// checks by XOR. A reply shorter than five bytes carries none.
pub fn uid_from_reply(reply: &Vec<u8>) -> (r: Result<Option<[u8; 4]>, UidError>)
    ensures
        reply@.len() < 5 ==> r == Ok::<Option<[u8; 4]>, UidError>(None),
        reply@.len() >= 5 && reply@[0] ^ reply@[1] ^ reply@[2] ^ reply@[3] != reply@[4] ==> r
            == Err::<Option<[u8; 4]>, UidError>(UidError::ChecksumMismatch),
        reply@.len() >= 5 && reply@[0] ^ reply@[1] ^ reply@[2] ^ reply@[3] == reply@[4] ==> (r
            matches Ok(Some(uid)) && uid@ == reply@.subrange(0, 4)),
{
    if reply.len() < 5 {
        return Ok(None);
    }
    let check = reply[0] ^ reply[1] ^ reply[2] ^ reply[3];
    if check != reply[4] {
        return Err(UidError::ChecksumMismatch);
    }
    let uid = [reply[0], reply[1], reply[2], reply[3]];
    assert(uid@ =~= reply@.subrange(0, 4));
    Ok(Some(uid))
}

} // verus!
