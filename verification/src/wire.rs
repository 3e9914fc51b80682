//! The message that carries a secret and a carrier in one buffer.
//!
//! Each of the two payloads is preceded by its length, written as four
//! bytes, most significant first:
//!
//! ```text
//! | length of secret | secret ... | length of carrier | carrier ... |
//! ```
//!
//! so the payloads are found again whatever their lengths are, and a message
//! that is cut short or has bytes left over is refused.

use crate::error::StegoError;
use vstd::prelude::*;
use vstd::slice::{slice_subrange, slice_to_vec};

verus! {

/// Bytes that a length field takes.
pub const LENGTH_BYTES: usize = 4;

/// The length field for a payload of `n` bytes, `n` below 2^32.
pub open spec fn length_field(n: nat) -> Seq<u8> {
    seq![
        (n / 0x100_0000 % 0x100) as u8,
        (n / 0x1_0000 % 0x100) as u8,
        (n / 0x100 % 0x100) as u8,
        (n % 0x100) as u8,
    ]
}

/// The length that the four bytes of `field` stand for.
pub open spec fn field_value(field: Seq<u8>) -> nat {
    (field[0] as nat) * 0x100_0000 + (field[1] as nat) * 0x1_0000 + (field[2] as nat) * 0x100
        + field[3] as nat
}

/// The message that carries the two payloads.
pub open spec fn framed(secret: Seq<u8>, carrier: Seq<u8>) -> Seq<u8> {
    length_field(secret.len()) + secret + length_field(carrier.len()) + carrier
}

/// The two payloads that `message` carries, if it is a message: a length
/// field, that many bytes, a second length field, and exactly that many bytes
/// to the end.
pub open spec fn unframed(message: Seq<u8>) -> Option<(Seq<u8>, Seq<u8>)> {
    if message.len() < 4 {
        None
    } else {
        let n = field_value(message.subrange(0, 4)) as int;
        if message.len() < 4 + n + 4 {
            None
        } else {
            let m = field_value(message.subrange(4 + n, 8 + n)) as int;
            if message.len() != 8 + n + m {
                None
            } else {
                Some((message.subrange(4, 4 + n), message.subrange(8 + n, 8 + n + m)))
            }
        }
    }
}

/// A length field stands for the length it was written for.
pub proof fn lemma_field_value_of_length_field(n: nat)
    requires
        n <= u32::MAX,
    ensures
        length_field(n).len() == 4,
        field_value(length_field(n)) == n,
{
    let n = n as int;
    let low = n % 0x100;
    let rest = n / 0x100;
    assert(n == rest * 0x100 + low);
    assert(n / 0x1_0000 == rest / 0x100);
    assert(rest == (rest / 0x100) * 0x100 + rest % 0x100);
    let top = rest / 0x100;
    assert(n / 0x100_0000 == top / 0x100);
    assert(top == (top / 0x100) * 0x100 + top % 0x100);
    assert(top / 0x100 < 0x100);
}

/// Four bytes are the length field of the length they stand for.
pub proof fn lemma_length_field_of_field_value(field: Seq<u8>)
    requires
        field.len() == 4,
    ensures
        field_value(field) <= u32::MAX,
        length_field(field_value(field)) == field,
{
    let b0 = field[0] as int;
    let b1 = field[1] as int;
    let b2 = field[2] as int;
    let b3 = field[3] as int;
    let v = field_value(field) as int;
    assert(v == (b0 * 0x1_0000 + b1 * 0x100 + b2) * 0x100 + b3);
    assert(v / 0x100 == b0 * 0x1_0000 + b1 * 0x100 + b2);
    assert(v % 0x100 == b3);
    assert(v == (b0 * 0x100 + b1) * 0x1_0000 + (b2 * 0x100 + b3));
    assert(v / 0x1_0000 == b0 * 0x100 + b1);
    assert(v == b0 * 0x100_0000 + (b1 * 0x1_0000 + b2 * 0x100 + b3));
    assert(v / 0x100_0000 == b0);
    assert((b0 * 0x1_0000 + b1 * 0x100 + b2) % 0x100 == b2);
    assert((b0 * 0x100 + b1) % 0x100 == b1);
    assert(b0 % 0x100 == b0);
    assert(length_field(field_value(field)) =~= field);
}

/// Appends the length field for `n` to `out`.
fn write_length(out: &mut Vec<u8>, n: u32)
    ensures
        final(out)@ == old(out)@ + length_field(n as nat),
{
    out.push((n / 0x100_0000 % 0x100) as u8);
    out.push((n / 0x1_0000 % 0x100) as u8);
    out.push((n / 0x100 % 0x100) as u8);
    out.push((n % 0x100) as u8);
    assert(out@ =~= old(out)@ + length_field(n as nat));
}

/// The length that the field at `at` stands for.
fn read_length(message: &[u8], at: usize) -> (n: u32)
    requires
        at + 4 <= message@.len(),
    ensures
        n == field_value(message@.subrange(at as int, at + 4)),
{
    let n = (message[at] as u32) * 0x100_0000 + (message[at + 1] as u32) * 0x1_0000 + (message[at
        + 2] as u32) * 0x100 + message[at + 3] as u32;
    n
}

/// Appends `bytes` to `out`.
fn write_bytes(out: &mut Vec<u8>, bytes: &[u8])
    ensures
        final(out)@ == old(out)@ + bytes@,
{
    let mut i: usize = 0;
    while i < bytes.len()
        invariant
            i <= bytes@.len(),
            out@ == old(out)@ + bytes@.subrange(0, i as int),
        decreases bytes@.len() - i,
    {
        out.push(bytes[i]);
        i += 1;
        assert(out@ =~= old(out)@ + bytes@.subrange(0, i as int));
    }
    assert(bytes@.subrange(0, i as int) =~= bytes@);
}

/// Puts the two payloads into one message. A payload of 2^32 bytes or more
/// has no length field and is refused.
pub fn frame(secret: &[u8], carrier: &[u8]) -> (message: Result<Vec<u8>, StegoError>)
    ensures
        message is Ok <==> secret@.len() <= u32::MAX && carrier@.len() <= u32::MAX,
        message matches Ok(bytes) ==> bytes@ == framed(secret@, carrier@),
        message matches Err(e) ==> e == StegoError::TooLarge,
{
    if secret.len() > u32::MAX as usize || carrier.len() > u32::MAX as usize {
        return Err(StegoError::TooLarge);
    }
    let mut out: Vec<u8> = Vec::new();
    write_length(&mut out, secret.len() as u32);
    write_bytes(&mut out, secret);
    write_length(&mut out, carrier.len() as u32);
    write_bytes(&mut out, carrier);
    assert(out@ =~= framed(secret@, carrier@));
    Ok(out)
}

/// Takes the two payloads out of a message. Anything that is not a message
/// is refused.
pub fn unframe(message: &[u8]) -> (parts: Result<(Vec<u8>, Vec<u8>), StegoError>)
    ensures
        match parts {
            Ok((secret, carrier)) => unframed(message@) == Some((secret@, carrier@)),
            Err(e) => unframed(message@) is None && e == StegoError::InvalidInput,
        },
{
    let total = message.len();
    if total < LENGTH_BYTES {
        return Err(StegoError::InvalidInput);
    }
    let n = read_length(message, 0) as usize;
    if total - LENGTH_BYTES < n || total - LENGTH_BYTES - n < LENGTH_BYTES {
        return Err(StegoError::InvalidInput);
    }
    let m = read_length(message, LENGTH_BYTES + n) as usize;
    if total - 2 * LENGTH_BYTES - n != m {
        return Err(StegoError::InvalidInput);
    }
    let secret = slice_to_vec(slice_subrange(message, LENGTH_BYTES, LENGTH_BYTES + n));
    let carrier = slice_to_vec(slice_subrange(message, 2 * LENGTH_BYTES + n, total));
    Ok((secret, carrier))
}

} // verus!
