use borsh::{BorshDeserialize, BorshSerialize};
use vstd::prelude::*;

use crate::error::BalanceError;

verus! {

/// Number of bytes in the on-storage form of a balance record.
pub const RECORD_LEN: usize = 4;

/// The four little-endian bytes of `v`, lowest first.
pub open spec fn le_bytes(v: u32) -> Seq<u8> {
    seq![v as u8, (v >> 8u32) as u8, (v >> 16u32) as u8, (v >> 24u32) as u8]
}

/// The `u32` whose little-endian bytes are the first four of `b`.
pub open spec fn le_u32(b: Seq<u8>) -> u32
    recommends
        b.len() == 4,
{
    (b[0] as u32) | ((b[1] as u32) << 8u32) | ((b[2] as u32) << 16u32) | ((b[3] as u32) << 24u32)
}

/// Decoding the encoding of any `u32` gives the value back.
pub proof fn lemma_value_round_trip(x: u32)
    ensures
        le_bytes(x).len() == 4,
        le_u32(le_bytes(x)) == x,
{
    let (b0, b1, b2, b3) = (x as u8, (x >> 8u32) as u8, (x >> 16u32) as u8, (x >> 24u32) as u8);
    assert(((b0 as u32) | ((b1 as u32) << 8u32) | ((b2 as u32) << 16u32) | ((b3 as u32) << 24u32))
        == x) by (bit_vector)
        requires
            b0 == x as u8,
            b1 == (x >> 8u32) as u8,
            b2 == (x >> 16u32) as u8,
            b3 == (x >> 24u32) as u8,
    ;
}

/// Encoding the value of any 4-byte buffer gives the same bytes back.
pub proof fn lemma_bytes_round_trip(b: Seq<u8>)
    requires
        b.len() == 4,
    ensures
        le_bytes(le_u32(b)) == b,
{
    let (b0, b1, b2, b3) = (b[0], b[1], b[2], b[3]);
    let x = le_u32(b);
    assert(x as u8 == b0 && (x >> 8u32) as u8 == b1 && (x >> 16u32) as u8 == b2 && (x >> 24u32)
        as u8 == b3) by (bit_vector)
        requires
            x == (b0 as u32) | ((b1 as u32) << 8u32) | ((b2 as u32) << 16u32) | ((b3 as u32)
                << 24u32),
    ;
    assert(le_bytes(x) =~= b);
}

/// The decoded form of an account's data: a single `u32` counter.
pub struct BankAccount {
    pub balance: u32,
}

impl BankAccount {
    /// Decodes a record from account data, which must be exactly four bytes.
    pub fn try_from_slice(data: &[u8]) -> (r: Result<BankAccount, BalanceError>)
        ensures
            r is Ok <==> data@.len() == RECORD_LEN,
            r matches Ok(a) ==> a.balance == le_u32(data@),
            r matches Err(e) ==> e == BalanceError::MalformedRecord,
    {
        match borsh_u32_from_slice(data) {
            Ok(balance) => Ok(BankAccount { balance }),
            Err(_) => Err(BalanceError::MalformedRecord),
        }
    }

    /// Writes the record over the first four bytes of `buf`, leaving its
    /// length and any later bytes as they were. A buffer shorter than four
    /// bytes is refused and left untouched.
    pub fn serialize(&self, buf: &mut Vec<u8>) -> (r: Result<(), BalanceError>)
        ensures
            r is Ok <==> old(buf)@.len() >= RECORD_LEN,
            r is Ok ==> final(buf)@ == le_bytes(self.balance) + old(buf)@.subrange(
                RECORD_LEN as int,
                old(buf)@.len() as int,
            ),
            r matches Err(e) ==> e == BalanceError::EncodingFailure && final(buf)@ == old(buf)@,
    {
        if buf.len() < RECORD_LEN {
            return Err(BalanceError::EncodingFailure);
        }
        match borsh_u32_write(self.balance, buf) {
            Ok(()) => Ok(()),
            Err(_) => Err(BalanceError::EncodingFailure),
        }
    }
}

#[verifier::external_type_specification]
#[verifier::external_body]
pub struct ExIoError(std::io::Error);

/// Relies on borsh's `BorshDeserialize::try_from_slice` for `u32`: it reads
/// four little-endian bytes and fails unless the slice holds exactly four.
#[verifier::external_body]
fn borsh_u32_from_slice(b: &[u8]) -> (r: Result<u32, std::io::Error>)
    ensures
        r is Ok <==> b@.len() == 4,
        r matches Ok(v) ==> v == le_u32(b@),
{
    u32::try_from_slice(b)
}

/// Relies on borsh's `BorshSerialize::serialize` for `u32` into a byte slice:
/// the four little-endian bytes overwrite the front of the slice, and a slice
/// of four bytes or more is never refused.
#[verifier::external_body]
fn borsh_u32_write(v: u32, buf: &mut Vec<u8>) -> (r: Result<(), std::io::Error>)
    requires
        old(buf)@.len() >= 4,
    ensures
        r is Ok,
        final(buf)@ == le_bytes(v) + old(buf)@.subrange(4, old(buf)@.len() as int),
{
    v.serialize(&mut buf.as_mut_slice())
}

} // verus!
