//! Random bytes from the system's source, and random numeric segments for
//! new tenant identifiers.

use vstd::prelude::*;
use crate::error::AmiError;

verus! {

broadcast use vstd::string::group_string_axioms;

#[verifier::external_type_specification]
#[verifier::external_body]
pub struct ExGetrandomError(getrandom::Error);

/// Calls `getrandom::getrandom`, which fills the buffer from the operating
/// system's random source or reports a failure; it does not panic. The
/// bytes are random, so nothing is stated of them, nor of which outcome
/// comes back.
#[verifier::external_body]
pub(crate) fn fill_random_bytes(dest: &mut [u8]) -> (r: Result<(), getrandom::Error>) {
    getrandom::getrandom(dest)
}

/// The number that a sequence of bytes denotes when read most significant
/// first.
pub open spec fn big_endian_value(bytes: Seq<u8>) -> nat
    decreases bytes.len(),
{
    if bytes.len() == 0 {
        0
    } else {
        big_endian_value(bytes.drop_last()) * 256 + bytes.last() as nat
    }
}

/// 256 to the power `n`.
pub open spec fn pow256(n: nat) -> nat
    decreases n,
{
    if n == 0 {
        1
    } else {
        pow256((n - 1) as nat) * 256
    }
}

proof fn lemma_pow256_monotone(i: nat, j: nat)
    requires
        i <= j,
    ensures
        pow256(i) <= pow256(j),
    decreases j,
{
    if i < j {
        lemma_pow256_monotone(i, (j - 1) as nat);
    }
}

/// Reads eight bytes as a big-endian unsigned integer.
pub fn u64_from_be_bytes(bytes: [u8; 8]) -> (v: u64)
    ensures
        v == big_endian_value(bytes@),
{
    let mut v: u64 = 0;
    let mut i: usize = 0;
    proof {
        assert(bytes@.take(0) =~= Seq::<u8>::empty());
        reveal_with_fuel(pow256, 8);
        assert(pow256(7) == 0x100000000000000);
    }
    while i < 8
        invariant
            i <= 8,
            bytes@.len() == 8,
            v == big_endian_value(bytes@.take(i as int)),
            v < pow256(i as nat),
            pow256(7) == 0x100000000000000,
        decreases 8 - i,
    {
        proof {
            lemma_pow256_monotone(i as nat, 7);
            assert(bytes@.take(i + 1).drop_last() == bytes@.take(i as int));
            assert(bytes@.take(i + 1).last() == bytes@[i as int]);
        }
        v = v * 256 + bytes[i] as u64;
        i = i + 1;
    }
    assert(bytes@.take(8) =~= bytes@);
    v
}

/// The message reported when the random source fails.
pub open spec fn random_failure_message() -> Seq<char> {
    "Failed to generate random bytes"@
}

/// Draws a random 64-bit segment from the system's random source; a
/// failure of the source is reported as an internal error. Nothing is
/// stated of the value drawn.
pub fn generate_secure_u64() -> (r: Result<u64, AmiError>)
    ensures
        r matches Err(e) ==> (e matches AmiError::InternalError { message }
            && message@ == random_failure_message()),
{
    let mut bytes: [u8; 8] = [0u8; 8];
    match fill_random_bytes(&mut bytes) {
        Ok(()) => Ok(u64_from_be_bytes(bytes)),
        Err(_) => Err(AmiError::InternalError { message: "Failed to generate random bytes".to_string() }),
    }
}

} // verus!
