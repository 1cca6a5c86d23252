//! The Internet checksum of RFC 1071, as computed by the `internet_checksum`
//! crate, and the arithmetic facts about it that VRRP and IPv4 rely on.

use internet_checksum::Checksum;
use vstd::prelude::*;

verus! {

/// Sum of the 16-bit big-endian words of `s`. A trailing odd byte counts as
/// the high byte of a word whose low byte is zero.
pub open spec fn word_sum(s: Seq<u8>) -> nat
    decreases s.len(),
{
    if s.len() == 0 {
        0
    } else if s.len() == 1 {
        (s[0] as nat) * 256
    } else {
        (s[0] as nat) * 256 + (s[1] as nat) + word_sum(s.subrange(2, s.len() as int))
    }
}

/// Folds a sum into 16 bits with end-around carry: the one's complement sum.
/// It is zero only for zero, and otherwise the value in `1..=0xffff` that is
/// congruent to `n` modulo `0xffff`.
pub open spec fn ones_complement_fold(n: nat) -> nat {
    if n == 0 {
        0
    } else {
        ((n - 1) as nat % 65535) + 1
    }
}

/// The Internet checksum of `s` as a 16-bit value: the one's complement of
/// the one's complement sum of its 16-bit words.
pub open spec fn rfc1071_checksum(s: Seq<u8>) -> nat {
    (65535 - ones_complement_fold(word_sum(s))) as nat
}

/// The checksum of `s`, written in network byte order.
pub open spec fn checksum_octets(s: Seq<u8>) -> Seq<u8> {
    seq![(rfc1071_checksum(s) / 256) as u8, (rfc1071_checksum(s) % 256) as u8]
}

/// A buffer passes the Internet checksum check: its checksum is zero.
pub open spec fn checksum_verifies(s: Seq<u8>) -> bool {
    rfc1071_checksum(s) == 0
}

/// Rewriting the 16-bit word at an even offset changes the word sum by the
/// difference of the two words.
pub proof fn lemma_word_sum_update(s: Seq<u8>, k: int, a: u8, b: u8)
    requires
        0 <= k,
        k + 1 < s.len(),
        k % 2 == 0,
    ensures
        word_sum(s.update(k, a).update(k + 1, b)) + (s[k] as nat) * 256 + (s[k + 1] as nat)
            == word_sum(s) + (a as nat) * 256 + (b as nat),
    decreases k,
{
    let t = s.update(k, a).update(k + 1, b);
    if k == 0 {
        assert(t.subrange(2, t.len() as int) =~= s.subrange(2, s.len() as int));
    } else {
        let s2 = s.subrange(2, s.len() as int);
        lemma_word_sum_update(s2, k - 2, a, b);
        assert(t.subrange(2, t.len() as int) =~= s2.update(k - 2, a).update(k - 1, b));
    }
}

/// Filling a zeroed 16-bit word at an even offset with the checksum of the
/// buffer makes the whole buffer pass the checksum check.
pub proof fn lemma_checksum_insert(s: Seq<u8>, k: int)
    requires
        0 <= k,
        k + 1 < s.len(),
        k % 2 == 0,
        s[k] == 0,
        s[k + 1] == 0,
    ensures
        checksum_verifies(
            s.update(k, checksum_octets(s)[0]).update(k + 1, checksum_octets(s)[1]),
        ),
{
    let c = rfc1071_checksum(s);
    let hi = checksum_octets(s)[0];
    let lo = checksum_octets(s)[1];
    assert(hi as nat * 256 + lo as nat == c);
    lemma_word_sum_update(s, k, hi, lo);
    let t = s.update(k, hi).update(k + 1, lo);
    let sum = word_sum(s);
    assert(word_sum(t) == sum + c);
    if sum == 0 {
        assert(ones_complement_fold(word_sum(t)) == 65535);
    } else {
        let q = (sum - 1) as nat / 65535;
        let r = (sum - 1) as nat % 65535;
        assert((sum - 1) as nat == 65535 * q + r) by (nonlinear_arith)
            requires q == (sum - 1) as nat / 65535, r == (sum - 1) as nat % 65535;
        assert(c == 65534 - r);
        assert((word_sum(t) - 1) as nat == 65535 * q + 65534);
        assert(((65535 * q + 65534) as nat) % 65535 == 65534) by (nonlinear_arith);
    }
}

/// Makes the `internet_checksum::Checksum` accumulator known to Verus, as an
/// opaque type.
#[verifier::external_type_specification]
#[verifier::external_body]
pub struct ExChecksum(Checksum);

/// The bytes fed so far to a `Checksum` accumulator.
pub uninterp spec fn checksum_input(c: Checksum) -> Seq<u8>;

/// `Checksum::new`: an accumulator that has been fed nothing.
#[verifier::external_body]
fn checksum_new() -> (c: Checksum)
    ensures
        checksum_input(c) == Seq::<u8>::empty(),
{
    Checksum::new()
}

/// Most octets an accumulator is fed here. Words of at most 0xFFFF, fewer
/// than 2^47 of them, sum to less than 2^63, so the crate's accumulator (a
/// `u128`, or a `u64` off x86-64) never overflows and its overflow fallback
/// is never taken.
pub open spec fn checksum_input_limit() -> nat {
    0x1_0000_0000_0000
}

/// Longest slice handed to one `add_bytes` call: below the crate's 64-octet
/// threshold, so it takes its word-by-word path (`add_bytes_small`).
pub const CHECKSUM_CHUNK: usize = 62;

/// `Checksum::add_bytes`: appends `bytes` to what the accumulator was fed.
/// Only slices shorter than 64 octets are handed to it; the crate's
/// unrolled path for longer slices can lose a carry, which is why the
/// contract claims nothing for them.
#[verifier::external_body]
fn checksum_add_bytes(c: &mut Checksum, bytes: &[u8])
    requires
        bytes@.len() < 64,
        checksum_input(*old(c)).len() + bytes@.len() <= checksum_input_limit(),
    ensures
        checksum_input(*final(c)) == checksum_input(*old(c)) + bytes@,
{
    c.add_bytes(bytes)
}

/// `Checksum::checksum`: the Internet checksum of everything fed so far,
/// high octet first (the crate sums words in native order and writes them
/// back in native order, which by RFC 1071 section 2(B) gives these octets;
/// a trailing odd octet is taken as the high octet of a word). This holds of
/// accumulators fed only through `checksum_add_bytes`, the one way this
/// library feeds them.
#[verifier::external_body]
fn checksum_value(c: &Checksum) -> (r: [u8; 2])
    requires
        checksum_input(*c).len() <= checksum_input_limit(),
    ensures
        r[0] as nat * 256 + r[1] as nat == rfc1071_checksum(checksum_input(*c)),
{
    c.checksum()
}

/// Computes the Internet checksum of `data`, high octet first, feeding it
/// to the accumulator in chunks of at most `CHECKSUM_CHUNK` octets.
pub fn compute_checksum(data: &[u8]) -> (r: [u8; 2])
    requires
        data@.len() <= checksum_input_limit(),
    ensures
        r@ == checksum_octets(data@),
{
    let mut check = checksum_new();
    let mut i: usize = 0;
    while i < data.len()
        invariant
            i <= data@.len(),
            data@.len() <= checksum_input_limit(),
            checksum_input(check) == data@.take(i as int),
        decreases data@.len() - i,
    {
        let end = if data.len() - i < CHECKSUM_CHUNK {
            data.len()
        } else {
            i + CHECKSUM_CHUNK
        };
        let chunk = &data[i..end];
        checksum_add_bytes(&mut check, chunk);
        assert(data@.take(i as int) + data@.subrange(i as int, end as int) =~= data@.take(
            end as int,
        ));
        i = end;
    }
    assert(data@.take(i as int) =~= data@);
    let r = checksum_value(&check);
    assert(r@ =~= checksum_octets(data@));
    r
}

} // verus!
