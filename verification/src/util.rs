//! Deterministic helpers shared by the animations and the caches: a xorshift
//! generator and the FNV-1a hash.

use vstd::prelude::*;
use vstd::string::StringSliceAdditionalSpecFns;

verus! {

/// One step of the xorshift64 generator (shifts 13, 7, 17).
pub open spec fn xorshift64(x: u64) -> u64 {
    let a = x ^ (x << 13u64);
    let b = a ^ (a >> 7u64);
    b ^ (b << 17u64)
}

/// Shared xorshift64 generator used by transitions and entrance animations.
///
/// Deterministic: the same seed always produces the same sequence. Suitable for
/// per-frame visual randomness, not cryptography.
pub struct Rng(u64);

impl Rng {
    /// The generator's internal state.
    pub closed spec fn state(&self) -> u64 {
        self.0
    }

    /// Construct from any seed. The low bit is forced on so seed 0 is not
    /// stuck producing zeros.
    pub fn new(seed: u64) -> (r: Self)
        ensures
            r.state() == seed | 1u64,
    {
        Rng(seed | 1)
    }

    /// Next 64-bit pseudorandom value.
    pub fn next(&mut self) -> (r: u64)
        ensures
            r == xorshift64(old(self).state()),
            final(self).state() == r,
    {
        let x = self.0;
        let a = x ^ (x << 13u64);
        let b = a ^ (a >> 7u64);
        let c = b ^ (b << 17u64);
        self.0 = c;
        c
    }
}

/// FNV-1a offset basis.
pub const FNV_OFFSET: u64 = 0xcbf29ce484222325;

/// FNV-1a prime.
pub const FNV_PRIME: u64 = 0x100000001b3;

/// FNV-1a over a byte sequence, folded from the left.
pub open spec fn fnv1a_bytes(bytes: Seq<u8>) -> u64
    decreases bytes.len(),
{
    if bytes.len() == 0 {
        FNV_OFFSET
    } else {
        let h = fnv1a_bytes(bytes.drop_last());
        (h ^ (bytes.last() as u64)).wrapping_mul(FNV_PRIME)
    }
}

/// FNV-1a 64-bit hash of the UTF-8 bytes of `s`. Used for cache keys where
/// collisions are tolerable. Not cryptographic.
pub fn fnv1a(s: &str) -> (r: u64)
    ensures
        r == fnv1a_bytes(s.spec_bytes()),
{
    let bytes = s.as_bytes();
    let mut h: u64 = FNV_OFFSET;
    let mut i: usize = 0;
    while i < bytes.len()
        invariant
            i <= bytes@.len(),
            bytes@ == s.spec_bytes(),
            h == fnv1a_bytes(bytes@.take(i as int)),
        decreases bytes@.len() - i,
    {
        assert(bytes@.take(i as int + 1).drop_last() == bytes@.take(i as int));
        h = (h ^ (bytes[i] as u64)).wrapping_mul(FNV_PRIME);
        i = i + 1;
    }
    assert(bytes@.take(i as int) == bytes@);
    h
}

} // verus!

verus! {

/// The generator never reaches zero from a non-zero state, so a generator
/// made from any seed (seed 0 included) never gets stuck at zero.
pub proof fn lemma_rng_never_zero(seed: u64, x: u64)
    ensures
        (seed | 1u64) != 0,
        x != 0 ==> xorshift64(x) != 0,
{
    let a = x ^ (x << 13u64);
    let b = a ^ (a >> 7u64);
    assert(x != 0 ==> x ^ (x << 13u64) != 0) by (bit_vector);
    assert(a != 0 ==> a ^ (a >> 7u64) != 0) by (bit_vector);
    assert(b != 0 ==> b ^ (b << 17u64) != 0) by (bit_vector);
    assert((seed | 1u64) != 0) by (bit_vector);
}

/// Each xorshift64 step is injective: two states that step to the same
/// value are the same state. With `lemma_rng_never_zero`, only zero steps to
/// zero.
pub proof fn lemma_xorshift_injective(x: u64, y: u64)
    ensures
        xorshift64(x) == xorshift64(y) ==> x == y,
{
    let ax = x ^ (x << 13u64);
    let ay = y ^ (y << 13u64);
    let bx = ax ^ (ax >> 7u64);
    let by_ = ay ^ (ay >> 7u64);
    assert(bx ^ (bx << 17u64) == by_ ^ (by_ << 17u64) ==> bx == by_) by (bit_vector);
    assert(ax ^ (ax >> 7u64) == ay ^ (ay >> 7u64) ==> ax == ay) by (bit_vector);
    assert(x ^ (x << 13u64) == y ^ (y << 13u64) ==> x == y) by (bit_vector);
}

/// FNV-1a continued from the hash `h` over `bytes`.
pub open spec fn fnv1a_from(h: u64, bytes: Seq<u8>) -> u64
    decreases bytes.len(),
{
    if bytes.len() == 0 {
        h
    } else {
        (fnv1a_from(h, bytes.drop_last()) ^ (bytes.last() as u64)).wrapping_mul(FNV_PRIME)
    }
}

/// The hash of a concatenation continues the hash of its first part: FNV-1a
/// of `a + b` is FNV-1a of `a` folded on over the bytes of `b`.
pub proof fn lemma_fnv1a_concat(a: Seq<u8>, b: Seq<u8>)
    ensures
        fnv1a_bytes(a + b) == fnv1a_from(fnv1a_bytes(a), b),
    decreases b.len(),
{
    if b.len() == 0 {
        assert(a + b =~= a);
    } else {
        assert((a + b).drop_last() =~= a + b.drop_last());
        assert((a + b).last() == b.last());
        lemma_fnv1a_concat(a, b.drop_last());
    }
}

proof fn lemma_encode_utf8_concat(a: Seq<char>, b: Seq<char>)
    ensures
        vstd::utf8::encode_utf8(a + b) == vstd::utf8::encode_utf8(a) + vstd::utf8::encode_utf8(b),
    decreases a.len(),
{
    if a.len() == 0 {
        assert(a + b =~= b);
    } else {
        assert((a + b).drop_first() =~= a.drop_first() + b);
        assert((a + b)[0] == a[0]);
        lemma_encode_utf8_concat(a.drop_first(), b);
        assert(vstd::utf8::encode_scalar(a[0] as u32) + (vstd::utf8::encode_utf8(a.drop_first())
            + vstd::utf8::encode_utf8(b)) =~= (vstd::utf8::encode_scalar(a[0] as u32)
            + vstd::utf8::encode_utf8(a.drop_first())) + vstd::utf8::encode_utf8(b));
    }
}

/// The hash of a concatenated text continues the hash of its first part:
/// `fnv1a(s + t)` is `fnv1a(s)` folded on over the UTF-8 bytes of `t`.
pub proof fn lemma_fnv1a_str_concat(s: Seq<char>, t: Seq<char>)
    ensures
        fnv1a_bytes(vstd::utf8::encode_utf8(s + t)) == fnv1a_from(
            fnv1a_bytes(vstd::utf8::encode_utf8(s)),
            vstd::utf8::encode_utf8(t),
        ),
{
    lemma_encode_utf8_concat(s, t);
    lemma_fnv1a_concat(vstd::utf8::encode_utf8(s), vstd::utf8::encode_utf8(t));
}

} // verus!
