use vstd::prelude::*;

verus! {

/// Square `s` is a member of bitboard `b`.
pub open spec fn bit(b: u64, s: int) -> bool {
    0 <= s < 64 && (b >> (s as u64)) & 1 == 1
}

pub proof fn lemma_bit_or(a: u64, b: u64)
    ensures
        forall|s: int| #[trigger] bit(a | b, s) == (bit(a, s) || bit(b, s)),
{
    assert forall|s: int| #[trigger] bit(a | b, s) == (bit(a, s) || bit(b, s)) by {
        if 0 <= s < 64 {
            let k = s as u64;
            assert(((a | b) >> k) & 1 == 1 <==> ((a >> k) & 1 == 1 || (b >> k) & 1 == 1))
                by (bit_vector);
        }
    }
}

pub proof fn lemma_bit_and(a: u64, b: u64)
    ensures
        forall|s: int| #[trigger] bit(a & b, s) == (bit(a, s) && bit(b, s)),
{
    assert forall|s: int| #[trigger] bit(a & b, s) == (bit(a, s) && bit(b, s)) by {
        if 0 <= s < 64 {
            let k = s as u64;
            assert(((a & b) >> k) & 1 == 1 <==> ((a >> k) & 1 == 1 && (b >> k) & 1 == 1))
                by (bit_vector);
        }
    }
}

pub proof fn lemma_bit_not(a: u64)
    ensures
        forall|s: int| 0 <= s < 64 ==> #[trigger] bit(!a, s) == !bit(a, s),
{
    assert forall|s: int| 0 <= s < 64 implies #[trigger] bit(!a, s) == !bit(a, s) by {
        let k = s as u64;
        assert(((!a) >> k) & 1 == 1 <==> !((a >> k) & 1 == 1)) by (bit_vector)
            requires
                k < 64,
        ;
    }
}

pub proof fn lemma_bit_single(t: u64)
    requires
        t < 64,
    ensures
        forall|s: int| #[trigger] bit(1u64 << t, s) == (s == t),
{
    assert forall|s: int| #[trigger] bit(1u64 << t, s) == (s == t) by {
        if 0 <= s < 64 {
            let k = s as u64;
            assert(((1u64 << t) >> k) & 1 == 1 <==> k == t) by (bit_vector)
                requires
                    t < 64,
                    k < 64,
            ;
        }
    }
}

pub proof fn lemma_bit_zero()
    ensures
        forall|s: int| !#[trigger] bit(0u64, s),
{
    assert forall|s: int| !#[trigger] bit(0u64, s) by {
        if 0 <= s < 64 {
            let k = s as u64;
            assert((0u64 >> k) & 1 != 1) by (bit_vector);
        }
    }
}

/// Tests whether square `s` is in `b`.
pub fn has_bit(b: u64, s: usize) -> (r: bool)
    requires
        s < 64,
    ensures
        r == bit(b, s as int),
{
    (b >> (s as u64)) & 1 == 1
}

/// `b` with square `s` added.
pub fn with_bit(b: u64, s: usize) -> (r: u64)
    requires
        s < 64,
    ensures
        forall|t: int| #[trigger] bit(r, t) == (bit(b, t) || t == s),
{
    proof {
        lemma_bit_or(b, 1u64 << (s as u64));
        lemma_bit_single(s as u64);
    }
    b | (1u64 << (s as u64))
}

/// `b` with square `s` removed.
pub fn without_bit(b: u64, s: usize) -> (r: u64)
    requires
        s < 64,
    ensures
        forall|t: int| #[trigger] bit(r, t) == (bit(b, t) && t != s),
{
    proof {
        lemma_bit_and(b, !(1u64 << (s as u64)));
        lemma_bit_not(1u64 << (s as u64));
        lemma_bit_single(s as u64);
        assert forall|t: int| #[trigger] bit(b & !(1u64 << (s as u64)), t) == (bit(b, t) && t != s) by {
            if 0 <= t < 64 {
                assert(bit(!(1u64 << (s as u64)), t) == !bit(1u64 << (s as u64), t));
            }
        }
    }
    b & !(1u64 << (s as u64))
}

/// Two bitboards with the same squares are equal.
pub proof fn lemma_bits_ext(a: u64, b: u64)
    requires
        forall|s: int| 0 <= s < 64 ==> #[trigger] bit(a, s) == bit(b, s),
    ensures
        a == b,
{
    assert(bit(a, 0) == bit(b, 0));
    assert(bit(a, 1) == bit(b, 1));
    assert(bit(a, 2) == bit(b, 2));
    assert(bit(a, 3) == bit(b, 3));
    assert(bit(a, 4) == bit(b, 4));
    assert(bit(a, 5) == bit(b, 5));
    assert(bit(a, 6) == bit(b, 6));
    assert(bit(a, 7) == bit(b, 7));
    assert(bit(a, 8) == bit(b, 8));
    assert(bit(a, 9) == bit(b, 9));
    assert(bit(a, 10) == bit(b, 10));
    assert(bit(a, 11) == bit(b, 11));
    assert(bit(a, 12) == bit(b, 12));
    assert(bit(a, 13) == bit(b, 13));
    assert(bit(a, 14) == bit(b, 14));
    assert(bit(a, 15) == bit(b, 15));
    assert(bit(a, 16) == bit(b, 16));
    assert(bit(a, 17) == bit(b, 17));
    assert(bit(a, 18) == bit(b, 18));
    assert(bit(a, 19) == bit(b, 19));
    assert(bit(a, 20) == bit(b, 20));
    assert(bit(a, 21) == bit(b, 21));
    assert(bit(a, 22) == bit(b, 22));
    assert(bit(a, 23) == bit(b, 23));
    assert(bit(a, 24) == bit(b, 24));
    assert(bit(a, 25) == bit(b, 25));
    assert(bit(a, 26) == bit(b, 26));
    assert(bit(a, 27) == bit(b, 27));
    assert(bit(a, 28) == bit(b, 28));
    assert(bit(a, 29) == bit(b, 29));
    assert(bit(a, 30) == bit(b, 30));
    assert(bit(a, 31) == bit(b, 31));
    assert(bit(a, 32) == bit(b, 32));
    assert(bit(a, 33) == bit(b, 33));
    assert(bit(a, 34) == bit(b, 34));
    assert(bit(a, 35) == bit(b, 35));
    assert(bit(a, 36) == bit(b, 36));
    assert(bit(a, 37) == bit(b, 37));
    assert(bit(a, 38) == bit(b, 38));
    assert(bit(a, 39) == bit(b, 39));
    assert(bit(a, 40) == bit(b, 40));
    assert(bit(a, 41) == bit(b, 41));
    assert(bit(a, 42) == bit(b, 42));
    assert(bit(a, 43) == bit(b, 43));
    assert(bit(a, 44) == bit(b, 44));
    assert(bit(a, 45) == bit(b, 45));
    assert(bit(a, 46) == bit(b, 46));
    assert(bit(a, 47) == bit(b, 47));
    assert(bit(a, 48) == bit(b, 48));
    assert(bit(a, 49) == bit(b, 49));
    assert(bit(a, 50) == bit(b, 50));
    assert(bit(a, 51) == bit(b, 51));
    assert(bit(a, 52) == bit(b, 52));
    assert(bit(a, 53) == bit(b, 53));
    assert(bit(a, 54) == bit(b, 54));
    assert(bit(a, 55) == bit(b, 55));
    assert(bit(a, 56) == bit(b, 56));
    assert(bit(a, 57) == bit(b, 57));
    assert(bit(a, 58) == bit(b, 58));
    assert(bit(a, 59) == bit(b, 59));
    assert(bit(a, 60) == bit(b, 60));
    assert(bit(a, 61) == bit(b, 61));
    assert(bit(a, 62) == bit(b, 62));
    assert(bit(a, 63) == bit(b, 63));
    assert(a == b) by (bit_vector)
        requires
            ((a >> 0u64) & 1 == 1) == ((b >> 0u64) & 1 == 1),
            ((a >> 1u64) & 1 == 1) == ((b >> 1u64) & 1 == 1),
            ((a >> 2u64) & 1 == 1) == ((b >> 2u64) & 1 == 1),
            ((a >> 3u64) & 1 == 1) == ((b >> 3u64) & 1 == 1),
            ((a >> 4u64) & 1 == 1) == ((b >> 4u64) & 1 == 1),
            ((a >> 5u64) & 1 == 1) == ((b >> 5u64) & 1 == 1),
            ((a >> 6u64) & 1 == 1) == ((b >> 6u64) & 1 == 1),
            ((a >> 7u64) & 1 == 1) == ((b >> 7u64) & 1 == 1),
            ((a >> 8u64) & 1 == 1) == ((b >> 8u64) & 1 == 1),
            ((a >> 9u64) & 1 == 1) == ((b >> 9u64) & 1 == 1),
            ((a >> 10u64) & 1 == 1) == ((b >> 10u64) & 1 == 1),
            ((a >> 11u64) & 1 == 1) == ((b >> 11u64) & 1 == 1),
            ((a >> 12u64) & 1 == 1) == ((b >> 12u64) & 1 == 1),
            ((a >> 13u64) & 1 == 1) == ((b >> 13u64) & 1 == 1),
            ((a >> 14u64) & 1 == 1) == ((b >> 14u64) & 1 == 1),
            ((a >> 15u64) & 1 == 1) == ((b >> 15u64) & 1 == 1),
            ((a >> 16u64) & 1 == 1) == ((b >> 16u64) & 1 == 1),
            ((a >> 17u64) & 1 == 1) == ((b >> 17u64) & 1 == 1),
            ((a >> 18u64) & 1 == 1) == ((b >> 18u64) & 1 == 1),
            ((a >> 19u64) & 1 == 1) == ((b >> 19u64) & 1 == 1),
            ((a >> 20u64) & 1 == 1) == ((b >> 20u64) & 1 == 1),
            ((a >> 21u64) & 1 == 1) == ((b >> 21u64) & 1 == 1),
            ((a >> 22u64) & 1 == 1) == ((b >> 22u64) & 1 == 1),
            ((a >> 23u64) & 1 == 1) == ((b >> 23u64) & 1 == 1),
            ((a >> 24u64) & 1 == 1) == ((b >> 24u64) & 1 == 1),
            ((a >> 25u64) & 1 == 1) == ((b >> 25u64) & 1 == 1),
            ((a >> 26u64) & 1 == 1) == ((b >> 26u64) & 1 == 1),
            ((a >> 27u64) & 1 == 1) == ((b >> 27u64) & 1 == 1),
            ((a >> 28u64) & 1 == 1) == ((b >> 28u64) & 1 == 1),
            ((a >> 29u64) & 1 == 1) == ((b >> 29u64) & 1 == 1),
            ((a >> 30u64) & 1 == 1) == ((b >> 30u64) & 1 == 1),
            ((a >> 31u64) & 1 == 1) == ((b >> 31u64) & 1 == 1),
            ((a >> 32u64) & 1 == 1) == ((b >> 32u64) & 1 == 1),
            ((a >> 33u64) & 1 == 1) == ((b >> 33u64) & 1 == 1),
            ((a >> 34u64) & 1 == 1) == ((b >> 34u64) & 1 == 1),
            ((a >> 35u64) & 1 == 1) == ((b >> 35u64) & 1 == 1),
            ((a >> 36u64) & 1 == 1) == ((b >> 36u64) & 1 == 1),
            ((a >> 37u64) & 1 == 1) == ((b >> 37u64) & 1 == 1),
            ((a >> 38u64) & 1 == 1) == ((b >> 38u64) & 1 == 1),
            ((a >> 39u64) & 1 == 1) == ((b >> 39u64) & 1 == 1),
            ((a >> 40u64) & 1 == 1) == ((b >> 40u64) & 1 == 1),
            ((a >> 41u64) & 1 == 1) == ((b >> 41u64) & 1 == 1),
            ((a >> 42u64) & 1 == 1) == ((b >> 42u64) & 1 == 1),
            ((a >> 43u64) & 1 == 1) == ((b >> 43u64) & 1 == 1),
            ((a >> 44u64) & 1 == 1) == ((b >> 44u64) & 1 == 1),
            ((a >> 45u64) & 1 == 1) == ((b >> 45u64) & 1 == 1),
            ((a >> 46u64) & 1 == 1) == ((b >> 46u64) & 1 == 1),
            ((a >> 47u64) & 1 == 1) == ((b >> 47u64) & 1 == 1),
            ((a >> 48u64) & 1 == 1) == ((b >> 48u64) & 1 == 1),
            ((a >> 49u64) & 1 == 1) == ((b >> 49u64) & 1 == 1),
            ((a >> 50u64) & 1 == 1) == ((b >> 50u64) & 1 == 1),
            ((a >> 51u64) & 1 == 1) == ((b >> 51u64) & 1 == 1),
            ((a >> 52u64) & 1 == 1) == ((b >> 52u64) & 1 == 1),
            ((a >> 53u64) & 1 == 1) == ((b >> 53u64) & 1 == 1),
            ((a >> 54u64) & 1 == 1) == ((b >> 54u64) & 1 == 1),
            ((a >> 55u64) & 1 == 1) == ((b >> 55u64) & 1 == 1),
            ((a >> 56u64) & 1 == 1) == ((b >> 56u64) & 1 == 1),
            ((a >> 57u64) & 1 == 1) == ((b >> 57u64) & 1 == 1),
            ((a >> 58u64) & 1 == 1) == ((b >> 58u64) & 1 == 1),
            ((a >> 59u64) & 1 == 1) == ((b >> 59u64) & 1 == 1),
            ((a >> 60u64) & 1 == 1) == ((b >> 60u64) & 1 == 1),
            ((a >> 61u64) & 1 == 1) == ((b >> 61u64) & 1 == 1),
            ((a >> 62u64) & 1 == 1) == ((b >> 62u64) & 1 == 1),
            ((a >> 63u64) & 1 == 1) == ((b >> 63u64) & 1 == 1),
    ;
}

} // verus!
