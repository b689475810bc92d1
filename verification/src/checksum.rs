//! RFC 1071 one's-complement checksum engine.
//!
//! The input bytes are read as 16-bit big-endian words (an odd trailing
//! byte is paired with an implicit zero), the words are summed, the carries
//! out of 16 bits are folded back in (end-around carry), and the result is
//! complemented.

use vstd::prelude::*;

verus! {

use vstd::arithmetic::div_mod::{
    lemma_fundamental_div_mod,
    lemma_mod_add_multiples_vanish,
    lemma_mod_multiples_vanish,
    lemma_small_mod,
    lemma_sub_mod_noop,
};

/// Sum of the 16-bit big-endian words of `s`; an odd trailing byte is
/// paired with an implicit zero low byte.
pub open spec fn word_sum(s: Seq<u8>) -> int
    decreases s.len(),
{
    if s.len() == 0 {
        0
    } else if s.len() == 1 {
        s[0] * 256
    } else {
        s[0] * 256 + s[1] + word_sum(s.skip(2))
    }
}

/// Folds the carries of a word sum back into 16 bits (end-around carry),
/// repeating until the value fits.
pub open spec fn fold_carries(t: int) -> int
    decreases t,
{
    if t > 0xFFFF {
        fold_carries(t % 0x10000 + t / 0x10000)
    } else {
        t
    }
}

/// The RFC 1071 checksum of a byte sequence: the 16-bit complement of the
/// folded word sum.
pub open spec fn spec_checksum(s: Seq<u8>) -> u16 {
    (0xFFFF - fold_carries(word_sum(s))) as u16
}

pub proof fn lemma_word_sum_nonneg(s: Seq<u8>)
    ensures
        word_sum(s) >= 0,
    decreases s.len(),
{
    if s.len() >= 2 {
        lemma_word_sum_nonneg(s.skip(2));
    }
}

/// The folded sum of a nonnegative value lies in `[0, 0xFFFF]`, and is
/// positive whenever the value is.
pub proof fn lemma_fold_carries_bounds(t: int)
    requires
        t >= 0,
    ensures
        0 <= fold_carries(t) <= 0xFFFF,
        t > 0 ==> fold_carries(t) >= 1,
    decreases t,
{
    if t > 0xFFFF {
        lemma_fundamental_div_mod(t, 0x10000);
        lemma_fold_carries_bounds(t % 0x10000 + t / 0x10000);
    }
}

/// Folding preserves the value modulo 0xFFFF.
pub proof fn lemma_fold_carries_mod(t: int)
    requires
        t >= 0,
    ensures
        fold_carries(t) % 0xFFFF == t % 0xFFFF,
    decreases t,
{
    if t > 0xFFFF {
        let next = t % 0x10000 + t / 0x10000;
        lemma_fundamental_div_mod(t, 0x10000);
        assert(t == 0xFFFF * (t / 0x10000) + next);
        lemma_mod_multiples_vanish(t / 0x10000, next, 0xFFFF);
        lemma_fold_carries_mod(next);
    }
}

/// Computes the RFC 1071 one's-complement checksum of `bytes`.
///
/// Callable on arbitrary byte slices, not only on well-formed messages.
pub fn checksum(bytes: &[u8]) -> (r: u16)
    ensures
        r == spec_checksum(bytes@),
{
    let n = bytes.len();
    let mut i: usize = 0;
    let mut total: u128 = 0;
    proof {
        assert(bytes@.skip(0) =~= bytes@);
    }
    while i < n
        invariant
            i <= n,
            n == bytes@.len(),
            total + word_sum(bytes@.skip(i as int)) == word_sum(bytes@),
            total <= 0x10000 * (i as int),
        decreases n - i,
    {
        let ghost rest = bytes@.skip(i as int);
        let w: u128;
        if i + 1 < n {
            w = (bytes[i] as u128) * 256 + (bytes[i + 1] as u128);
            proof {
                assert(rest.len() >= 2);
                assert(rest[0] == bytes@[i as int]);
                assert(rest[1] == bytes@[i as int + 1]);
                assert(rest.skip(2) =~= bytes@.skip(i as int + 2));
                lemma_word_sum_nonneg(rest.skip(2));
            }
            i = i + 2;
        } else {
            w = (bytes[i] as u128) * 256;
            proof {
                assert(rest.len() == 1);
                assert(rest[0] == bytes@[i as int]);
            }
            i = i + 1;
        }
        total = total + w;
    }
    proof {
        assert(bytes@.skip(n as int).len() == 0);
        assert(total == word_sum(bytes@));
        lemma_fold_carries_bounds(total as int);
    }
    let mut t: u128 = total;
    while t > 0xFFFF
        invariant
            fold_carries(t as int) == fold_carries(total as int),
        decreases t,
    {
        proof {
            lemma_fundamental_div_mod(t as int, 0x10000);
        }
        t = t % 0x10000 + t / 0x10000;
    }
    0xFFFFu16 - (t as u16)
}

/// Replaces the 16-bit checksum field (byte offsets 2 and 3, big-endian)
/// of a message image with `c`.
pub open spec fn patch_checksum(s: Seq<u8>, c: u16) -> Seq<u8> {
    s.update(2, (c / 256) as u8).update(3, (c % 256) as u8)
}

/// A byte sequence of length at least 4 contributes its bytes at offsets
/// 0 through 3 plus the word sum of the rest.
proof fn lemma_word_sum_head4(s: Seq<u8>)
    requires
        s.len() >= 4,
    ensures
        word_sum(s) == s[0] * 256 + s[1] + (s[2] * 256 + s[3]) + word_sum(s.skip(4)),
{
    let rest = s.skip(2);
    assert(rest[0] == s[2]);
    assert(rest[1] == s[3]);
    assert(rest.skip(2) =~= s.skip(4));
    assert(word_sum(s) == s[0] * 256 + s[1] + word_sum(rest));
    assert(rest.len() >= 2);
    assert(word_sum(rest) == rest[0] * 256 + rest[1] + word_sum(rest.skip(2)));
}

/// Embedding the checksum of a zero-checksum-field message into that field
/// makes the checksum of the whole recompute to zero (round-trip validity).
pub proof fn lemma_checksum_round_trip(b: Seq<u8>)
    requires
        b.len() >= 4,
        b[2] == 0,
        b[3] == 0,
    ensures
        spec_checksum(patch_checksum(b, spec_checksum(b))) == 0,
{
    let t0 = word_sum(b);
    lemma_word_sum_nonneg(b);
    let f = fold_carries(t0);
    lemma_fold_carries_bounds(t0);
    lemma_fold_carries_mod(t0);
    let c = spec_checksum(b);
    assert(c == 0xFFFF - f);
    let p = patch_checksum(b, c);
    lemma_fundamental_div_mod(c as int, 256);
    assert(p[2] * 256 + p[3] == c);
    lemma_word_sum_head4(b);
    lemma_word_sum_head4(p);
    assert(p.skip(4) =~= b.skip(4));
    let t1 = word_sum(p);
    assert(t1 == t0 + (0xFFFF - f));
    // t1 is congruent to 0 modulo 0xFFFF: the folded sum f is congruent
    // to t0, and adding 0xFFFF changes nothing.
    lemma_sub_mod_noop(t0, f, 0xFFFF);
    assert((t0 - f) % 0xFFFF == (t0 % 0xFFFF - f % 0xFFFF) % 0xFFFF);
    assert((t0 % 0xFFFF - f % 0xFFFF) % 0xFFFF == 0int % 0xFFFF) by {
        lemma_small_mod(0, 0xFFFF);
    }
    lemma_mod_add_multiples_vanish(t0 - f, 0xFFFF);
    assert(t1 % 0xFFFF == 0);
    // t1 is positive, so its folded sum lies in [1, 0xFFFF] and is a
    // multiple of 0xFFFF: it must be exactly 0xFFFF.
    assert(t1 > 0);
    lemma_fold_carries_bounds(t1);
    lemma_fold_carries_mod(t1);
    let g = fold_carries(t1);
    if g < 0xFFFF {
        lemma_small_mod(g as nat, 0xFFFF);
        assert(g == 0);
        assert(false);
    }
    assert(g == 0xFFFF);
}

} // verus!
