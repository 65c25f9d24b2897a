//! Token estimation: a deterministic character-count heuristic used as a budget proxy.
//!
//! An ASCII character weighs 1/3.5 of a token and any other character 0.7 of a
//! token. Both weights are kept as integers over the common denominator 70, so
//! the estimate is exact rational arithmetic: `ceil((20 * ascii + 49 * other) / 70)`.

use vstd::prelude::*;

verus! {

/// Weight of one ASCII character, in seventieths of a token (1 / 3.5).
pub const ASCII_WEIGHT: u64 = 20;

/// Weight of one non-ASCII character, in seventieths of a token (0.7).
pub const OTHER_WEIGHT: u64 = 49;

/// The common denominator of the two weights.
pub const WEIGHT_DENOMINATOR: u64 = 70;

/// Weight of a single character, in seventieths of a token.
pub open spec fn char_weight(c: char) -> nat {
    if (c as u32) < 128 {
        ASCII_WEIGHT as nat
    } else {
        OTHER_WEIGHT as nat
    }
}

/// Total weight of a text, in seventieths of a token.
pub open spec fn text_weight(s: Seq<char>) -> nat
    decreases s.len(),
{
    if s.len() == 0 {
        0
    } else {
        text_weight(s.drop_last()) + char_weight(s.last())
    }
}

/// The estimate for a text of the given weight: the weight in tokens, rounded
/// up, at least 1 and at most `i32::MAX`.
pub open spec fn tokens_for_weight(w: nat) -> int {
    let t = (w + WEIGHT_DENOMINATOR - 1) / (WEIGHT_DENOMINATOR as int);
    if t < 1 {
        1
    } else if t > i32::MAX {
        i32::MAX as int
    } else {
        t
    }
}

/// The token estimate of a text.
pub open spec fn estimated_tokens(s: Seq<char>) -> int {
    tokens_for_weight(text_weight(s))
}

/// The weight of a concatenation is the sum of the weights.
pub proof fn lemma_text_weight_concat(a: Seq<char>, b: Seq<char>)
    ensures
        text_weight(a + b) == text_weight(a) + text_weight(b),
    decreases b.len(),
{
    if b.len() == 0 {
        assert(a + b =~= a);
    } else {
        assert((a + b).drop_last() =~= a + b.drop_last());
        assert((a + b).last() == b.last());
        lemma_text_weight_concat(a, b.drop_last());
    }
}

/// The estimate never decreases when text is appended.
pub proof fn lemma_estimate_monotone_under_append(text: Seq<char>, more: Seq<char>)
    ensures
        estimated_tokens(text + more) >= estimated_tokens(text),
{
    lemma_text_weight_concat(text, more);
    let before = text_weight(text);
    let after = text_weight(text + more);
    assert(before <= after);
    assert((before + 69) / 70 <= (after + 69) / 70) by (nonlinear_arith)
        requires
            before <= after,
    ;
}

/// The estimate is at least 1 for every text.
pub proof fn lemma_estimate_at_least_one(s: Seq<char>)
    ensures
        1 <= estimated_tokens(s) <= i32::MAX,
{
}

/// Estimates the number of tokens in `text`.
pub fn estimate_tokens(text: &str) -> (tokens: i32)
    ensures
        tokens == estimated_tokens(text@),
        tokens >= 1,
{
    let mut weight: u128 = 0;
    let mut seen: u64 = 0;
    let mut saturated = false;
    let chars = text.chars();
    for c in it: chars
        invariant
            it.seq() == text@,
            !saturated ==> seen == it.index() && weight == text_weight(text@.take(it.index())),
            !saturated ==> weight <= OTHER_WEIGHT * seen,
            saturated ==> it.index() > 0x2_0000_0000 && text_weight(text@.take(it.index())) >= ASCII_WEIGHT
                * 0x2_0000_0000,
    {
        proof {
            let i = it.index();
            assert(text@.take(i + 1).drop_last() =~= text@.take(i));
            assert(text@.take(i + 1).last() == c);
        }
        if !saturated {
            if seen > 0x2_0000_0000 {
                saturated = true;
                proof {
                    let i = it.index();
                    lemma_text_weight_at_least(text@.take(i));
                    lemma_text_weight_concat(text@.take(i), seq![c]);
                    assert(text@.take(i + 1) =~= text@.take(i) + seq![c]);
                }
            } else {
                seen = seen + 1;
                if (c as u32) < 128 {
                    weight = weight + ASCII_WEIGHT as u128;
                } else {
                    weight = weight + OTHER_WEIGHT as u128;
                }
            }
        } else {
            proof {
                let i = it.index();
                lemma_text_weight_concat(text@.take(i), seq![c]);
                assert(text@.take(i + 1) =~= text@.take(i) + seq![c]);
            }
        }
    }
    proof {
        assert(text@.take(text@.len() as int) =~= text@);
        if saturated {
            assert(tokens_for_weight(text_weight(text@)) == i32::MAX);
        }
    }
    if saturated {
        i32::MAX
    } else {
        let t: u128 = (weight + (WEIGHT_DENOMINATOR as u128 - 1)) / (WEIGHT_DENOMINATOR as u128);
        if t < 1 {
            1
        } else if t > i32::MAX as u128 {
            i32::MAX
        } else {
            t as i32
        }
    }
}

/// Every character weighs at least `ASCII_WEIGHT`.
pub proof fn lemma_text_weight_at_least(s: Seq<char>)
    ensures
        text_weight(s) >= ASCII_WEIGHT * s.len(),
    decreases s.len(),
{
    if s.len() > 0 {
        lemma_text_weight_at_least(s.drop_last());
    }
}

} // verus!
