//! Estimates of how many tokens of a model's context a text takes.
use vstd::prelude::*;
use vstd::string::*;

use crate::text::is_ascii_char;

verus! {

broadcast use vstd::string::group_string_axioms;

/// How many characters of `s` are ASCII.
pub open spec fn ascii_count(s: Seq<char>) -> nat
    decreases s.len(),
{
    if s.len() == 0 {
        0
    } else {
        ascii_count(s.drop_last()) + (if is_ascii_char(s.last()) {
            1nat
        } else {
            0nat
        })
    }
}

/// Four ASCII characters to a token, rounded up, and one token for each other
/// character; at most what a `u32` holds.
pub open spec fn token_estimate(s: Seq<char>) -> nat {
    let tokens = (ascii_count(s) + 3) / 4 + (s.len() - ascii_count(s));
    if tokens > u32::MAX {
        u32::MAX as nat
    } else {
        tokens as nat
    }
}

pub proof fn lemma_ascii_count(s: Seq<char>)
    ensures
        ascii_count(s) <= s.len(),
    decreases s.len(),
{
    if s.len() > 0 {
        lemma_ascii_count(s.drop_last());
    }
}

/// The empty text takes no tokens, and any other text at least one.
pub proof fn only_the_empty_text_is_free(s: Seq<char>)
    ensures
        token_estimate(s) == 0 <==> s.len() == 0,
{
    lemma_ascii_count(s);
}

proof fn lemma_ascii_count_add(s: Seq<char>, t: Seq<char>)
    ensures
        ascii_count(s + t) == ascii_count(s) + ascii_count(t),
    decreases t.len(),
{
    if t.len() == 0 {
        assert(s + t =~= s);
    } else {
        lemma_ascii_count_add(s, t.drop_last());
        assert((s + t).drop_last() =~= s + t.drop_last());
    }
}

/// A text takes no fewer tokens than a part that it begins with.
pub proof fn estimate_is_monotone(s: Seq<char>, t: Seq<char>)
    ensures
        token_estimate(s) <= token_estimate(s + t),
{
    lemma_ascii_count_add(s, t);
    lemma_ascii_count(s);
    lemma_ascii_count(t);
}

/// The estimate of the tokens that a text takes.
pub fn estimate_model_input_tokens(text: &str) -> (r: u32)
    ensures
        r as nat == token_estimate(text@),
{
    let chars = crate::text::chars_of(text);
    let mut ascii: usize = 0;
    let mut i: usize = 0;
    while i < chars.len()
        invariant
            i <= chars.len(),
            chars@ == text@,
            ascii <= i,
            ascii as nat == ascii_count(text@.take(i as int)),
        decreases chars.len() - i,
    {
        proof {
            assert(text@.take(i + 1).drop_last() =~= text@.take(i as int));
        }
        if chars[i] as u32 <= 0x7f {
            ascii += 1;
        }
        i += 1;
    }
    assert(text@.take(i as int) =~= text@);
    let whole: usize = ascii / 4;
    let rest: usize = ascii % 4;
    let quarter: usize = if rest == 0 {
        whole
    } else {
        whole + 1
    };
    let wide: usize = chars.len() - ascii;
    assert(quarter == (ascii + 3) / 4);
    if quarter > u32::MAX as usize || wide > u32::MAX as usize - quarter {
        u32::MAX
    } else {
        (quarter + wide) as u32
    }
}

/// `percent` hundredths of a context of `context_tokens`, rounded up and never
/// zero; the product stops at what a `usize` holds.
pub open spec fn budget_tokens(context_tokens: u32, percent: usize) -> nat {
    let product = context_tokens * percent;
    let capped = if product > usize::MAX {
        usize::MAX as int
    } else {
        product
    };
    let tokens = if capped % 100 == 0 {
        capped / 100
    } else {
        capped / 100 + 1
    };
    if tokens < 1 {
        1
    } else {
        tokens as nat
    }
}

/// `percent` hundredths of a context, rounded up and never zero.
pub fn context_budget_tokens(context_tokens: u32, percent: usize) -> (r: usize)
    ensures
        r as nat == budget_tokens(context_tokens, percent),
{
    let capped: usize = match (context_tokens as usize).checked_mul(percent) {
        Some(p) => p,
        None => usize::MAX,
    };
    let tokens: usize = if capped % 100 == 0 {
        capped / 100
    } else {
        capped / 100 + 1
    };
    if tokens < 1 {
        1
    } else {
        tokens
    }
}

/// Up to the whole context, a share of the context is no more than the context.
pub proof fn budget_stays_within_context(context_tokens: u32, percent: usize)
    requires
        1 <= percent <= 100,
        context_tokens >= 1,
    ensures
        1 <= budget_tokens(context_tokens, percent) <= context_tokens,
{
    assert(context_tokens * percent <= context_tokens * 100) by (nonlinear_arith)
        requires
            percent <= 100,
    ;
}

/// A text of plain letters costs a token for each four of them, begun ones counted
/// whole; every other character costs one of its own.
pub proof fn texts_cost_by_their_characters(s: Seq<char>)
    requires
        s.len() <= u32::MAX,
    ensures
        (forall|i: int| 0 <= i < s.len() ==> is_ascii_char(#[trigger] s[i])) ==> token_estimate(s)
            == (s.len() + 3) / 4,
        (forall|i: int| 0 <= i < s.len() ==> !is_ascii_char(#[trigger] s[i])) ==> token_estimate(s)
            == s.len(),
        token_estimate(s) <= s.len(),
{
    lemma_ascii_count(s);
    if forall|i: int| 0 <= i < s.len() ==> is_ascii_char(#[trigger] s[i]) {
        lemma_all_plain(s);
    }
    if forall|i: int| 0 <= i < s.len() ==> !is_ascii_char(#[trigger] s[i]) {
        lemma_none_plain(s);
    }
}

proof fn lemma_all_plain(s: Seq<char>)
    requires
        forall|i: int| 0 <= i < s.len() ==> is_ascii_char(#[trigger] s[i]),
    ensures
        ascii_count(s) == s.len(),
    decreases s.len(),
{
    if s.len() > 0 {
        assert(is_ascii_char(s[s.len() - 1]));
        assert forall|i: int| 0 <= i < s.drop_last().len() implies is_ascii_char(
            #[trigger] s.drop_last()[i],
        ) by {
            assert(s.drop_last()[i] == s[i]);
        }
        lemma_all_plain(s.drop_last());
    }
}

proof fn lemma_none_plain(s: Seq<char>)
    requires
        forall|i: int| 0 <= i < s.len() ==> !is_ascii_char(#[trigger] s[i]),
    ensures
        ascii_count(s) == 0,
    decreases s.len(),
{
    if s.len() > 0 {
        assert(!is_ascii_char(s[s.len() - 1]));
        assert forall|i: int| 0 <= i < s.drop_last().len() implies !is_ascii_char(
            #[trigger] s.drop_last()[i],
        ) by {
            assert(s.drop_last()[i] == s[i]);
        }
        lemma_none_plain(s.drop_last());
    }
}

/// A share of a context is its percentage, rounded up, and never nothing.
pub proof fn shares_are_rounded_up(context_tokens: u32, percent: usize)
    requires
        context_tokens * percent <= usize::MAX,
        context_tokens * percent >= 1,
    ensures
        100 * budget_tokens(context_tokens, percent) >= context_tokens * percent,
        100 * (budget_tokens(context_tokens, percent) - 1) < context_tokens * percent,
{
}

} // verus!
