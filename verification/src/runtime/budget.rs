//! How many tokens a request may take.
use vstd::prelude::*;
use vstd::string::*;

use crate::profile::{ModelProfileConfig, ModelView};
use crate::tokens::{
    budget_tokens, context_budget_tokens, estimate_model_input_tokens,
    token_estimate,
};

verus! {

pub const DEFAULT_AUTO_COMPRESS_CONTEXT_PERCENT: usize = 80;

pub const SUPERVISOR_PROMPT_CONTEXT_PERCENT: usize = 80;

pub const SUPERVISOR_PROMPT_MARGIN_TOKENS: u32 = 4096;

pub const MODEL_PROTOCOL_MARGIN_TOKENS: u32 = 512;

/// `a - b`, or zero where `b` is the larger.
pub open spec fn less(a: int, b: int) -> int {
    if a > b {
        a - b
    } else {
        0
    }
}

pub open spec fn smaller(a: int, b: int) -> int {
    if a < b {
        a
    } else {
        b
    }
}

pub open spec fn at_least_one(a: int) -> int {
    if a < 1 {
        1
    } else {
        a
    }
}

/// `n` divided by 100, rounded up.
pub open spec fn hundredths_up(n: int) -> int {
    (n + 99) / 100
}

/// `n` taken five times, as far as 32 bits hold it.
pub open spec fn five_times(n: u32) -> int {
    smaller(5 * n, u32::MAX as int)
}

/// The share of the context that a percentage gives, cut to 32 bits.
pub open spec fn percent_share(profile: ModelView, percent: usize) -> u32 {
    budget_tokens(profile.context_tokens, percent) as u32
}

pub fn context_percent_tokens(profile: &ModelProfileConfig, percent: usize) -> (r: usize)
    ensures
        r == budget_tokens(profile@.context_tokens, percent),
{
    context_budget_tokens(profile.context_tokens, percent)
}

fn saturating_less(a: u32, b: u32) -> (r: u32)
    ensures
        r == less(a as int, b as int),
{
    if a > b {
        a - b
    } else {
        0
    }
}

fn five_of(n: u32) -> (r: u32)
    ensures
        r == five_times(n),
{
    match n.checked_mul(5) {
        Some(m) => m,
        None => u32::MAX,
    }
}

/// What the supervisor's prompt may take: four fifths of the context, and no more
/// than the answer and a margin leave.
pub open spec fn supervisor_budget(profile: ModelView) -> int {
    let share = hundredths_up(
        smaller(profile.context_tokens * SUPERVISOR_PROMPT_CONTEXT_PERCENT, usize::MAX as int),
    );
    let left = less(
        less(profile.context_tokens as int, profile.max_output_tokens as int),
        SUPERVISOR_PROMPT_MARGIN_TOKENS as int,
    );
    at_least_one(smaller(share, left))
}

/// What the supervisor's prompt may take.
pub fn supervisor_prompt_budget_tokens(profile: &ModelProfileConfig) -> (r: u32)
    ensures
        r == supervisor_budget(profile@),
{
    let context: usize = profile.context_tokens as usize;
    let product: usize = match context.checked_mul(SUPERVISOR_PROMPT_CONTEXT_PERCENT) {
        Some(p) => p,
        None => usize::MAX,
    };
    let whole: usize = product / 100;
    let share: usize = if product % 100 == 0 {
        whole
    } else {
        whole + 1
    };
    assert(share == hundredths_up(product as int));
    assert(share <= u32::MAX);
    let share: u32 = share as u32;
    let left = saturating_less(
        saturating_less(profile.context_tokens, profile.max_output_tokens),
        SUPERVISOR_PROMPT_MARGIN_TOKENS,
    );
    let r: u32 = if share < left {
        share
    } else {
        left
    };
    if r < 1 {
        1
    } else {
        r
    }
}

/// What remembered messages may take, beside a prompt that is always there.
pub open spec fn compaction_budget(profile: ModelView, percent: usize, prompt: Seq<char>) -> int {
    let margin = five_times(profile.context_tokens) / 100;
    let left = less(
        less(profile.context_tokens as int, profile.max_output_tokens as int),
        margin,
    );
    at_least_one(
        less(
            less(
                smaller(percent_share(profile, percent) as int, left),
                token_estimate(prompt) as int,
            ),
            MODEL_PROTOCOL_MARGIN_TOKENS as int,
        ),
    )
}

/// What remembered messages may take.
pub fn memory_compaction_budget_tokens(
    profile: &ModelProfileConfig,
    context_percent: usize,
    fixed_system_prompt: &str,
) -> (r: usize)
    ensures
        r == compaction_budget(profile@, context_percent, fixed_system_prompt@),
{
    let share: u32 = context_percent_tokens(profile, context_percent) as u32;
    let margin: u32 = five_of(profile.context_tokens) / 100;
    let left = saturating_less(
        saturating_less(profile.context_tokens, profile.max_output_tokens),
        margin,
    );
    let within: u32 = if share < left {
        share
    } else {
        left
    };
    let used = estimate_model_input_tokens(fixed_system_prompt);
    let r = saturating_less(saturating_less(within, used), MODEL_PROTOCOL_MARGIN_TOKENS);
    if r < 1 {
        1
    } else {
        r as usize
    }
}

/// What a whole request may take.
pub open spec fn request_budget(profile: ModelView, percent: usize) -> int {
    let margin = hundredths_up(five_times(profile.context_tokens));
    at_least_one(
        smaller(
            percent_share(profile, percent) as int,
            less(less(profile.context_tokens as int, profile.max_output_tokens as int), margin),
        ),
    )
}

/// What a whole request may take.
pub fn model_request_budget_tokens(profile: &ModelProfileConfig, context_percent: usize) -> (r: u32)
    ensures
        r == request_budget(profile@, context_percent),
{
    let share: u32 = context_percent_tokens(profile, context_percent) as u32;
    let five = five_of(profile.context_tokens);
    let margin: u32 = if five % 100 == 0 {
        five / 100
    } else {
        five / 100 + 1
    };
    let left = saturating_less(
        saturating_less(profile.context_tokens, profile.max_output_tokens),
        margin,
    );
    let r: u32 = if share < left {
        share
    } else {
        left
    };
    if r < 1 {
        1
    } else {
        r
    }
}

/// A request that stays in its budget leaves room in the context for the answer.
pub proof fn budget_leaves_room_for_the_answer(profile: ModelView, percent: usize)
    requires
        profile.max_output_tokens < profile.context_tokens,
    ensures
        1 <= request_budget(profile, percent) <= profile.context_tokens - profile.max_output_tokens,
{
}

/// What remembered messages may take is never more than a whole request.
pub proof fn compaction_stays_within_requests(profile: ModelView, percent: usize, prompt: Seq<char>)
    ensures
        compaction_budget(profile, percent, prompt) <= request_budget(profile, percent),
{
}

/// A supervisor's prompt that stays in its budget leaves room for the answer.
pub proof fn supervisor_budget_leaves_room(profile: ModelView)
    requires
        profile.max_output_tokens + SUPERVISOR_PROMPT_MARGIN_TOKENS < profile.context_tokens,
    ensures
        1 <= supervisor_budget(profile) <= profile.context_tokens - profile.max_output_tokens
            - SUPERVISOR_PROMPT_MARGIN_TOKENS,
{
}

/// A request may take its share of the context, where that leaves room for the answer
/// and a margin of a twentieth; else what is left.
pub proof fn a_request_may_take_its_share(profile: ModelView, percent: usize)
    ensures
        ({
            let share = percent_share(profile, percent);
            let margin = (five_times(profile.context_tokens) + 99) / 100;
            let room = profile.context_tokens - profile.max_output_tokens - margin;
            let r = request_budget(profile, percent);
            &&& r >= 1
            &&& 1 <= share <= room ==> r == share
            &&& 1 <= room < share ==> r == room
            &&& room < 1 ==> r == 1
        }),
{
}

/// Memory is compressed to what a request leaves beside the prompt and a margin.
pub proof fn compaction_leaves_room_for_the_prompt(
    profile: ModelView,
    percent: usize,
    prompt: Seq<char>,
)
    ensures
        ({
            let share = percent_share(profile, percent);
            let margin = five_times(profile.context_tokens) / 100;
            let room = profile.context_tokens - profile.max_output_tokens - margin;
            let r = compaction_budget(profile, percent, prompt);
            &&& r >= 1
            &&& 0 <= share <= room && share - token_estimate(prompt)
                - MODEL_PROTOCOL_MARGIN_TOKENS >= 1 ==> r == share - token_estimate(prompt)
                - MODEL_PROTOCOL_MARGIN_TOKENS
            &&& 0 <= room < share && room - token_estimate(prompt) - MODEL_PROTOCOL_MARGIN_TOKENS
                >= 1 ==> r == room - token_estimate(prompt) - MODEL_PROTOCOL_MARGIN_TOKENS
        }),
{
}

/// The prompt of a supervisor takes its share, where that leaves room for the answer
/// and the margin.
pub proof fn a_supervisor_takes_its_share(profile: ModelView)
    ensures
        ({
            let share = (profile.context_tokens * SUPERVISOR_PROMPT_CONTEXT_PERCENT + 99) / 100;
            let room = profile.context_tokens - profile.max_output_tokens
                - SUPERVISOR_PROMPT_MARGIN_TOKENS;
            let fits = profile.context_tokens * SUPERVISOR_PROMPT_CONTEXT_PERCENT <= usize::MAX;
            &&& supervisor_budget(profile) >= 1
            &&& fits && 1 <= share <= room ==> supervisor_budget(profile) == share
            &&& fits && 1 <= room < share ==> supervisor_budget(profile) == room
        }),
{
}

} // verus!
