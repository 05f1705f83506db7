//! Cumulative LLM token usage for a run.
//!
//! Providers that honor `stream_options.include_usage` emit one final usage
//! chunk per request; the agent loop folds each into a `Usage`.
use vstd::prelude::*;

verus! {

/// Cached-prompt breakdown of a usage chunk.
pub struct PromptTokensDetails {
    pub cached_tokens: Option<i64>,
}

/// Reasoning breakdown of a usage chunk.
pub struct CompletionTokensDetails {
    pub reasoning_tokens: Option<i64>,
}

/// The usage report a provider sends at the end of a streamed response.
pub struct StreamUsage {
    pub prompt_tokens: Option<i64>,
    pub completion_tokens: Option<i64>,
    pub total_tokens: Option<i64>,
    pub prompt_tokens_details: Option<PromptTokensDetails>,
    pub completion_tokens_details: Option<CompletionTokensDetails>,
}

/// Token usage accumulated across every LLM request of a run.
#[derive(Clone, Copy, Debug, PartialEq, Eq, Structural, Default)]
pub struct Usage {
    /// LLM requests that reported usage.
    pub requests: u32,
    /// Prompt (input) tokens, including cached ones.
    pub prompt_tokens: i64,
    /// Completion (output) tokens.
    pub completion_tokens: i64,
    /// Total tokens as reported by the provider.
    pub total_tokens: i64,
    /// Prompt tokens served from the provider's prompt cache.
    pub cached_tokens: i64,
    /// Completion tokens spent on reasoning / chain of thought.
    pub reasoning_tokens: i64,
}

pub open spec fn or_zero(o: Option<i64>) -> i64 {
    match o {
        Some(x) => x,
        None => 0,
    }
}

/// The usage one report stands for: one request, absent counts read as 0.
pub open spec fn usage_of(u: StreamUsage) -> Usage {
    Usage {
        requests: 1,
        prompt_tokens: or_zero(u.prompt_tokens),
        completion_tokens: or_zero(u.completion_tokens),
        total_tokens: or_zero(u.total_tokens),
        cached_tokens: match u.prompt_tokens_details {
            Some(d) => or_zero(d.cached_tokens),
            None => 0,
        },
        reasoning_tokens: match u.completion_tokens_details {
            Some(d) => or_zero(d.reasoning_tokens),
            None => 0,
        },
    }
}

/// Field-by-field sum, over the integers.
pub open spec fn sum_fits(a: Usage, b: Usage) -> bool {
    &&& a.requests + b.requests <= u32::MAX
    &&& i64::MIN <= a.prompt_tokens + b.prompt_tokens <= i64::MAX
    &&& i64::MIN <= a.completion_tokens + b.completion_tokens <= i64::MAX
    &&& i64::MIN <= a.total_tokens + b.total_tokens <= i64::MAX
    &&& i64::MIN <= a.cached_tokens + b.cached_tokens <= i64::MAX
    &&& i64::MIN <= a.reasoning_tokens + b.reasoning_tokens <= i64::MAX
}

/// The field-by-field sum of two usages (defined where every sum fits).
pub open spec fn sum_spec(a: Usage, b: Usage) -> Usage {
    Usage {
        requests: (a.requests + b.requests) as u32,
        prompt_tokens: (a.prompt_tokens + b.prompt_tokens) as i64,
        completion_tokens: (a.completion_tokens + b.completion_tokens) as i64,
        total_tokens: (a.total_tokens + b.total_tokens) as i64,
        cached_tokens: (a.cached_tokens + b.cached_tokens) as i64,
        reasoning_tokens: (a.reasoning_tokens + b.reasoning_tokens) as i64,
    }
}

fn or_zero_exec(o: Option<i64>) -> (r: i64)
    ensures
        r == or_zero(o),
{
    match o {
        Some(x) => x,
        None => 0,
    }
}

impl Usage {
    /// No request, no token.
    pub fn new() -> (u: Usage)
        ensures
            u == (Usage {
                requests: 0,
                prompt_tokens: 0,
                completion_tokens: 0,
                total_tokens: 0,
                cached_tokens: 0,
                reasoning_tokens: 0,
            }),
    {
        Usage {
            requests: 0,
            prompt_tokens: 0,
            completion_tokens: 0,
            total_tokens: 0,
            cached_tokens: 0,
            reasoning_tokens: 0,
        }
    }

    /// The usage of one request, read from its usage report.
    pub fn from_report(u: &StreamUsage) -> (r: Usage)
        ensures
            r == usage_of(*u),
    {
        Usage {
            requests: 1,
            prompt_tokens: or_zero_exec(u.prompt_tokens),
            completion_tokens: or_zero_exec(u.completion_tokens),
            total_tokens: or_zero_exec(u.total_tokens),
            cached_tokens: match &u.prompt_tokens_details {
                Some(d) => or_zero_exec(d.cached_tokens),
                None => 0,
            },
            reasoning_tokens: match &u.completion_tokens_details {
                Some(d) => or_zero_exec(d.reasoning_tokens),
                None => 0,
            },
        }
    }

    /// Adds `rhs` field by field (`+=`); every sum must fit its field, as
    /// the `+=` of the fields panics on overflow.
    pub fn add_assign(&mut self, rhs: Usage)
        requires
            sum_fits(*old(self), rhs),
        ensures
            *final(self) == sum_spec(*old(self), rhs),
    {
        self.requests = self.requests + rhs.requests;
        self.prompt_tokens = self.prompt_tokens + rhs.prompt_tokens;
        self.completion_tokens = self.completion_tokens + rhs.completion_tokens;
        self.total_tokens = self.total_tokens + rhs.total_tokens;
        self.cached_tokens = self.cached_tokens + rhs.cached_tokens;
        self.reasoning_tokens = self.reasoning_tokens + rhs.reasoning_tokens;
    }
}

/// Accumulation does not depend on the order of two reports: `a += b`
/// and `b += a` give the same totals.
pub proof fn lemma_sum_commutes(a: Usage, b: Usage)
    requires
        sum_fits(a, b),
    ensures
        sum_fits(b, a),
        sum_spec(a, b) == sum_spec(b, a),
{
}

/// Accumulation is associative: folding three reports in either grouping
/// gives the same totals.
pub proof fn lemma_sum_associates(a: Usage, b: Usage, c: Usage)
    requires
        sum_fits(a, b),
        sum_fits(sum_spec(a, b), c),
        sum_fits(b, c),
    ensures
        sum_fits(a, sum_spec(b, c)),
        sum_spec(sum_spec(a, b), c) == sum_spec(a, sum_spec(b, c)),
{
}

/// The empty usage is neutral for accumulation.
pub proof fn lemma_sum_zero(a: Usage)
    ensures
        sum_fits(a, Usage::default_spec()),
        sum_spec(a, Usage::default_spec()) == a,
{
}

impl Usage {
    /// No request, no token (what `Usage::default()` gives).
    pub open spec fn default_spec() -> Usage {
        Usage {
            requests: 0,
            prompt_tokens: 0,
            completion_tokens: 0,
            total_tokens: 0,
            cached_tokens: 0,
            reasoning_tokens: 0,
        }
    }
}

/// Each report counts exactly one request.
pub proof fn lemma_report_counts_one_request(u: StreamUsage)
    ensures
        usage_of(u).requests == 1,
{
}

} // verus!
