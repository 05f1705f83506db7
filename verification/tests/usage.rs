use agentsdk::usage::{CompletionTokensDetails, PromptTokensDetails, StreamUsage, Usage};

fn usage(prompt: i64, completion: i64, total: i64, cached: Option<i64>, reasoning: Option<i64>) -> StreamUsage {
    StreamUsage {
        prompt_tokens: Some(prompt),
        completion_tokens: Some(completion),
        total_tokens: Some(total),
        prompt_tokens_details: cached.map(|c| PromptTokensDetails { cached_tokens: Some(c) }),
        completion_tokens_details: reasoning.map(|r| CompletionTokensDetails { reasoning_tokens: Some(r) }),
    }
}

#[test]
fn usage_from_chunk_counts_cache_and_reasoning() {
    let u = Usage::from_report(&usage(100, 50, 150, Some(80), Some(20)));
    assert_eq!(u.requests, 1);
    assert_eq!(u.prompt_tokens, 100);
    assert_eq!(u.completion_tokens, 50);
    assert_eq!(u.total_tokens, 150);
    assert_eq!(u.cached_tokens, 80);
    assert_eq!(u.reasoning_tokens, 20);
}

#[test]
fn usage_without_details_defaults_to_zero() {
    let u = Usage::from_report(&usage(10, 5, 15, None, None));
    assert_eq!(u.cached_tokens, 0);
    assert_eq!(u.reasoning_tokens, 0);
}

#[test]
fn usage_accumulates_across_requests() {
    let mut total = Usage::from_report(&usage(100, 50, 150, Some(80), None));
    total.add_assign(Usage::from_report(&usage(200, 30, 230, Some(160), Some(5))));
    assert_eq!(total.requests, 2);
    assert_eq!(total.prompt_tokens, 300);
    assert_eq!(total.completion_tokens, 80);
    assert_eq!(total.total_tokens, 380);
    assert_eq!(total.cached_tokens, 240);
    assert_eq!(total.reasoning_tokens, 5);
}

#[test]
fn usage_sum_is_order_independent() {
    let a = Usage::from_report(&usage(1, 2, 3, Some(4), Some(5)));
    let b = Usage::from_report(&usage(10, 20, 30, None, Some(50)));
    let mut ab = a;
    ab.add_assign(b);
    let mut ba = b;
    ba.add_assign(a);
    assert_eq!(ab, ba);
}

#[test]
fn usage_report_without_counts_is_one_empty_request() {
    let u = Usage::from_report(&StreamUsage {
        prompt_tokens: None,
        completion_tokens: None,
        total_tokens: None,
        prompt_tokens_details: None,
        completion_tokens_details: None,
    });
    let mut expected = Usage::new();
    expected.requests = 1;
    assert_eq!(u, expected);
    let mut z = Usage::new();
    z.add_assign(u);
    assert_eq!(z, u);
}
