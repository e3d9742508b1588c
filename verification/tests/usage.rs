use hearthcoach_harness::demo::deepseek::{normalize_usage, ReportedUsage};
use hearthcoach_harness::demo::model::AiUsage;

fn reported(prompt: u64, completion: u64, total: u64, hit: u64, miss: u64, nested: Option<u64>) -> ReportedUsage {
    ReportedUsage {
        prompt_tokens: prompt,
        completion_tokens: completion,
        total_tokens: total,
        prompt_cache_hit_tokens: hit,
        prompt_cache_miss_tokens: miss,
        nested_cached_tokens: nested,
    }
}

#[test]
fn deepseek_cache_fields_are_kept() {
    let u = normalize_usage(Some(reported(100, 20, 120, 60, 40, None)));
    assert_eq!(u, AiUsage { prompt_tokens: 100, completion_tokens: 20, total_tokens: 120, prompt_cache_hit_tokens: 60, prompt_cache_miss_tokens: 40 });
}

#[test]
fn nested_cached_count_and_fallbacks_fill_the_gaps() {
    let u = normalize_usage(Some(reported(100, 20, 0, 10, 0, Some(70))));
    assert_eq!(u.prompt_cache_hit_tokens, 70);
    assert_eq!(u.prompt_cache_miss_tokens, 30);
    assert_eq!(u.total_tokens, 120);
}

#[test]
fn fallbacks_saturate() {
    let u = normalize_usage(Some(reported(5, u64::MAX, 0, 9, 0, None)));
    assert_eq!(u.total_tokens, u64::MAX);
    assert_eq!(u.prompt_cache_miss_tokens, 0);
}

#[test]
fn missing_usage_counts_nothing() {
    assert_eq!(normalize_usage(None), AiUsage::default());
}
