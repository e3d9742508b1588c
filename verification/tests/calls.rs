use hearthcoach_harness::demo::deepseek::{call_refusal, call_status, completions_url, reply_content, uses_deepseek_options, CallEnd, CallRefusal};

#[test]
fn missing_deepseek_key_is_refused_before_cancellation() {
    assert_eq!(call_refusal("  ", "DeepSeek", true), Some(CallRefusal::MissingApiKey));
    assert_eq!(call_refusal("", "openai", true), Some(CallRefusal::Cancelled));
    assert_eq!(call_refusal("sk", "deepseek", false), None);
    assert!(uses_deepseek_options("DEEPSEEK"));
    assert!(!uses_deepseek_options("openai"));
}

#[test]
fn completions_url_drops_trailing_slashes() {
    assert_eq!(completions_url("https://api.deepseek.com//"), "https://api.deepseek.com/chat/completions");
    assert_eq!(completions_url("http://x/v1"), "http://x/v1/chat/completions");
}

#[test]
fn blank_content_is_no_reply() {
    assert_eq!(reply_content(Some("  \n")), None);
    assert_eq!(reply_content(None), None);
    assert_eq!(reply_content(Some(" {} ")), Some(" {} ".to_owned()));
}

#[test]
fn call_statuses_follow_how_the_request_ended() {
    assert_eq!(call_status(CallEnd::TransportFailed { cancelled: true }), "cancelled");
    assert_eq!(call_status(CallEnd::TransportFailed { cancelled: false }), "failed");
    assert_eq!(call_status(CallEnd::Unreadable), "failed");
    assert_eq!(call_status(CallEnd::ProviderError), "failed");
    assert_eq!(call_status(CallEnd::EmptyContent), "failed");
    assert_eq!(call_status(CallEnd::InvalidJson), "invalid_json");
    assert_eq!(call_status(CallEnd::Parsed), "ok");
}
