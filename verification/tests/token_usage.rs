use auto_claude::domain::chat::models::TokenUsage;

fn usage(prompt_tokens: u32, completion_tokens: u32, total_tokens: u32) -> TokenUsage {
    TokenUsage { prompt_tokens, completion_tokens, total_tokens }
}

#[test]
fn no_tokens_means_no_report() {
    assert_eq!(usage(0, 0, 0).reported(), None);
}

#[test]
fn missing_total_is_the_sum() {
    assert_eq!(usage(10, 5, 0).reported(), Some(usage(10, 5, 15)));
    assert_eq!(usage(10, 5, 40).reported(), Some(usage(10, 5, 40)));
}

#[test]
fn summed_total_saturates() {
    assert_eq!(usage(u32::MAX, 7, 0).reported(), Some(usage(u32::MAX, 7, u32::MAX)));
}
