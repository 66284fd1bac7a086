use exoclaw::memory::soul::estimate_tokens;

#[test]
fn test_estimate_tokens() {
    assert_eq!(estimate_tokens(""), 0);
    assert_eq!(estimate_tokens("hello"), 2);
    let doc = "a".repeat(2000);
    assert_eq!(estimate_tokens(&doc), 500);
}
