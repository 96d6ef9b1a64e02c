use typesafe_jev_sdk::Usage;

#[test]
fn budget_holds_its_limits() {
    let b = Usage::as_budget(100, 20);
    assert_eq!(b.input_tokens(), 100);
    assert_eq!(b.output_tokens(), 20);
    assert_eq!(b.tokens(), 120);
}

#[test]
fn tokens_near_the_limit() {
    assert_eq!(Usage::as_budget(u64::MAX - 1, 1).tokens(), u64::MAX);
    assert_eq!(Usage::as_budget(0, 0).tokens(), 0);
}

#[test]
fn exceeds_budget_is_true_when_some_limit_covers_the_usage() {
    let used = Usage::as_budget(50, 10);
    assert!(used.exceeds_budget(&Usage::as_budget(100, 20)));
    assert!(used.exceeds_budget(&Usage::as_budget(50, 0)));
    assert!(used.exceeds_budget(&Usage::as_budget(0, 10)));
    assert!(!used.exceeds_budget(&Usage::as_budget(49, 9)));
    assert!(used.exceeds_budget(&used));
}
