use glimta::text::{compare_text, decimal_text, starts_with_text, text_eq, TextOrder};
use glimta::time::TimeSpan;

#[test]
fn decimal_rendering() {
    assert_eq!(decimal_text(0), "0");
    assert_eq!(decimal_text(10), "10");
    assert_eq!(decimal_text(u64::MAX), u64::MAX.to_string());
}

#[test]
fn text_comparisons_follow_str_order() {
    assert!(text_eq("abc", "abc"));
    assert!(!text_eq("abc", "abd"));
    assert!(starts_with_text("TRADFRI-x", "TRADFRI"));
    assert!(!starts_with_text("TRAD", "TRADFRI"));
    assert_eq!(compare_text("a", "b"), TextOrder::Less);
    assert_eq!(compare_text("ab", "a"), TextOrder::Greater);
    assert_eq!(compare_text("", ""), TextOrder::Equal);
    assert_eq!(compare_text("z", "é"), TextOrder::Less);
    assert_eq!("z".cmp("é"), std::cmp::Ordering::Less);
}

#[test]
fn spans_carry_and_saturate() {
    let span = TimeSpan::new(1, 2_500_000_000);
    assert_eq!(span.as_secs(), 3);
    assert_eq!(span.subsec_nanos(), 500_000_000);
    assert_eq!(TimeSpan::from_millis(1500), TimeSpan::new(1, 500_000_000));
    assert_eq!(TimeSpan::from_secs(u64::MAX).saturating_mul(2), TimeSpan::max_value());
    assert_eq!(TimeSpan::from_millis(700).saturating_mul(3), TimeSpan::new(2, 100_000_000));
    assert!(TimeSpan::from_millis(999).lt(&TimeSpan::from_secs(1)));
    assert_eq!(TimeSpan::zero().max(TimeSpan::from_secs(1)), TimeSpan::from_secs(1));
    assert_eq!(TimeSpan::zero().min(TimeSpan::from_secs(1)), TimeSpan::zero());
}
