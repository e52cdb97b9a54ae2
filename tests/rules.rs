use greed::config::{rules_wf_holds, RuleConfig};
use greed::number::Decimal;
use greed::rules::{check_rule, evaluate, same_text};

fn num(s: &str) -> Decimal {
    Decimal::parse(s).unwrap()
}

fn from(s: &str) -> RuleConfig {
    RuleConfig::OnChangeFrom { from: s.to_string() }
}

fn to(s: &str) -> RuleConfig {
    RuleConfig::OnChangeTo { to: s.to_string() }
}

#[test]
fn on_change_needs_a_previous_different_value() {
    assert!(check_rule(&RuleConfig::OnChange, Some("5"), "7"));
    assert!(!check_rule(&RuleConfig::OnChange, Some("5"), "5"));
    assert!(!check_rule(&RuleConfig::OnChange, None, "5"));
    assert!(check_rule(&RuleConfig::OnChange, Some("a"), "A"));
    assert!(check_rule(&RuleConfig::OnChange, Some(""), "x"));
}

#[test]
fn on_change_from_checks_the_previous_value() {
    assert!(check_rule(&from("old"), Some("old"), "new"));
    assert!(!check_rule(&from("old"), Some("other"), "new"));
    assert!(!check_rule(&from("old"), Some("old"), "old"));
    assert!(!check_rule(&from("old"), None, "new"));
}

#[test]
fn on_change_to_checks_the_current_value() {
    assert!(check_rule(&to("new"), Some("old"), "new"));
    assert!(!check_rule(&to("new"), Some("old"), "other"));
    assert!(!check_rule(&to("new"), Some("new"), "new"));
    assert!(!check_rule(&to("new"), None, "new"));
}

#[test]
fn on_change_from_to_checks_both_values() {
    let rule = RuleConfig::OnChangeFromTo { from: "a".to_string(), to: "b".to_string() };
    assert!(check_rule(&rule, Some("a"), "b"));
    assert!(!check_rule(&rule, Some("a"), "c"));
    assert!(!check_rule(&rule, Some("c"), "b"));
    assert!(!check_rule(&rule, None, "b"));
    let same = RuleConfig::OnChangeFromTo { from: "a".to_string(), to: "a".to_string() };
    assert!(check_rule(&same, Some("a"), "a"));
}

#[test]
fn threshold_rules_compare_the_current_number() {
    let t = num("100");
    assert!(check_rule(&RuleConfig::LessThan { threshold: t }, None, "99.5"));
    assert!(!check_rule(&RuleConfig::LessThan { threshold: t }, None, "100"));
    assert!(check_rule(&RuleConfig::LessThanOrEqualTo { threshold: t }, None, "100"));
    assert!(!check_rule(&RuleConfig::LessThanOrEqualTo { threshold: t }, None, "100.01"));
    assert!(check_rule(&RuleConfig::EqualTo { threshold: t }, None, "100.000"));
    assert!(!check_rule(&RuleConfig::EqualTo { threshold: t }, None, "100.001"));
    assert!(check_rule(&RuleConfig::MoreThan { threshold: t }, Some("x"), "101"));
    assert!(!check_rule(&RuleConfig::MoreThan { threshold: t }, None, "100"));
    assert!(check_rule(&RuleConfig::MoreThanOrEqualTo { threshold: t }, None, "100"));
    assert!(!check_rule(&RuleConfig::MoreThanOrEqualTo { threshold: t }, None, "-100"));
}

#[test]
fn threshold_rules_do_not_match_non_numbers() {
    let t = num("100");
    assert!(!check_rule(&RuleConfig::MoreThan { threshold: t }, None, "N/A"));
    assert!(!check_rule(&RuleConfig::LessThan { threshold: t }, None, ""));
    assert!(!check_rule(&RuleConfig::EqualTo { threshold: t }, None, "1 00"));
}

#[test]
fn on_increase_and_on_decrease_need_two_numbers() {
    assert!(check_rule(&RuleConfig::OnIncrease, Some("10"), "12"));
    assert!(!check_rule(&RuleConfig::OnIncrease, None, "12"));
    assert!(!check_rule(&RuleConfig::OnIncrease, Some("abc"), "12"));
    assert!(!check_rule(&RuleConfig::OnIncrease, Some("12"), "12"));
    assert!(!check_rule(&RuleConfig::OnIncrease, Some("10"), "abc"));
    assert!(check_rule(&RuleConfig::OnDecrease, Some("12"), "10"));
    assert!(!check_rule(&RuleConfig::OnDecrease, Some("10"), "12"));
    assert!(!check_rule(&RuleConfig::OnDecrease, None, "10"));
    assert!(check_rule(&RuleConfig::OnDecrease, Some("-1.5"), "-2"));
}

#[test]
fn evaluate_returns_the_first_matching_rule() {
    let rules = vec![
        RuleConfig::OnChangeTo { to: "zzz".to_string() },
        RuleConfig::OnIncrease,
        RuleConfig::OnChange,
    ];
    assert_eq!(evaluate(&rules, Some("1"), "2"), Some(1));
    assert_eq!(evaluate(&rules, Some("b"), "a"), Some(2));
    assert_eq!(evaluate(&rules, Some("a"), "zzz"), Some(0));
    assert_eq!(evaluate(&rules, Some("a"), "a"), None);
    assert_eq!(evaluate(&rules, None, "a"), None);
    assert_eq!(evaluate(&Vec::new(), Some("a"), "b"), None);
}

#[test]
fn evaluating_the_same_step_twice_gives_the_same_result() {
    let rules = vec![RuleConfig::OnDecrease, RuleConfig::OnChange];
    let first = evaluate(&rules, Some("3"), "4");
    let second = evaluate(&rules, Some("3"), "4");
    assert_eq!(first, second);
    assert_eq!(first, Some(1));
}

#[test]
fn texts_compare_exactly() {
    assert!(same_text("abc", "abc"));
    assert!(!same_text("abc", "abd"));
    assert!(!same_text("abc", "ab"));
    assert!(same_text("", ""));
    assert!(!same_text("é", "e"));
}

#[test]
fn thresholds_are_checked_for_well_formedness() {
    let good = vec![RuleConfig::OnChange, RuleConfig::MoreThan { threshold: num("1.5") }];
    assert!(rules_wf_holds(&good));
    let bad = vec![RuleConfig::EqualTo { threshold: Decimal { negative: false, mantissa: 1, scale: 40 } }];
    assert!(!rules_wf_holds(&bad));
}
