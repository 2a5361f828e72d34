use virtual_object_atlas::safety_profile::ExcavationSafetyProfile;
use virtual_object_atlas::safety_profile::ExcavationStats;

#[test]
fn test_redact_email_and_ssn() {
    let profile = ExcavationSafetyProfile::default();
    let input = "Contact user42@example.com or ssn 123-45-6789 and card 4111111111111111";
    let redacted = profile.redact_text(input);
    assert!(!redacted.contains("user42@example.com"));
    assert!(!redacted.contains("123-45-6789"));
    assert!(!redacted.contains("4111111111111111"));
    assert!(redacted.contains("[REDACTED]"));
}

#[test]
fn test_deep_pass_decision() {
    let profile = ExcavationSafetyProfile::default();
    assert!(profile.should_enter_deep_pass(8000, 4000));
    assert!(!profile.should_enter_deep_pass(6000, 5000));
    assert!(!profile.should_enter_deep_pass(9000, 7000));
}

#[test]
fn test_classification() {
    let profile = ExcavationSafetyProfile::default();
    assert_eq!(profile.classify_object(9000, 1000), "auto-use");
    assert_eq!(profile.classify_object(7000, 3000), "show-with-warning");
    assert_eq!(profile.classify_object(5000, 7000), "quarantine");
}

#[test]
fn classification_scenarios_cover_all_three_labels() {
    let profile = ExcavationSafetyProfile::default();
    assert_eq!(profile.classify_object(9000, 1000), "auto-use");
    assert_eq!(profile.classify_object(5000, 5000), "show-with-warning");
    assert_eq!(profile.classify_object(1000, 9000), "quarantine");
}

#[test]
fn classification_is_monotone_in_the_auto_use_region() {
    let profile = ExcavationSafetyProfile::default();
    assert_eq!(profile.classify_object(8500, 2000), "auto-use");
    assert_eq!(profile.classify_object(10000, 0), "auto-use");
}

#[test]
fn deep_pass_margin_boundary_admits() {
    let profile = ExcavationSafetyProfile::default();
    assert!(profile.should_enter_deep_pass(2500, 0));
    assert!(!profile.should_enter_deep_pass(2499, 0));
    assert!(profile.should_enter_deep_pass(10000, 7500));
    assert!(!profile.should_enter_deep_pass(10000, 7501));
}

#[test]
fn deep_pass_margin_is_independent_of_the_profile() {
    let mut profile = ExcavationSafetyProfile::default();
    profile.deep_pass_budget = 0;
    // The admission margin alone decides; budgets are enforced elsewhere.
    assert!(profile.should_enter_deep_pass(10000, 0));
    assert!(!profile.should_enter_deep_pass(2000, 0));
}

#[test]
fn budgets_within_limits_pass() {
    let profile = ExcavationSafetyProfile::default();
    assert!(profile.enforce_budgets(20000, 50000, 2000, 15000).is_ok());
    assert!(profile.enforce_budgets(0, 0, 0, 0).is_ok());
}

#[test]
fn budgets_report_every_breach() {
    let profile = ExcavationSafetyProfile::default();
    let r = profile.enforce_budgets(30000, 1000, 5000, 1000);
    assert_eq!(r.unwrap_err(), vec!["nodeBudget", "deepPassBudget"]);
    let all = profile.enforce_budgets(20001, 50001, 2001, 15001);
    assert_eq!(
        all.unwrap_err(),
        vec!["nodeBudget", "traceSpanBudget", "deepPassBudget", "maxRunSeconds"]
    );
    let time_only = profile.enforce_budgets(1, 1, 1, 16000);
    assert_eq!(time_only.unwrap_err(), vec!["maxRunSeconds"]);
}

#[test]
fn check_stats_matches_enforce_budgets() {
    let profile = ExcavationSafetyProfile::default();
    let stats = ExcavationStats { nodes: 25000, spans: 1, deep_candidates: 1, run_millis: 1 };
    assert_eq!(profile.check_stats(&stats).unwrap_err(), vec!["nodeBudget"]);
    let fine = ExcavationStats { nodes: 1, spans: 1, deep_candidates: 1, run_millis: 1 };
    assert!(profile.check_stats(&fine).is_ok());
}

#[test]
fn profile_new_keeps_the_name() {
    let profile = ExcavationSafetyProfile::new("strict");
    assert_eq!(profile.profile_name, "strict");
    assert_eq!(profile.max_drift_for_auto_use, 2000);
    let d = ExcavationSafetyProfile::default();
    assert_eq!(d.profile_name, "default");
}

#[test]
fn redaction_replaces_both_and_nothing_else() {
    let profile = ExcavationSafetyProfile::default();
    let out = profile.redact_text("contact a@b.com, ssn 123-45-6789");
    assert_eq!(out, "contact [REDACTED], ssn [REDACTED]");
}

#[test]
fn redaction_is_idempotent_on_examples() {
    let profile = ExcavationSafetyProfile::default();
    let samples = [
        "",
        "contact a@b.com, ssn 123-45-6789",
        "Contact user42@example.com or ssn 123-45-6789 and card 4111111111111111",
        "123-45-6789-123-45-6789",
        "a@b.co.uk1234 x 12345678901234567",
        "[REDACTED] already",
        "plain text without identifiers",
    ];
    for s in samples {
        let once = profile.redact_text(s);
        let twice = profile.redact_text(&once);
        assert_eq!(once, twice);
    }
}

#[test]
fn redaction_respects_word_boundaries() {
    let profile = ExcavationSafetyProfile::default();
    // A seventeen-digit run is not a card number.
    assert_eq!(
        profile.redact_text("12345678901234567"),
        "12345678901234567"
    );
    // Digits glued to the identifier group suppress the boundary.
    assert_eq!(profile.redact_text("x123-45-6789"), "x123-45-6789");
    assert_eq!(profile.redact_text("123-45-67891"), "123-45-67891");
    // A clean sixteen-digit run is redacted.
    assert_eq!(profile.redact_text("4111111111111111"), "[REDACTED]");
}

#[test]
fn redaction_handles_empty_text() {
    let profile = ExcavationSafetyProfile::default();
    assert_eq!(profile.redact_text(""), "");
}

#[test]
fn redaction_email_matching_is_greedy_with_backtracking() {
    let profile = ExcavationSafetyProfile::default();
    // Dots may sit inside the local part.
    assert_eq!(profile.redact_text("x.a@b.co"), "[REDACTED]");
    // The domain ends at the last dot with a workable letter tail.
    assert_eq!(profile.redact_text("a@b.cox@y.com"), "[REDACTED]@y.com");
    // Without at least two letters after the final dot, nothing matches.
    assert_eq!(profile.redact_text("a@b.c"), "a@b.c");
    assert_eq!(profile.redact_text("a@b.co1"), "a@b.co1");
}
