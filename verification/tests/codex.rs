use pointify::codex::{
    jwt_payload_segment, parse_accounts, plan_label, resolve_identity, should_log_error,
    window_slot_for, AccountEntry, CodexIdentity, CodexStatus, WindowSlot,
};

fn s(v: &str) -> Option<String> {
    Some(v.to_string())
}

/// Whether a gauge bucket of `nominal_minutes` is the weekly one.
fn weekly(nominal_minutes: f64) -> bool {
    nominal_minutes >= 24.0 * 60.0
}

#[test]
fn window_for_matches_by_duration_on_team_shape() {
    // Team: weekly credit window arrives as primary, no short window.
    let primary = Some(Some(604_800));
    let secondary = None;
    assert!(window_slot_for(primary, secondary, weekly(5.0 * 60.0)).is_none());
    assert_eq!(
        window_slot_for(primary, secondary, weekly(7.0 * 24.0 * 60.0)),
        Some(WindowSlot::Primary)
    );
}

#[test]
fn window_for_matches_by_duration_on_plus_shape() {
    // Plus/Pro: 5h primary + 7d secondary.
    let primary = Some(Some(18_000));
    let secondary = Some(Some(604_800));
    assert_eq!(
        window_slot_for(primary, secondary, weekly(5.0 * 60.0)),
        Some(WindowSlot::Primary)
    );
    assert_eq!(
        window_slot_for(primary, secondary, weekly(7.0 * 24.0 * 60.0)),
        Some(WindowSlot::Secondary)
    );
}

#[test]
fn window_for_falls_back_to_slots_without_durations() {
    let primary = Some(None);
    let secondary = Some(None);
    assert!(window_slot_for(primary, secondary, weekly(5.0 * 60.0)).is_some());
    assert!(window_slot_for(primary, secondary, weekly(7.0 * 24.0 * 60.0)).is_some());
}

#[test]
fn window_known_duration_of_other_bucket_is_not_used_positionally() {
    // A 7d window in the primary slot is not the short window.
    assert_eq!(window_slot_for(Some(Some(604_800)), Some(None), false), None);
    assert_eq!(window_slot_for(Some(Some(604_800)), Some(None), true), Some(WindowSlot::Primary));
}

#[test]
fn parses_accounts_check_payload() {
    let entries = vec![
        AccountEntry {
            id: s("ws-1"),
            account_user_role: s("standard-user"),
            structure: s("workspace"),
            plan_type: s("team"),
            name: s("RTst"),
        },
        AccountEntry {
            id: s("personal-1"),
            account_user_role: s("account-owner"),
            structure: s("personal"),
            plan_type: s("prolite"),
            name: None,
        },
    ];
    let accounts = parse_accounts(&entries, &s("ws-1"), &s("personal-1"));
    assert_eq!(accounts.len(), 2);
    assert_eq!(accounts[0].id, "ws-1");
    assert_eq!(accounts[0].name, s("RTst"));
    assert_eq!(accounts[0].structure, s("workspace"));
    assert_eq!(accounts[0].role, s("standard-user"));
    assert_eq!(accounts[0].plan, s("Team"));
    assert!(accounts[0].is_default);
    assert!(!accounts[0].is_active);
    assert_eq!(accounts[1].id, "personal-1");
    assert_eq!(accounts[1].name, None);
    assert_eq!(accounts[1].structure, s("personal"));
    assert_eq!(accounts[1].role, s("account-owner"));
    assert_eq!(accounts[1].plan, s("Pro Lite"));
    assert!(!accounts[1].is_default);
    assert!(accounts[1].is_active);
}

#[test]
fn parses_empty_or_malformed_accounts_payload() {
    // `{}` and `{"accounts": "nope"}` both carry no account entries.
    assert!(parse_accounts(&Vec::new(), &None, &None).is_empty());
    let no_id = vec![AccountEntry {
        id: None,
        name: s("x"),
        structure: None,
        account_user_role: None,
        plan_type: None,
    }];
    assert!(parse_accounts(&no_id, &None, &None).is_empty());
}

#[test]
fn maps_known_plan_types() {
    for (raw, label) in [
        ("guest", "Guest"),
        ("free", "Free"),
        ("go", "Go"),
        ("plus", "Plus"),
        ("pro", "Pro"),
        ("prolite", "Pro Lite"),
        ("free_workspace", "Free Workspace"),
        ("team", "Team"),
        (
            "self_serve_business_usage_based",
            "Self Serve Business Usage Based",
        ),
        ("business", "Business"),
        ("enterprise_cbp_usage_based", "Enterprise CBP Usage Based"),
        ("enterprise", "Enterprise"),
        ("hc", "Enterprise"),
        ("education", "Edu"),
        ("edu", "Edu"),
        ("quorum", "Quorum"),
        ("k12", "K12"),
    ] {
        assert_eq!(plan_label(raw), label);
    }
}

#[test]
fn matches_case_insensitively() {
    assert_eq!(plan_label("TEAM"), "Team");
}

#[test]
fn passes_unknown_plan_types_through() {
    assert_eq!(plan_label("some_future_plan"), "some_future_plan");
}

#[test]
fn unknown_plan_keeps_its_case() {
    assert_eq!(plan_label("Some_Future"), "Some_Future");
}

#[test]
fn server_plan_overrides_token_plan() {
    let id = CodexIdentity {
        email: s("a@b.c"),
        name: s("A"),
        plan_type: s("plus"),
    };
    let r = resolve_identity(id.clone(), s("team"));
    assert_eq!(r.plan_type, s("Team"));
    assert_eq!(r.email, s("a@b.c"));
    let r = resolve_identity(id, None);
    assert_eq!(r.plan_type, s("Plus"));
}

#[test]
fn jwt_payload_is_second_segment() {
    assert_eq!(jwt_payload_segment("a.bc.d"), Some("bc"));
    assert_eq!(jwt_payload_segment("a.bc"), Some("bc"));
    assert_eq!(jwt_payload_segment("abc"), None);
}

#[test]
fn jwt_claims_decode_base64url() {
    // {"a":1} base64url, no padding
    let bytes = pointify::codex::jwt_claims_bytes("x.eyJhIjoxfQ.y").unwrap();
    assert_eq!(bytes, b"{\"a\":1}".to_vec());
    assert!(pointify::codex::jwt_claims_bytes("x.!!!.y").is_none());
}

#[test]
fn error_logged_only_when_it_changes() {
    assert!(should_log_error(&None, "HTTP 401"));
    assert!(!should_log_error(&s("HTTP 401"), "HTTP 401"));
    assert!(should_log_error(&s("HTTP 401"), "HTTP 500"));
}

#[test]
fn fetch_attempts_are_spaced_by_the_interval() {
    let mut st = CodexStatus::default();
    assert!(st.begin_attempt(5_000, 3));
    assert_eq!(st.last_attempt, Some(5_000));
    st.record_failure("HTTP 401".to_string());
    assert!(!st.begin_attempt(14_999, 3));
    assert_eq!(st.last_attempt, Some(5_000));
    assert!(st.begin_attempt(15_000, 3));
    assert_eq!(st.error, Some("HTTP 401".to_string()));
    st.reset();
    assert!(st.begin_attempt(15_001, 120));
}
