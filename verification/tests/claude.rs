use pointify::claude::{
    account_info_from, apply_account_info, build_cookie, cache_key, effective_ttl,
    fetch_targets, has_credentials, infer_plan, is_live_key, live_cache_keys, needs_identity,
    seconds_between, stale, PollRound, UsageCache, seconds_until, tally_usage, AccountRecordPayload, ClaudeTtl,
    MembershipRecord, OrganizationRecord, TokenUsage, UsageLine,
};
use pointify::claude::{date_before, date_text, is_today, today_match};
use pointify::credentials::{ClaudeAccount, ClaudeOrg};

fn s(v: &str) -> Option<String> {
    Some(v.to_string())
}

fn strings(v: &[&str]) -> Vec<String> {
    v.iter().map(|x| x.to_string()).collect()
}

fn org(uuid: &str, name: &str) -> ClaudeOrg {
    ClaudeOrg { uuid: uuid.to_string(), name: name.to_string(), plan: None }
}

fn account(id: &str, key: &str, orgs: Vec<ClaudeOrg>) -> ClaudeAccount {
    ClaudeAccount {
        id: id.to_string(),
        session_key: key.to_string(),
        cf_clearance: "cf".to_string(),
        email: s("e"),
        display_name: s("d"),
        orgs,
    }
}

#[test]
fn cache_key_joins_account_and_org() {
    assert_eq!(cache_key("acct-1", "org-9"), "acct-1:org-9");
    assert_eq!(cache_key("", ""), ":");
}

#[test]
fn cookie_carries_both_credentials() {
    assert_eq!(build_cookie("k", "c"), "sessionKey=k; cf_clearance=c");
}

#[test]
fn plan_inferred_from_seat_and_capabilities() {
    assert_eq!(infer_plan(&strings(&["chat"]), &s("team_tier_1")), s("Team Premium"));
    assert_eq!(infer_plan(&strings(&["chat", "claude_pro"]), &None), s("Pro"));
    assert_eq!(infer_plan(&strings(&["chat"]), &None), s("Free"));
    assert_eq!(infer_plan(&strings(&["chat"]), &s("member")), None);
    assert_eq!(infer_plan(&strings(&["chat", "api"]), &None), None);
    assert_eq!(infer_plan(&Vec::new(), &None), None);
}

fn membership(uuid: Option<String>, name: Option<String>, caps: &[&str], seat: Option<String>) -> MembershipRecord {
    MembershipRecord {
        organization: Some(OrganizationRecord { uuid, name, capabilities: strings(caps) }),
        seat_tier: seat,
    }
}

#[test]
fn account_payload_keeps_chat_orgs_only() {
    let payload = AccountRecordPayload {
        email_address: s("me@x"),
        display_name: None,
        full_name: s("Full Name"),
        memberships: vec![
            membership(s("o1"), s("Personal"), &["chat", "claude_pro"], None),
            membership(s("o2"), s("Console"), &["api"], None),
            membership(None, s("No uuid"), &["chat"], None),
            MembershipRecord { organization: None, seat_tier: None },
            membership(s("o3"), None, &["chat"], s("team_tier_1")),
        ],
    };
    let info = account_info_from(&payload);
    assert_eq!(info.email, s("me@x"));
    assert_eq!(info.display_name, s("Full Name"));
    assert_eq!(info.memberships.len(), 2);
    assert_eq!(info.memberships[0].uuid, "o1");
    assert_eq!(info.memberships[0].name, "Personal");
    assert_eq!(info.memberships[0].plan, s("Pro"));
    assert_eq!(info.memberships[1].uuid, "o3");
    assert_eq!(info.memberships[1].name, "");
    assert_eq!(info.memberships[1].plan, s("Team Premium"));
}

#[test]
fn display_name_preferred_over_full_name() {
    let payload = AccountRecordPayload {
        email_address: None,
        display_name: s("Nick"),
        full_name: s("Full"),
        memberships: Vec::new(),
    };
    let info = account_info_from(&payload);
    assert_eq!(info.display_name, s("Nick"));
    assert_eq!(info.email, None);
}

#[test]
fn credentials_need_key_and_clearance() {
    assert!(has_credentials(&account("a", "k", vec![])));
    assert!(!has_credentials(&account("a", "", vec![])));
    let mut a = account("a", "k", vec![]);
    a.cf_clearance = String::new();
    assert!(!has_credentials(&a));
}

#[test]
fn identity_needed_when_something_is_missing() {
    let full = account("a", "k", vec![org("o", "Org")]);
    assert!(!needs_identity(&full, false));
    assert!(needs_identity(&full, true));
    assert!(needs_identity(&account("a", "k", vec![]), false));
    assert!(needs_identity(&account("a", "k", vec![org("o", "Org"), org("p", "")]), false));
    let mut no_email = full.clone();
    no_email.email = None;
    assert!(needs_identity(&no_email, false));
}

#[test]
fn account_info_replaces_identity_and_orgs() {
    let payload = AccountRecordPayload {
        email_address: s("new@x"),
        display_name: s("New"),
        full_name: None,
        memberships: vec![membership(s("o9"), s("Nine"), &["chat"], None)],
    };
    let info = account_info_from(&payload);
    let mut a = account("a", "k", vec![org("old", "Old")]);
    apply_account_info(&mut a, &info);
    assert_eq!(a.id, "a");
    assert_eq!(a.session_key, "k");
    assert_eq!(a.email, s("new@x"));
    assert_eq!(a.display_name, s("New"));
    assert_eq!(a.orgs.len(), 1);
    assert_eq!(a.orgs[0].uuid, "o9");
    assert_eq!(a.orgs[0].plan, s("Free"));
}

#[test]
fn live_keys_cover_every_pair() {
    let accounts = vec![
        account("a", "k", vec![org("o1", "x"), org("o2", "y")]),
        account("b", "", vec![org("o3", "z")]),
    ];
    let keys = live_cache_keys(&accounts);
    assert_eq!(keys, vec!["a:o1", "a:o2", "b:o3"]);
    assert!(is_live_key(&keys, "b:o3"));
    assert!(!is_live_key(&keys, "c:o1"));
}

#[test]
fn fetch_targets_skip_missing_credentials_and_uuids() {
    let accounts = vec![
        account("a", "k", vec![org("o1", "x"), org("", "no uuid"), org("o2", "y")]),
        account("b", "", vec![org("o3", "z")]),
        account("c", "k", vec![org("o4", "w")]),
    ];
    assert_eq!(fetch_targets(&accounts), vec![(0, 0), (0, 2), (2, 0)]);
}

#[test]
fn ttl_never_below_ten_seconds() {
    assert_eq!(effective_ttl(0), 10);
    assert_eq!(effective_ttl(5), 10);
    assert_eq!(effective_ttl(120), 120);
    let ttl = ClaudeTtl(std::sync::Arc::new(std::sync::atomic::AtomicU64::new(3)));
    assert_eq!(ttl.current_secs(), 10);
}

#[test]
fn stale_after_effective_interval() {
    assert!(!stale(1_000, 120_999, 120));
    assert!(stale(1_000, 121_000, 120));
    assert!(stale(0, 10_000, 5));
    assert!(!stale(0, 9_999, 5));
    assert!(!stale(5_000, 0, 120));
}

#[test]
fn usage_cache_keeps_data_of_failed_fetches() {
    let mut c: UsageCache<u32> = UsageCache::new();
    assert!(c.due("a:o", 0, 120));
    c.record("a:o".to_string(), 1_000, Ok::<u32, String>(7));
    assert_eq!(c.fetched_at("a:o"), Some(1_000));
    assert_eq!(c.data("a:o"), Some(&7));
    assert!(!c.due("a:o", 120_999, 120));
    assert!(c.due("a:o", 121_000, 120));
    c.record("a:o".to_string(), 130_000, Err::<u32, String>("HTTP 500".to_string()));
    assert_eq!(c.fetched_at("a:o"), Some(1_000));
    assert_eq!(c.data("a:o"), Some(&7));
    c.record("a:o".to_string(), 140_000, Ok::<u32, String>(8));
    assert_eq!(c.data("a:o"), Some(&8));
    assert_eq!(c.entries.len(), 1);
}

#[test]
fn usage_cache_pruned_to_live_keys() {
    let mut c: UsageCache<u32> = UsageCache::new();
    c.record("a:o1".to_string(), 1, Ok::<u32, ()>(1));
    c.record("b:o2".to_string(), 2, Ok::<u32, ()>(2));
    c.record("a:o3".to_string(), 3, Ok::<u32, ()>(3));
    c.retain_live(&vec!["a:o1".to_string(), "a:o3".to_string()]);
    assert_eq!(c.data("a:o1"), Some(&1));
    assert_eq!(c.data("b:o2"), None);
    assert_eq!(c.data("a:o3"), Some(&3));
    c.forget("a:o1");
    assert_eq!(c.data("a:o1"), None);
    assert_eq!(c.data("a:o3"), Some(&3));
}

fn line(today: bool, id: Option<&str>, input: u64, output: u64) -> UsageLine {
    UsageLine {
        is_today: today,
        has_message: true,
        message_id: id.map(|x| x.to_string()),
        usage: Some(TokenUsage {
            input_tokens: input,
            output_tokens: output,
            cache_creation_input_tokens: 1,
            cache_read_input_tokens: 2,
        }),
    }
}

#[test]
fn tally_counts_each_message_once() {
    let lines = vec![
        line(true, Some("m1"), 10, 20),
        line(true, Some("m1"), 10, 20),
        line(false, Some("m2"), 100, 100),
        line(true, None, 1, 1),
        line(true, Some("m2"), 5, 5),
    ];
    let (totals, counted) = tally_usage(&lines).unwrap();
    assert_eq!(totals.input_tokens, 16);
    assert_eq!(totals.output_tokens, 26);
    assert_eq!(totals.cache_creation_tokens, 3);
    assert_eq!(totals.cache_read_tokens, 6);
    assert_eq!(totals.total_tokens, 16 + 26 + 3 + 6);
    assert_eq!(counted, vec![true, false, false, true, true]);
}

#[test]
fn tally_counts_cost_of_lines_without_message() {
    let lines = vec![UsageLine { is_today: true, has_message: false, message_id: None, usage: None }];
    let (totals, counted) = tally_usage(&lines).unwrap();
    assert_eq!(totals.total_tokens, 0);
    assert_eq!(counted, vec![true]);
}

#[test]
fn seconds_between_truncates_toward_zero() {
    assert_eq!(seconds_between(10, 0, 0, 500_000_000), 9);
    assert_eq!(seconds_between(0, 0, 10, 500_000_000), -10);
    assert_eq!(seconds_between(5, 0, 5, 0), 0);
}

#[test]
fn seconds_until_reset_timestamp() {
    // 2024-01-01T00:00:00Z is 1704067200.
    assert_eq!(seconds_until("2024-01-01T00:01:00Z", 1_704_067_200, 0), Some(60));
    assert_eq!(seconds_until("2024-01-01T00:01:00Z", 1_704_067_200, 500_000_000), Some(59));
    assert_eq!(seconds_until("2024-01-01T01:01:00+01:00", 1_704_067_200, 0), Some(60));
    assert_eq!(seconds_until("2024-01-01T00:00:00.25Z", 1_704_067_260, 0), Some(-59));
    assert_eq!(seconds_until("not a timestamp", 0, 0), None);
}

#[test]
fn tally_refuses_totals_beyond_u64() {
    let big = vec![line(true, Some("a"), u64::MAX, 0), line(true, Some("b"), 1, 0)];
    assert!(tally_usage(&big).is_none());
    let repeated = vec![line(true, Some("a"), u64::MAX - 3, 0), line(true, Some("a"), 1, 0)];
    assert!(tally_usage(&repeated).is_some());
    let total_only = vec![line(true, None, u64::MAX, 1)];
    assert!(tally_usage(&total_only).is_none());
}

#[test]
fn poll_round_fetches_only_due_live_pairs() {
    let accounts = vec![
        account("a", "k", vec![org("o1", "x"), org("o2", "y")]),
        account("b", "", vec![org("o3", "z")]),
    ];
    let mut c: UsageCache<u32> = UsageCache::new();
    c.record("a:o1".to_string(), 100_000, Ok::<u32, ()>(1));
    c.record("gone:o9".to_string(), 0, Ok::<u32, ()>(9));
    let mut round = PollRound::start(&mut c, &accounts);
    assert_eq!(c.data("gone:o9"), None);
    assert_eq!(c.data("a:o1"), Some(&1));
    // "a:o1" is fresh at 150 s with a 120 s interval; "a:o2" was never fetched;
    // "b:o3" has no credentials.
    assert_eq!(round.next_fetch(&c, &accounts, 150_000, 120), Some((0, 1, "a:o2".to_string())));
    c.record("a:o2".to_string(), 150_000, Err::<u32, ()>(()));
    assert_eq!(round.next_fetch(&c, &accounts, 150_000, 120), None);
    assert_eq!(c.data("a:o2"), None);

    let mut round = PollRound::start(&mut c, &accounts);
    assert_eq!(round.next_fetch(&c, &accounts, 220_000, 120), Some((0, 0, "a:o1".to_string())));
    c.record("a:o1".to_string(), 220_000, Ok::<u32, ()>(5));
    assert_eq!(round.next_fetch(&c, &accounts, 220_000, 120), Some((0, 1, "a:o2".to_string())));
    assert_eq!(round.next_fetch(&c, &accounts, 220_000, 120), None);
    assert_eq!(c.data("a:o1"), Some(&5));
}

#[test]
fn date_text_writes_year_month_day() {
    assert_eq!(date_text((2024, 1, 5)), "2024-01-05");
    assert_eq!(date_text((1999, 12, 31)), "1999-12-31");
    assert_eq!(date_text((7, 3, 9)), "0007-03-09");
    assert_eq!(date_text((-5, 6, 10)), "-0005-06-10");
    assert_eq!(date_text((12345, 11, 30)), "+12345-11-30");
}

#[test]
fn today_match_compares_local_dates() {
    assert!(today_match(Some((2024, 3, 1)), "2024-02-29T23:30:00-05:00", (2024, 3, 1)));
    assert!(!today_match(Some((2024, 2, 29)), "2024-03-01T00:30:00Z", (2024, 3, 1)));
}

#[test]
fn today_match_falls_back_to_date_prefix() {
    assert!(today_match(None, "2024-03-01 garbage", (2024, 3, 1)));
    assert!(!today_match(None, "2024-03-02 garbage", (2024, 3, 1)));
    assert!(!today_match(None, "2024-03", (2024, 3, 1)));
}

#[test]
fn is_today_by_prefix_for_non_rfc3339_text() {
    assert!(is_today("2024-01-01garbage", (2024, 1, 1)));
    assert!(!is_today("2023-12-31garbage", (2024, 1, 1)));
    assert!(!is_today("", (2024, 1, 1)));
}

#[test]
fn is_today_uses_the_local_date_of_an_rfc3339_instant() {
    let now = chrono::Local::now();
    let d = now.date_naive();
    let today = (chrono::Datelike::year(&d), chrono::Datelike::month(&d), chrono::Datelike::day(&d));
    assert!(is_today(&now.to_rfc3339(), today));
    let long_ago = chrono::DateTime::parse_from_rfc3339("2001-06-15T12:00:00Z").unwrap();
    assert!(!is_today(&long_ago.to_rfc3339(), today));
}

#[test]
fn date_before_orders_calendar_dates() {
    assert!(date_before((2023, 12, 31), (2024, 1, 1)));
    assert!(date_before((2024, 1, 31), (2024, 2, 1)));
    assert!(date_before((2024, 2, 1), (2024, 2, 2)));
    assert!(!date_before((2024, 2, 2), (2024, 2, 2)));
    assert!(!date_before((2024, 3, 1), (2024, 2, 28)));
}

#[test]
fn forget_account_drops_every_pair_of_the_account() {
    let mut c: UsageCache<u32> = UsageCache::new();
    c.record(cache_key("acc", "o1"), 1, Ok::<u32, ()>(1));
    c.record(cache_key("acc", "o2"), 1, Ok::<u32, ()>(2));
    c.record(cache_key("acc2", "o1"), 1, Ok::<u32, ()>(3));
    c.record(cache_key("other", "o1"), 1, Ok::<u32, ()>(4));
    c.forget_account("acc");
    assert_eq!(c.data("acc:o1"), None);
    assert_eq!(c.data("acc:o2"), None);
    assert!(c.due("acc:o1", 2, 120));
    assert_eq!(c.data("acc2:o1"), Some(&3));
    assert_eq!(c.data("other:o1"), Some(&4));
    assert_eq!(c.entries.len(), 2);
}
