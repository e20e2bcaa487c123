use pointify::credentials::{
    account_from_env, migrated_account_id, parse_claude_env, remove_account, store_from_records,
    sync_identity, upsert_account, AccountRecord, ClaudeAccount, ClaudeOrg, CredentialsStore,
    OrgRecord,
};

fn s(v: &str) -> Option<String> {
    Some(v.to_string())
}

fn account(id: &str, key: &str) -> ClaudeAccount {
    ClaudeAccount {
        id: id.to_string(),
        session_key: key.to_string(),
        cf_clearance: "cf".to_string(),
        email: None,
        display_name: None,
        orgs: Vec::new(),
    }
}

fn ids(store: &CredentialsStore) -> Vec<String> {
    store.claude.iter().map(|a| a.id.clone()).collect()
}

#[test]
fn upsert_appends_new_account() {
    let mut store = CredentialsStore::default();
    let saved = upsert_account(&mut store, account("a", "k1"));
    assert_eq!(saved.id, "a");
    upsert_account(&mut store, account("b", "k2"));
    assert_eq!(ids(&store), vec!["a", "b"]);
}

#[test]
fn upsert_replaces_account_with_same_id() {
    let mut store = CredentialsStore::default();
    upsert_account(&mut store, account("a", "k1"));
    upsert_account(&mut store, account("b", "k2"));
    let saved = upsert_account(&mut store, account("a", "k3"));
    assert_eq!(saved.session_key, "k3");
    assert_eq!(ids(&store), vec!["a", "b"]);
    assert_eq!(store.claude[0].session_key, "k3");
    assert_eq!(store.claude[1].session_key, "k2");
}

#[test]
fn remove_reports_whether_something_was_removed() {
    let mut store = CredentialsStore::default();
    upsert_account(&mut store, account("a", "k1"));
    upsert_account(&mut store, account("b", "k2"));
    assert!(remove_account(&mut store, "a"));
    assert_eq!(ids(&store), vec!["b"]);
    assert!(!remove_account(&mut store, "a"));
    assert_eq!(ids(&store), vec!["b"]);
}

#[test]
fn remove_drops_every_duplicate() {
    let mut store = CredentialsStore {
        claude: vec![account("x", "1"), account("y", "2"), account("x", "3")],
    };
    assert!(remove_account(&mut store, "x"));
    assert_eq!(ids(&store), vec!["y"]);
}

#[test]
fn upsert_then_remove_leaves_no_account_with_that_id() {
    let mut store = CredentialsStore::default();
    upsert_account(&mut store, account("a", "k"));
    upsert_account(&mut store, account("a", "k2"));
    assert!(remove_account(&mut store, "a"));
    assert!(store.claude.is_empty());
}

fn record(id: Option<String>) -> AccountRecord {
    AccountRecord {
        id,
        session_key: s("sk"),
        cf_clearance: None,
        email: s("e@x"),
        display_name: None,
        orgs: None,
        org_id: None,
        org_name: None,
    }
}

#[test]
fn loads_multi_org_records() {
    let mut r = record(s("a"));
    r.orgs = Some(vec![
        OrgRecord { uuid: s("o1"), name: s("One"), plan: s("Pro") },
        OrgRecord { uuid: None, name: s("skipped"), plan: None },
        OrgRecord { uuid: s("o2"), name: None, plan: None },
    ]);
    let store = store_from_records(&vec![r, record(None)]);
    assert_eq!(ids(&store), vec!["a"]);
    let a = &store.claude[0];
    assert_eq!(a.session_key, "sk");
    assert_eq!(a.cf_clearance, "");
    assert_eq!(a.email, s("e@x"));
    assert_eq!(a.orgs.len(), 2);
    assert_eq!(a.orgs[0].uuid, "o1");
    assert_eq!(a.orgs[0].name, "One");
    assert_eq!(a.orgs[0].plan, s("Pro"));
    assert_eq!(a.orgs[1].uuid, "o2");
    assert_eq!(a.orgs[1].name, "");
    assert_eq!(a.orgs[1].plan, None);
}

#[test]
fn loads_legacy_single_org_records() {
    let mut legacy = record(s("old"));
    legacy.org_id = s("org-1");
    legacy.org_name = s("Legacy");
    let mut empty = record(s("bare"));
    empty.org_id = s("");
    let store = store_from_records(&vec![legacy, empty]);
    assert_eq!(store.claude.len(), 2);
    assert_eq!(store.claude[0].orgs.len(), 1);
    assert_eq!(store.claude[0].orgs[0].uuid, "org-1");
    assert_eq!(store.claude[0].orgs[0].name, "Legacy");
    assert_eq!(store.claude[0].orgs[0].plan, None);
    assert!(store.claude[1].orgs.is_empty());
}

#[test]
fn orgs_list_wins_over_legacy_fields() {
    let mut r = record(s("a"));
    r.orgs = Some(Vec::new());
    r.org_id = s("org-1");
    let store = store_from_records(&vec![r]);
    assert!(store.claude[0].orgs.is_empty());
}

#[test]
fn sync_identity_updates_only_identity() {
    let mut store = CredentialsStore { claude: vec![account("a", "k1")] };
    let mut fetched = account("a", "other-key");
    fetched.email = s("me@x");
    fetched.display_name = s("Me");
    fetched.orgs = vec![ClaudeOrg { uuid: "o".to_string(), name: "Org".to_string(), plan: None }];
    assert!(sync_identity(&mut store, &fetched));
    let a = &store.claude[0];
    assert_eq!(a.session_key, "k1");
    assert_eq!(a.email, s("me@x"));
    assert_eq!(a.display_name, s("Me"));
    assert_eq!(a.orgs.len(), 1);
    assert!(!sync_identity(&mut store, &account("zzz", "k")));
}

#[test]
fn parses_legacy_env_file() {
    let env = parse_claude_env(
        "# comment\n  SESSION_KEY = abc \nCF_CLEARANCE=x=y\nORG_ID=org\nOTHER=1\nnot a setting",
    );
    assert_eq!(env.session_key, "abc");
    assert_eq!(env.cf_clearance, "x=y");
    assert_eq!(env.org_id, "org");
    assert!(!env.is_empty());
}

#[test]
fn later_env_lines_override_earlier_ones() {
    let env = parse_claude_env("SESSION_KEY=one\r\nSESSION_KEY=two\n");
    assert_eq!(env.session_key, "two");
    assert_eq!(env.cf_clearance, "");
}

#[test]
fn env_without_settings_is_empty() {
    assert!(parse_claude_env("").is_empty());
    assert!(parse_claude_env("# only a comment\n\n").is_empty());
}

#[test]
fn migrated_id_is_acct_and_nanos() {
    assert_eq!(migrated_account_id(1234), "acct-1234");
    assert_eq!(migrated_account_id(0), "acct-0");
}

#[test]
fn env_account_has_placeholder_org() {
    let env = parse_claude_env("SESSION_KEY=s\nORG_ID=o-1");
    let a = account_from_env(env, "acct-1".to_string());
    assert_eq!(a.id, "acct-1");
    assert_eq!(a.session_key, "s");
    assert_eq!(a.cf_clearance, "");
    assert_eq!(a.email, None);
    assert_eq!(a.orgs.len(), 1);
    assert_eq!(a.orgs[0].uuid, "o-1");
    assert_eq!(a.orgs[0].name, "");
    let b = account_from_env(parse_claude_env("SESSION_KEY=s"), "acct-2".to_string());
    assert!(b.orgs.is_empty());
}

#[test]
fn saving_twice_is_saving_once() {
    let mut once = CredentialsStore { claude: vec![account("x", "1")] };
    upsert_account(&mut once, account("a", "k"));
    let mut twice = once.clone();
    upsert_account(&mut twice, account("a", "k"));
    assert_eq!(ids(&once), ids(&twice));
    assert_eq!(twice.claude[1].session_key, "k");
}

#[test]
fn removing_twice_is_removing_once() {
    let mut store = CredentialsStore { claude: vec![account("a", "1"), account("b", "2")] };
    assert!(remove_account(&mut store, "a"));
    assert!(!remove_account(&mut store, "a"));
    assert_eq!(ids(&store), vec!["b"]);
}
