//! The stored chat-service credentials: one entry per login, each with the
//! organizations it can see.
use vstd::prelude::*;
use crate::codex::{clone_opt, opt_view};
use crate::text::{decimal, decimal_spec, find_char, first_index_of, owned, str_eq, trim, trim_spec};

verus! {

/// One organization a credential has access to.
#[derive(Clone, Debug)]
pub struct ClaudeOrg {
    pub uuid: String,
    pub name: String,
    pub plan: Option<String>,
}

/// One stored credential (one login) that may have access to several orgs.
#[derive(Clone, Debug)]
pub struct ClaudeAccount {
    pub id: String,
    pub session_key: String,
    pub cf_clearance: String,
    pub email: Option<String>,
    pub display_name: Option<String>,
    /// All organizations the credential has access to.
    pub orgs: Vec<ClaudeOrg>,
}

/// All stored credentials.
#[derive(Clone, Debug)]
pub struct CredentialsStore {
    pub claude: Vec<ClaudeAccount>,
}

/// The text of an organization.
pub struct OrgView {
    pub uuid: Seq<char>,
    pub name: Seq<char>,
    pub plan: Option<Seq<char>>,
}

/// The text of an account.
pub struct AccountView {
    pub id: Seq<char>,
    pub session_key: Seq<char>,
    pub cf_clearance: Seq<char>,
    pub email: Option<Seq<char>>,
    pub display_name: Option<Seq<char>>,
    pub orgs: Seq<OrgView>,
}

impl View for ClaudeOrg {
    type V = OrgView;

    open spec fn view(&self) -> OrgView {
        OrgView { uuid: self.uuid@, name: self.name@, plan: opt_view(self.plan) }
    }
}

impl View for ClaudeAccount {
    type V = AccountView;

    open spec fn view(&self) -> AccountView {
        AccountView {
            id: self.id@,
            session_key: self.session_key@,
            cf_clearance: self.cf_clearance@,
            email: opt_view(self.email),
            display_name: opt_view(self.display_name),
            orgs: self.orgs@.map_values(|o: ClaudeOrg| o@),
        }
    }
}

impl View for CredentialsStore {
    type V = Seq<AccountView>;

    open spec fn view(&self) -> Seq<AccountView> {
        self.claude@.map_values(|a: ClaudeAccount| a@)
    }
}

impl Default for CredentialsStore {
    fn default() -> (r: Self)
        ensures
            r@ == Seq::<AccountView>::empty(),
    {
        let r = CredentialsStore { claude: Vec::new() };
        assert(r@ =~= Seq::<AccountView>::empty());
        r
    }
}

impl ClaudeOrg {
    /// A copy with the same text.
    pub fn copy(&self) -> (r: ClaudeOrg)
        ensures
            r@ == self@,
    {
        ClaudeOrg { uuid: self.uuid.clone(), name: self.name.clone(), plan: clone_opt(&self.plan) }
    }
}

/// A copy of a list of organizations with the same text.
pub fn copy_orgs(orgs: &Vec<ClaudeOrg>) -> (r: Vec<ClaudeOrg>)
    ensures
        r@.map_values(|o: ClaudeOrg| o@) == orgs@.map_values(|o: ClaudeOrg| o@),
{
    let mut r: Vec<ClaudeOrg> = Vec::new();
    let mut i: usize = 0;
    while i < orgs.len()
        invariant
            i <= orgs@.len(),
            r@.len() == i,
            forall|k: int| 0 <= k < i ==> (#[trigger] r@[k])@ == orgs@[k]@,
        decreases orgs@.len() - i,
    {
        r.push(orgs[i].copy());
        i = i + 1;
    }
    assert(r@.map_values(|o: ClaudeOrg| o@) =~= orgs@.map_values(|o: ClaudeOrg| o@));
    r
}

impl ClaudeAccount {
    /// A copy with the same text.
    pub fn copy(&self) -> (r: ClaudeAccount)
        ensures
            r@ == self@,
    {
        ClaudeAccount {
            id: self.id.clone(),
            session_key: self.session_key.clone(),
            cf_clearance: self.cf_clearance.clone(),
            email: clone_opt(&self.email),
            display_name: clone_opt(&self.display_name),
            orgs: copy_orgs(&self.orgs),
        }
    }
}

/// Index of the first account with identifier `id`, if any.
pub open spec fn first_with_id(accounts: Seq<AccountView>, id: Seq<char>) -> Option<int>
    decreases accounts.len(),
{
    if accounts.len() == 0 {
        None
    } else if accounts[0].id == id {
        Some(0)
    } else {
        match first_with_id(accounts.drop_first(), id) {
            Some(i) => Some(i + 1),
            None => None,
        }
    }
}

/// The accounts whose identifier is not `id`, in order.
pub open spec fn without_id(accounts: Seq<AccountView>, id: Seq<char>) -> Seq<AccountView>
    decreases accounts.len(),
{
    if accounts.len() == 0 {
        Seq::empty()
    } else {
        let rest = without_id(accounts.drop_last(), id);
        if accounts.last().id == id {
            rest
        } else {
            rest.push(accounts.last())
        }
    }
}

/// The store after inserting `account`: it replaces the first account with
/// the same identifier, or is appended when there is none.
pub open spec fn upsert_spec(accounts: Seq<AccountView>, account: AccountView) -> Seq<AccountView> {
    match first_with_id(accounts, account.id) {
        Some(i) => accounts.update(i, account),
        None => accounts.push(account),
    }
}

pub proof fn lemma_first_with_id(accounts: Seq<AccountView>, id: Seq<char>)
    ensures
        match first_with_id(accounts, id) {
            Some(j) => 0 <= j < accounts.len() && accounts[j].id == id && forall|k: int|
                0 <= k < j ==> accounts[k].id != id,
            None => forall|k: int| 0 <= k < accounts.len() ==> accounts[k].id != id,
        },
    decreases accounts.len(),
{
    if accounts.len() > 0 && accounts[0].id != id {
        lemma_first_with_id(accounts.drop_first(), id);
        assert forall|k: int| 0 < k < accounts.len() implies accounts[k] == accounts.drop_first()[k
            - 1] by {}
    }
}

pub proof fn lemma_without_id(accounts: Seq<AccountView>, id: Seq<char>)
    ensures
        forall|k: int|
            0 <= k < without_id(accounts, id).len() ==> (#[trigger] without_id(accounts, id)[k]).id
                != id,
        without_id(accounts, id).len() <= accounts.len(),
        (without_id(accounts, id).len() == accounts.len()) == (forall|k: int|
            0 <= k < accounts.len() ==> #[trigger] accounts[k].id != id),
    decreases accounts.len(),
{
    if accounts.len() > 0 {
        let init = accounts.drop_last();
        lemma_without_id(init, id);
        assert forall|k: int| 0 <= k < init.len() implies #[trigger] init[k] == accounts[k] by {}
        let all_differ = forall|k: int| 0 <= k < accounts.len() ==> #[trigger] accounts[k].id != id;
        let init_differ = forall|k: int| 0 <= k < init.len() ==> #[trigger] init[k].id != id;
        if accounts.last().id == id {
            assert(accounts[accounts.len() - 1].id == id);
            assert(!all_differ);
        } else {
            if init_differ {
                assert forall|k: int| 0 <= k < accounts.len() implies #[trigger] accounts[k].id
                    != id by {
                    if k < init.len() {
                        assert(init[k].id != id);
                    }
                }
            }
            if all_differ {
                assert forall|k: int| 0 <= k < init.len() implies #[trigger] init[k].id != id by {
                    assert(accounts[k].id != id);
                }
            }
        }
    }
}

proof fn lemma_first_with_id_at(accounts: Seq<AccountView>, id: Seq<char>, j: int)
    requires
        0 <= j < accounts.len(),
        accounts[j].id == id,
        forall|k: int| 0 <= k < j ==> accounts[k].id != id,
    ensures
        first_with_id(accounts, id) == Some(j),
    decreases j,
{
    if j > 0 {
        let rest = accounts.drop_first();
        assert forall|k: int| 0 <= k < j - 1 implies rest[k].id != id by {
            assert(rest[k] == accounts[k + 1]);
        }
        lemma_first_with_id_at(rest, id, j - 1);
    }
}

proof fn lemma_without_absent_id(accounts: Seq<AccountView>, id: Seq<char>)
    requires
        forall|k: int| 0 <= k < accounts.len() ==> accounts[k].id != id,
    ensures
        without_id(accounts, id) == accounts,
    decreases accounts.len(),
{
    if accounts.len() > 0 {
        let init = accounts.drop_last();
        assert forall|k: int| 0 <= k < init.len() implies init[k].id != id by {
            assert(init[k] == accounts[k]);
        }
        lemma_without_absent_id(init, id);
        assert(accounts.last() == accounts[accounts.len() - 1]);
        assert(init.push(accounts.last()) =~= accounts);
    }
}

fn find_account(accounts: &Vec<ClaudeAccount>, id: &str) -> (r: Option<usize>)
    ensures
        r is None ==> first_with_id(accounts@.map_values(|a: ClaudeAccount| a@), id@) is None,
        r matches Some(i) ==> i < accounts@.len() && first_with_id(
            accounts@.map_values(|a: ClaudeAccount| a@),
            id@,
        ) == Some(i as int),
{
    let ghost v = accounts@.map_values(|a: ClaudeAccount| a@);
    let mut i: usize = 0;
    assert(v.subrange(0, v.len() as int) =~= v);
    while i < accounts.len()
        invariant
            v == accounts@.map_values(|a: ClaudeAccount| a@),
            i <= accounts@.len(),
            first_with_id(v, id@) == match first_with_id(v.subrange(i as int, v.len() as int), id@) {
                Some(j) => Some(j + i),
                None => None::<int>,
            },
        decreases accounts@.len() - i,
    {
        let ghost t = v.subrange(i as int, v.len() as int);
        assert(t[0] == v[i as int]);
        if str_eq(accounts[i].id.as_str(), id) {
            return Some(i);
        }
        assert(t.drop_first() =~= v.subrange(i + 1, v.len() as int));
        i = i + 1;
    }
    assert(v.subrange(v.len() as int, v.len() as int).len() == 0);
    None
}

/// Inserts `account`, replacing the first stored account with the same
/// identifier or appending it when there is none; returns the account.
pub fn upsert_account(store: &mut CredentialsStore, account: ClaudeAccount) -> (r: ClaudeAccount)
    ensures
        r@ == account@,
        final(store)@ == upsert_spec(old(store)@, account@),
{
    let ghost old_v = store@;
    match find_account(&store.claude, account.id.as_str()) {
        Some(i) => {
            let copy = account.copy();
            store.claude.set(i, copy);
            assert(store@ =~= old_v.update(i as int, account@));
            account
        },
        None => {
            let copy = account.copy();
            store.claude.push(copy);
            assert(store@ =~= old_v.push(account@));
            account
        },
    }
}

/// Removes every account with identifier `id`; returns whether one was
/// removed.
pub fn remove_account(store: &mut CredentialsStore, id: &str) -> (removed: bool)
    ensures
        final(store)@ == without_id(old(store)@, id@),
        removed == exists|k: int| 0 <= k < old(store)@.len() && old(store)@[k].id == id@,
{
    let ghost old_v = store@;
    let mut kept: Vec<ClaudeAccount> = Vec::new();
    let mut removed = false;
    let mut i: usize = 0;
    while i < store.claude.len()
        invariant
            old_v == store@,
            i <= store.claude@.len(),
            kept@.map_values(|a: ClaudeAccount| a@) == without_id(old_v.subrange(0, i as int), id@),
            removed == exists|k: int| 0 <= k < i && old_v[k].id == id@,
        decreases store.claude@.len() - i,
    {
        proof {
            assert(old_v.subrange(0, i + 1).drop_last() =~= old_v.subrange(0, i as int));
        }
        if str_eq(store.claude[i].id.as_str(), id) {
            removed = true;
        } else {
            kept.push(store.claude[i].copy());
        }
        proof {
            assert(kept@.map_values(|a: ClaudeAccount| a@) =~= without_id(
                old_v.subrange(0, i + 1),
                id@,
            ));
        }
        i = i + 1;
    }
    assert(old_v.subrange(0, old_v.len() as int) =~= old_v);
    store.claude = kept;
    removed
}


/// The string fields of one organization entry of a stored credentials file,
/// each present only when the file holds a string there.
#[derive(Clone, Debug)]
pub struct OrgRecord {
    pub uuid: Option<String>,
    pub name: Option<String>,
    pub plan: Option<String>,
}

/// The fields of one account entry of a stored credentials file: strings
/// present only when the file holds a string there, and `orgs` present only
/// when the file holds an array there. `org_id` and `org_name` are the
/// single-organization fields of the legacy schema (`orgId`, `orgName`).
#[derive(Clone, Debug)]
pub struct AccountRecord {
    pub id: Option<String>,
    pub session_key: Option<String>,
    pub cf_clearance: Option<String>,
    pub email: Option<String>,
    pub display_name: Option<String>,
    pub orgs: Option<Vec<OrgRecord>>,
    pub org_id: Option<String>,
    pub org_name: Option<String>,
}

/// The text of an optional string field, the empty text when absent.
pub open spec fn text_or_empty(o: Option<String>) -> Seq<char> {
    match o {
        Some(s) => s@,
        None => Seq::empty(),
    }
}

/// The organizations listed in a record: entries without a uuid are skipped,
/// a missing name becomes empty.
pub open spec fn orgs_of_list(list: Seq<OrgRecord>) -> Seq<OrgView>
    decreases list.len(),
{
    if list.len() == 0 {
        Seq::empty()
    } else {
        let rest = orgs_of_list(list.drop_last());
        let o = list.last();
        match o.uuid {
            Some(u) => rest.push(
                OrgView { uuid: u@, name: text_or_empty(o.name), plan: opt_view(o.plan) },
            ),
            None => rest,
        }
    }
}

/// The organizations of an account record: its `orgs` list when present,
/// else the legacy single organization when its id is non-empty.
pub open spec fn orgs_of_record(r: AccountRecord) -> Seq<OrgView> {
    match r.orgs {
        Some(list) => orgs_of_list(list@),
        None => {
            let uuid = text_or_empty(r.org_id);
            if uuid.len() == 0 {
                Seq::empty()
            } else {
                seq![OrgView { uuid, name: text_or_empty(r.org_name), plan: None }]
            }
        },
    }
}

/// The account a record with an identifier stands for.
pub open spec fn account_of_record(r: AccountRecord) -> AccountView {
    AccountView {
        id: r.id->0@,
        session_key: text_or_empty(r.session_key),
        cf_clearance: text_or_empty(r.cf_clearance),
        email: opt_view(r.email),
        display_name: opt_view(r.display_name),
        orgs: orgs_of_record(r),
    }
}

/// The accounts of a credentials file: records without an identifier are
/// skipped, the rest keep their order.
pub open spec fn store_of_records(records: Seq<AccountRecord>) -> Seq<AccountView>
    decreases records.len(),
{
    if records.len() == 0 {
        Seq::empty()
    } else {
        let rest = store_of_records(records.drop_last());
        if records.last().id is Some {
            rest.push(account_of_record(records.last()))
        } else {
            rest
        }
    }
}

/// Loading a credentials file keeps each entry with an identifier, in order,
/// and skips the others; a kept account takes every string field from its
/// entry: the identifier, the session key and the clearance cookie (empty
/// only when the entry has none), the e-mail and the display name (absent
/// only when the entry has none); without an `orgs` list, a non-empty legacy
/// `orgId` gives the one organization, named by `orgName`.
pub proof fn law_loaded_account_fields(records: Seq<AccountRecord>, r: AccountRecord)
    ensures
        r.id is None ==> store_of_records(records.push(r)) == store_of_records(records),
        r.id is Some ==> ({
            let before = store_of_records(records);
            let after = store_of_records(records.push(r));
            let a = after.last();
            &&& after.len() == before.len() + 1
            &&& after.drop_last() == before
            &&& a.id == r.id->0@
            &&& (r.session_key matches Some(k) ==> a.session_key == k@)
            &&& (r.session_key is None ==> a.session_key.len() == 0)
            &&& (r.cf_clearance matches Some(c) ==> a.cf_clearance == c@)
            &&& (r.cf_clearance is None ==> a.cf_clearance.len() == 0)
            &&& (r.email matches Some(e) ==> a.email == Some(e@))
            &&& (r.email is None ==> a.email is None)
            &&& (r.display_name matches Some(n) ==> a.display_name == Some(n@))
            &&& (r.display_name is None ==> a.display_name is None)
            &&& ((r.orgs is None && r.org_id is Some && r.org_id->0@.len() > 0) ==> a.orgs == seq![
                OrgView {
                    uuid: r.org_id->0@,
                    name: if r.org_name is Some {
                        r.org_name->0@
                    } else {
                        Seq::empty()
                    },
                    plan: None,
                },
            ])
            &&& ((r.orgs is None && (r.org_id is None || r.org_id->0@.len() == 0)) ==> a.orgs.len()
                == 0)
        }),
{
    assert(records.push(r).drop_last() =~= records);
}

fn text_of(o: &Option<String>) -> (r: String)
    ensures
        r@ == text_or_empty(*o),
{
    match o {
        Some(s) => s.clone(),
        None => String::new(),
    }
}

fn orgs_from_list(list: &Vec<OrgRecord>) -> (r: Vec<ClaudeOrg>)
    ensures
        r@.map_values(|o: ClaudeOrg| o@) == orgs_of_list(list@),
{
    let mut r: Vec<ClaudeOrg> = Vec::new();
    let mut i: usize = 0;
    while i < list.len()
        invariant
            i <= list@.len(),
            r@.map_values(|o: ClaudeOrg| o@) == orgs_of_list(list@.subrange(0, i as int)),
        decreases list@.len() - i,
    {
        proof {
            assert(list@.subrange(0, i + 1).drop_last() =~= list@.subrange(0, i as int));
        }
        let o = &list[i];
        match &o.uuid {
            Some(u) => {
                r.push(ClaudeOrg { uuid: u.clone(), name: text_of(&o.name), plan: clone_opt(&o.plan) });
            },
            None => {},
        }
        proof {
            assert(r@.map_values(|o: ClaudeOrg| o@) =~= orgs_of_list(list@.subrange(0, i + 1)));
        }
        i = i + 1;
    }
    assert(list@.subrange(0, list@.len() as int) =~= list@);
    r
}

fn orgs_from_record(rec: &AccountRecord) -> (r: Vec<ClaudeOrg>)
    ensures
        r@.map_values(|o: ClaudeOrg| o@) == orgs_of_record(*rec),
{
    match &rec.orgs {
        Some(list) => orgs_from_list(list),
        None => {
            let uuid = text_of(&rec.org_id);
            let mut r: Vec<ClaudeOrg> = Vec::new();
            if uuid.as_str().unicode_len() != 0 {
                r.push(ClaudeOrg { uuid, name: text_of(&rec.org_name), plan: None });
            }
            assert(r@.map_values(|o: ClaudeOrg| o@) =~= orgs_of_record(*rec));
            r
        },
    }
}

/// Builds the store from the entries of a credentials file, accepting both
/// the multi-organization schema and the legacy single-organization one:
/// entries without an identifier are skipped, missing session key and
/// clearance become empty, and a missing `orgs` list falls back to the legacy
/// `orgId`/`orgName` fields (no organization when the id is missing or empty).
pub fn store_from_records(records: &Vec<AccountRecord>) -> (store: CredentialsStore)
    ensures
        store@ == store_of_records(records@),
{
    let mut claude: Vec<ClaudeAccount> = Vec::new();
    let mut i: usize = 0;
    while i < records.len()
        invariant
            i <= records@.len(),
            claude@.map_values(|a: ClaudeAccount| a@) == store_of_records(records@.subrange(0, i as int)),
        decreases records@.len() - i,
    {
        proof {
            assert(records@.subrange(0, i + 1).drop_last() =~= records@.subrange(0, i as int));
        }
        let rec = &records[i];
        match &rec.id {
            Some(id) => {
                let a = ClaudeAccount {
                    id: id.clone(),
                    session_key: text_of(&rec.session_key),
                    cf_clearance: text_of(&rec.cf_clearance),
                    email: clone_opt(&rec.email),
                    display_name: clone_opt(&rec.display_name),
                    orgs: orgs_from_record(rec),
                };
                claude.push(a);
            },
            None => {},
        }
        proof {
            assert(claude@.map_values(|a: ClaudeAccount| a@) =~= store_of_records(
                records@.subrange(0, i + 1),
            ));
        }
        i = i + 1;
    }
    assert(records@.subrange(0, records@.len() as int) =~= records@);
    CredentialsStore { claude }
}

/// Copies identity and organizations of `acct` onto the first stored account
/// with the same identifier; returns whether there was one.
pub fn sync_identity(store: &mut CredentialsStore, acct: &ClaudeAccount) -> (found: bool)
    ensures
        found == first_with_id(old(store)@, acct@.id) is Some,
        final(store)@ == match first_with_id(old(store)@, acct@.id) {
            Some(i) => old(store)@.update(
                i,
                AccountView {
                    email: acct@.email,
                    display_name: acct@.display_name,
                    orgs: acct@.orgs,
                    ..old(store)@[i]
                },
            ),
            None => old(store)@,
        },
{
    let ghost old_v = store@;
    match find_account(&store.claude, acct.id.as_str()) {
        Some(i) => {
            let s = &store.claude[i];
            let updated = ClaudeAccount {
                id: s.id.clone(),
                session_key: s.session_key.clone(),
                cf_clearance: s.cf_clearance.clone(),
                email: clone_opt(&acct.email),
                display_name: clone_opt(&acct.display_name),
                orgs: copy_orgs(&acct.orgs),
            };
            store.claude.set(i, updated);
            assert(store@ =~= old_v.update(
                i as int,
                AccountView {
                    email: acct@.email,
                    display_name: acct@.display_name,
                    orgs: acct@.orgs,
                    ..old_v[i as int]
                },
            ));
            true
        },
        None => false,
    }
}

/// The three settings of the legacy env credentials file.
pub struct EnvCredentials {
    pub session_key: String,
    pub cf_clearance: String,
    pub org_id: String,
}

pub struct EnvView {
    pub session_key: Seq<char>,
    pub cf_clearance: Seq<char>,
    pub org_id: Seq<char>,
}

impl View for EnvCredentials {
    type V = EnvView;

    open spec fn view(&self) -> EnvView {
        EnvView {
            session_key: self.session_key@,
            cf_clearance: self.cf_clearance@,
            org_id: self.org_id@,
        }
    }
}

/// The settings after reading one line: the trimmed line is skipped when
/// empty or a `#` comment; otherwise, when it holds `=`, the trimmed text
/// before the first `=` names the setting and the trimmed text after it is
/// its value. Unknown names are ignored.
pub open spec fn apply_env_line(line: Seq<char>, st: EnvView) -> EnvView {
    let t = trim_spec(line);
    if t.len() == 0 || t[0] == '#' {
        st
    } else {
        match first_index_of(t, '=') {
            None => st,
            Some(j) => {
                let k = trim_spec(t.subrange(0, j));
                let v = trim_spec(t.subrange(j + 1, t.len() as int));
                if k == "SESSION_KEY"@ {
                    EnvView { session_key: v, ..st }
                } else if k == "CF_CLEARANCE"@ {
                    EnvView { cf_clearance: v, ..st }
                } else if k == "ORG_ID"@ {
                    EnvView { org_id: v, ..st }
                } else {
                    st
                }
            },
        }
    }
}

/// The settings after reading every `\n`-separated line of `text` in order.
pub open spec fn scan_env(text: Seq<char>, st: EnvView) -> EnvView
    decreases text.len(),
{
    match first_index_of(text, '\n') {
        None => apply_env_line(text, st),
        Some(i) => {
            if 0 <= i < text.len() {
                scan_env(text.subrange(i + 1, text.len() as int), apply_env_line(text.subrange(0, i), st))
            } else {
                st
            }
        },
    }
}

/// The settings of the legacy env credentials file (see `apply_env_line`), each empty
/// when not set; a later line overrides an earlier one.
pub open spec fn parse_env_spec(text: Seq<char>) -> EnvView {
    scan_env(text, EnvView { session_key: Seq::empty(), cf_clearance: Seq::empty(), org_id: Seq::empty() })
}

fn apply_line(line: &str, st: &mut EnvCredentials)
    ensures
        final(st)@ == apply_env_line(line@, old(st)@),
{
    let t = trim(line);
    let n = t.unicode_len();
    if n == 0 || t.get_char(0) == '#' {
        return;
    }
    match find_char(t, '=') {
        None => {},
        Some(j) => {
            let k = trim(t.substring_char(0, j));
            let v = trim(t.substring_char(j + 1, n));
            if str_eq(k, "SESSION_KEY") {
                st.session_key = owned(v);
            } else if str_eq(k, "CF_CLEARANCE") {
                st.cf_clearance = owned(v);
            } else if str_eq(k, "ORG_ID") {
                st.org_id = owned(v);
            }
        },
    }
}

/// Reads the settings of the legacy env credentials file (see `parse_env_spec`).
pub fn parse_claude_env(text: &str) -> (env: EnvCredentials)
    ensures
        env@ == parse_env_spec(text@),
{
    let mut st = EnvCredentials { session_key: String::new(), cf_clearance: String::new(), org_id: String::new() };
    let mut rest: &str = text;
    loop
        invariant
            parse_env_spec(text@) == scan_env(rest@, st@),
        decreases rest@.len(),
    {
        match find_char(rest, '\n') {
            None => {
                apply_line(rest, &mut st);
                return st;
            },
            Some(i) => {
                let n = rest.unicode_len();
                let line = rest.substring_char(0, i);
                let next = rest.substring_char(i + 1, n);
                apply_line(line, &mut st);
                rest = next;
            },
        }
    }
}

impl EnvCredentials {
    /// No setting holds any text.
    pub fn is_empty(&self) -> (r: bool)
        ensures
            r == (self@.session_key.len() == 0 && self@.cf_clearance.len() == 0
                && self@.org_id.len() == 0),
    {
        self.session_key.as_str().unicode_len() == 0 && self.cf_clearance.as_str().unicode_len() == 0
            && self.org_id.as_str().unicode_len() == 0
    }
}

/// The identifier given to a migrated account: `acct-` followed by the
/// decimal creation time in nanoseconds.
pub fn migrated_account_id(nanos: u128) -> (id: String)
    ensures
        id@ == "acct-"@ + decimal_spec(nanos as nat),
{
    let mut id = owned("acct-");
    let digits = decimal(nanos);
    id.append(digits.as_str());
    id
}

/// The account seeded from the legacy env credentials file: no identity yet, and
/// the file's organization id as a single unnamed organization when it is
/// non-empty.
pub fn account_from_env(env: EnvCredentials, id: String) -> (a: ClaudeAccount)
    ensures
        a@ == (AccountView {
            id: id@,
            session_key: env@.session_key,
            cf_clearance: env@.cf_clearance,
            email: None,
            display_name: None,
            orgs: if env@.org_id.len() == 0 {
                Seq::empty()
            } else {
                seq![OrgView { uuid: env@.org_id, name: Seq::empty(), plan: None }]
            },
        }),
{
    let ghost ev = env@;
    let mut orgs: Vec<ClaudeOrg> = Vec::new();
    if env.org_id.as_str().unicode_len() != 0 {
        orgs.push(ClaudeOrg { uuid: env.org_id, name: String::new(), plan: None });
    }
    let a = ClaudeAccount {
        id,
        session_key: env.session_key,
        cf_clearance: env.cf_clearance,
        email: None,
        display_name: None,
        orgs,
    };
    assert(a@.orgs =~= (if ev.org_id.len() == 0 {
        Seq::empty()
    } else {
        seq![OrgView { uuid: ev.org_id, name: Seq::empty(), plan: None }]
    }));
    a
}

/// After an upsert, the first account carrying the inserted account's
/// identifier is exactly that account, the number of accounts grows by at most
/// one, and every other position is unchanged.
pub proof fn law_upsert_then_find(accounts: Seq<AccountView>, account: AccountView)
    ensures
        ({
            let after = upsert_spec(accounts, account);
            &&& first_with_id(after, account.id) matches Some(j) && after[j] == account
            &&& accounts.len() <= after.len() <= accounts.len() + 1
            &&& forall|k: int|
                0 <= k < accounts.len() && accounts[k].id != account.id ==> after[k] == accounts[k]
        }),
{
    lemma_first_with_id(accounts, account.id);
    let after = upsert_spec(accounts, account);
    lemma_first_with_id(after, account.id);
    match first_with_id(accounts, account.id) {
        Some(i) => {
            assert(after[i].id == account.id);
        },
        None => {
            assert(after[accounts.len() as int].id == account.id);
        },
    }
}

/// After a removal no account carries the identifier, and the removal reports
/// `true` exactly when the number of accounts went down.
pub proof fn law_remove_clears_id(accounts: Seq<AccountView>, id: Seq<char>)
    ensures
        first_with_id(without_id(accounts, id), id) is None,
        (without_id(accounts, id).len() < accounts.len()) == exists|k: int|
            0 <= k < accounts.len() && accounts[k].id == id,
{
    lemma_without_id(accounts, id);
    lemma_first_with_id(without_id(accounts, id), id);
}

/// Removing an identifier after upserting an account with it leaves no
/// account with that identifier.
pub proof fn law_upsert_then_remove(accounts: Seq<AccountView>, account: AccountView)
    ensures
        first_with_id(without_id(upsert_spec(accounts, account), account.id), account.id) is None,
        without_id(upsert_spec(accounts, account), account.id).len() < upsert_spec(
            accounts,
            account,
        ).len(),
{
    law_upsert_then_find(accounts, account);
    let after = upsert_spec(accounts, account);
    law_remove_clears_id(after, account.id);
    lemma_first_with_id(after, account.id);
}

/// Saving the same account twice is the same as saving it once.
pub proof fn law_upsert_idempotent(accounts: Seq<AccountView>, account: AccountView)
    ensures
        upsert_spec(upsert_spec(accounts, account), account) == upsert_spec(accounts, account),
{
    lemma_first_with_id(accounts, account.id);
    let after = upsert_spec(accounts, account);
    match first_with_id(accounts, account.id) {
        Some(i) => {
            assert forall|k: int| 0 <= k < i implies after[k].id != account.id by {
                assert(after[k] == accounts[k]);
            }
            lemma_first_with_id_at(after, account.id, i);
            assert(after.update(i, account) =~= after);
        },
        None => {
            let n = accounts.len() as int;
            assert forall|k: int| 0 <= k < n implies after[k].id != account.id by {
                assert(after[k] == accounts[k]);
            }
            lemma_first_with_id_at(after, account.id, n);
            assert(after.update(n, account) =~= after);
        },
    }
}

/// Removing an identifier a second time changes nothing.
pub proof fn law_remove_idempotent(accounts: Seq<AccountView>, id: Seq<char>)
    ensures
        without_id(without_id(accounts, id), id) == without_id(accounts, id),
{
    lemma_without_id(accounts, id);
    let w = without_id(accounts, id);
    assert forall|k: int| 0 <= k < w.len() implies w[k].id != id by {
        assert((#[trigger] w[k]).id != id);
    }
    lemma_without_absent_id(w, id);
}

} // verus!
