//! The account store: the index of summaries, the detail records, identity
//! resolution on upsert, switching, removal and tag edits.
//!
//! The store is an explicit value holding the index and the detail records;
//! the caller loads it from and writes it back to durable storage. Entries in
//! the index whose detail record is missing model orphaned index rows: `list`
//! skips them and `upsert` recreates the record.
use vstd::prelude::*;

use crate::errors::StoreError;
use crate::ident::account_id_for;
use crate::ident::ascii_eq;
use crate::ident::eq_ignore_ascii_case;
use crate::ident::spec_account_id;
use crate::ident::str_eq;
use crate::models::AccountView;
use crate::models::CopilotAccount;
use crate::models::CopilotAccountIndex;
use crate::models::CopilotAccountSummary;
use crate::models::CopilotQuota;
use crate::models::IndexView;
use crate::models::QuotaView;
use crate::models::SummaryView;
use crate::models::clone_account;

verus! {

/// The whole store: the directory of summaries plus one detail record per
/// account.
pub struct CopilotStore {
    pub index: CopilotAccountIndex,
    pub records: Vec<CopilotAccount>,
}

/// The mathematical view of the store.
#[verifier::ext_equal]
pub ghost struct StoreView {
    pub index: IndexView,
    pub records: Seq<AccountView>,
}

impl View for CopilotStore {
    type V = StoreView;

    open spec fn view(&self) -> StoreView {
        StoreView { index: self.index@, records: self.records.deep_view() }
    }
}

/// Relies on `std::time::SystemTime::now` and `duration_since` against the
/// Unix epoch: the wall clock as whole seconds, `Ok` at or after the epoch
/// and `Err` carrying the distance before it. Neither arm panics, and
/// nothing is promised of the value.
#[verifier::external_body]
fn clock_epoch_seconds() -> Result<u64, u64> {
    match std::time::SystemTime::now().duration_since(std::time::UNIX_EPOCH) {
        Ok(d) => Ok(d.as_secs()),
        Err(e) => Err(e.duration().as_secs()),
    }
}

/// The current time as epoch seconds: negative when the clock is set before
/// the epoch, saturating at the machine bounds. Nothing is promised of the
/// value.
pub fn now_timestamp() -> i64 {
    match clock_epoch_seconds() {
        Ok(s) => {
            if s > i64::MAX as u64 {
                i64::MAX
            } else {
                s as i64
            }
        },
        Err(s) => {
            if s >= i64::MAX as u64 {
                -i64::MAX
            } else {
                -(s as i64)
            }
        },
    }
}

// ---------------------------------------------------------------------------
// Spec-level lookups
// ---------------------------------------------------------------------------
/// The position of the first record carrying `id`, if any.
pub open spec fn lookup_idx(records: Seq<AccountView>, id: Seq<char>) -> Option<int>
    decreases records.len(),
{
    if records.len() == 0 {
        None
    } else if records[0].id == id {
        Some(0int)
    } else {
        match lookup_idx(records.skip(1), id) {
            Some(j) => Some(j + 1),
            None => None,
        }
    }
}

/// The first record carrying `id`, if any.
pub open spec fn lookup(records: Seq<AccountView>, id: Seq<char>) -> Option<AccountView> {
    match lookup_idx(records, id) {
        Some(i) => Some(records[i]),
        None => None,
    }
}

/// Some record carries `id`.
pub open spec fn has_id(records: Seq<AccountView>, id: Seq<char>) -> bool {
    exists|j: int| 0 <= j < records.len() && records[j].id == id
}

/// The position of the first summary whose username matches `username`
/// ASCII-case-insensitively, if any.
pub open spec fn summary_match(accs: Seq<SummaryView>, username: Seq<char>) -> Option<int>
    decreases accs.len(),
{
    if accs.len() == 0 {
        None
    } else if ascii_eq(accs[0].username, username) {
        Some(0int)
    } else {
        match summary_match(accs.skip(1), username) {
            Some(j) => Some(j + 1),
            None => None,
        }
    }
}

/// The summaries with every entry carrying `id` removed, order kept.
pub open spec fn without_id(accs: Seq<SummaryView>, id: Seq<char>) -> Seq<SummaryView>
    decreases accs.len(),
{
    if accs.len() == 0 {
        Seq::empty()
    } else if accs[0].id == id {
        without_id(accs.skip(1), id)
    } else {
        seq![accs[0]] + without_id(accs.skip(1), id)
    }
}

/// The records with `acc` stored: the first record carrying its id is
/// replaced, or `acc` is appended when none does.
pub open spec fn put_record(records: Seq<AccountView>, acc: AccountView) -> Seq<AccountView> {
    match lookup_idx(records, acc.id) {
        Some(i) => records.update(i, acc),
        None => records.push(acc),
    }
}

// ---------------------------------------------------------------------------
// Well-formedness and consistency
// ---------------------------------------------------------------------------
/// No two records carry the same id.
pub open spec fn ids_unique(records: Seq<AccountView>) -> bool {
    forall|i: int, j: int| 0 <= i < j < records.len() ==> records[i].id != records[j].id
}

/// No two summaries match each other's username case-insensitively.
pub open spec fn ci_unique(accs: Seq<SummaryView>) -> bool {
    forall|i: int, j: int|
        0 <= i < j < accs.len() ==> !ascii_eq(accs[i].username, accs[j].username)
}

/// The store's structural invariant.
pub open spec fn wf_store(s: StoreView) -> bool {
    ids_unique(s.records) && ci_unique(s.index.accounts)
}

/// Every id in the index resolves to a detail record.
pub open spec fn consistent(s: StoreView) -> bool {
    forall|i: int|
        0 <= i < s.index.accounts.len() ==> has_id(s.records, #[trigger] s.index.accounts[i].id)
}

/// The current-account pointer, when set, resolves to a detail record.
pub open spec fn current_resolvable(s: StoreView) -> bool {
    match s.index.current_account_id {
        Some(id) => has_id(s.records, id),
        None => true,
    }
}

// ---------------------------------------------------------------------------
// Lemmas about the spec-level lookups
// ---------------------------------------------------------------------------
/// `lookup_idx` returns the position of the first record carrying the id, or
/// `None` exactly when no record carries it.
pub proof fn lemma_lookup_idx_props(records: Seq<AccountView>, id: Seq<char>)
    ensures
        match lookup_idx(records, id) {
            Some(i) => 0 <= i < records.len() && records[i].id == id && (forall|j: int|
                0 <= j < i ==> records[j].id != id),
            None => forall|j: int| 0 <= j < records.len() ==> records[j].id != id,
        },
    decreases records.len(),
{
    if records.len() > 0 {
        if records[0].id == id {
        } else {
            lemma_lookup_idx_props(records.skip(1), id);
            assert forall|j: int| 1 <= j < records.len() implies records[j] == records.skip(1)[j
                - 1] by {}
        }
    }
}

/// The first matching position determines `lookup_idx`.
pub proof fn lemma_lookup_idx_at(records: Seq<AccountView>, id: Seq<char>, i: int)
    requires
        0 <= i < records.len(),
        records[i].id == id,
        forall|j: int| 0 <= j < i ==> records[j].id != id,
    ensures
        lookup_idx(records, id) == Some(i),
    decreases i,
{
    if records[0].id == id {
        assert(i == 0);
    } else {
        assert forall|j: int| 1 <= j < records.len() implies records[j] == records.skip(1)[j
            - 1] by {}
        lemma_lookup_idx_at(records.skip(1), id, i - 1);
    }
}

/// Presence of an id and success of `lookup_idx` coincide.
pub proof fn lemma_has_id_lookup(records: Seq<AccountView>, id: Seq<char>)
    ensures
        has_id(records, id) <==> lookup_idx(records, id) is Some,
{
    lemma_lookup_idx_props(records, id);
    if has_id(records, id) {
        if lookup_idx(records, id) is None {
            let j = choose|j: int| 0 <= j < records.len() && records[j].id == id;
            assert(false);
        }
    }
}

/// `summary_match` returns the first case-insensitive match, or `None`
/// exactly when no summary matches.
pub proof fn lemma_summary_match_props(accs: Seq<SummaryView>, username: Seq<char>)
    ensures
        match summary_match(accs, username) {
            Some(i) => 0 <= i < accs.len() && ascii_eq(accs[i].username, username) && (forall|
                j: int,
            | 0 <= j < i ==> !ascii_eq(accs[j].username, username)),
            None => forall|j: int| 0 <= j < accs.len() ==> !ascii_eq(accs[j].username, username),
        },
    decreases accs.len(),
{
    if accs.len() > 0 {
        if ascii_eq(accs[0].username, username) {
        } else {
            lemma_summary_match_props(accs.skip(1), username);
            assert forall|j: int| 1 <= j < accs.len() implies accs[j] == accs.skip(1)[j - 1] by {}
        }
    }
}

/// The first case-insensitively matching position determines
/// `summary_match`.
pub proof fn lemma_summary_match_at(accs: Seq<SummaryView>, username: Seq<char>, i: int)
    requires
        0 <= i < accs.len(),
        ascii_eq(accs[i].username, username),
        forall|j: int| 0 <= j < i ==> !ascii_eq(accs[j].username, username),
    ensures
        summary_match(accs, username) == Some(i),
    decreases i,
{
    if ascii_eq(accs[0].username, username) {
        assert(i == 0);
    } else {
        assert forall|j: int| 1 <= j < accs.len() implies accs[j] == accs.skip(1)[j - 1] by {}
        lemma_summary_match_at(accs.skip(1), username, i - 1);
    }
}

/// Storing a record keeps ids unique, makes the stored id present, and keeps
/// every other id exactly as present as before.
pub proof fn lemma_put_record_props(records: Seq<AccountView>, acc: AccountView)
    ensures
        ids_unique(records) ==> ids_unique(put_record(records, acc)),
        has_id(put_record(records, acc), acc.id),
        forall|id: Seq<char>| has_id(records, id) ==> has_id(put_record(records, acc), id),
{
    lemma_lookup_idx_props(records, acc.id);
    match lookup_idx(records, acc.id) {
        Some(i) => {
            let put = records.update(i, acc);
            assert(put[i].id == acc.id);
            assert forall|id: Seq<char>| has_id(records, id) implies has_id(put, id) by {
                let j = choose|j: int| 0 <= j < records.len() && records[j].id == id;
                if j == i {
                    assert(put[i].id == id);
                } else {
                    assert(put[j].id == id);
                }
            }
            if ids_unique(records) {
                assert forall|x: int, y: int| 0 <= x < y < put.len() implies put[x].id
                    != put[y].id by {
                    if x != i && y != i {
                        assert(put[x] == records[x] && put[y] == records[y]);
                    } else if x == i {
                        assert(put[y] == records[y]);
                        assert(records[y].id != acc.id);
                    } else {
                        assert(put[x] == records[x]);
                        assert(records[x].id != acc.id);
                    }
                }
            }
        },
        None => {
            let put = records.push(acc);
            assert(put[records.len() as int].id == acc.id);
            assert forall|id: Seq<char>| has_id(records, id) implies has_id(put, id) by {
                let j = choose|j: int| 0 <= j < records.len() && records[j].id == id;
                assert(put[j].id == id);
            }
        },
    }
}

/// Removing the entries carrying one id keeps exactly the other entries, in
/// order, and keeps case-insensitive uniqueness.
pub proof fn lemma_without_id_props(accs: Seq<SummaryView>, id: Seq<char>)
    ensures
        forall|k: int| 0 <= k < without_id(accs, id).len() ==> (#[trigger] without_id(accs, id)[k]).id
            != id,
        forall|k: int| 0 <= k < without_id(accs, id).len() ==> exists|j: int|
            0 <= j < accs.len() && accs[j] == #[trigger] without_id(accs, id)[k],
        ci_unique(accs) ==> ci_unique(without_id(accs, id)),
        without_id(accs, id).len() <= accs.len(),
    decreases accs.len(),
{
    if accs.len() > 0 {
        lemma_without_id_props(accs.skip(1), id);
        assert forall|j: int| 1 <= j < accs.len() implies accs[j] == accs.skip(1)[j - 1] by {}
        if accs[0].id == id {
        } else {
            let w = seq![accs[0]] + without_id(accs.skip(1), id);
            assert forall|k: int| 0 <= k < w.len() implies (#[trigger] w[k]).id != id && exists|
                j: int,
            | 0 <= j < accs.len() && accs[j] == w[k] by {
                if k == 0 {
                    assert(accs[0] == w[0]);
                } else {
                    assert(w[k] == without_id(accs.skip(1), id)[k - 1]);
                }
            }
            if ci_unique(accs) {
                assert(ci_unique(accs.skip(1)));
                assert forall|x: int, y: int| 0 <= x < y < w.len() implies !ascii_eq(
                    w[x].username,
                    w[y].username,
                ) by {
                    if x == 0 {
                        let j = choose|j: int|
                            0 <= j < accs.skip(1).len() && accs.skip(1)[j] == without_id(
                                accs.skip(1),
                                id,
                            )[y - 1];
                        assert(accs[j + 1] == w[y]);
                    } else {
                        assert(w[x] == without_id(accs.skip(1), id)[x - 1]);
                        assert(w[y] == without_id(accs.skip(1), id)[y - 1]);
                    }
                }
            }
        }
    }
}

// ---------------------------------------------------------------------------
// Exec-level lookups
// ---------------------------------------------------------------------------
/// Finds the position of the record carrying `id`.
pub fn find_record(records: &Vec<CopilotAccount>, id: &str) -> (r: Option<usize>)
    ensures
        match r {
            Some(i) => i < records.len() && lookup_idx(records.deep_view(), id@) == Some(i as int),
            None => lookup_idx(records.deep_view(), id@) is None,
        },
{
    let n = records.len();
    let mut i: usize = 0;
    while i < n
        invariant
            n == records.len(),
            i <= n,
            records.deep_view().len() == n,
            forall|j: int| 0 <= j < i ==> (#[trigger] records.deep_view()[j]).id != id@,
        decreases n - i,
    {
        proof {
            assert(records.deep_view()[i as int] == records@[i as int]@);
        }
        if str_eq(records[i].id.as_str(), id) {
            proof {
                lemma_lookup_idx_at(records.deep_view(), id@, i as int);
            }
            return Some(i);
        }
        i = i + 1;
    }
    proof {
        lemma_lookup_idx_props(records.deep_view(), id@);
    }
    None
}

/// Finds the position of the first summary matching `username`
/// case-insensitively.
pub fn find_summary(accs: &Vec<CopilotAccountSummary>, username: &str) -> (r: Option<usize>)
    ensures
        match r {
            Some(i) => i < accs.len() && summary_match(accs.deep_view(), username@) == Some(
                i as int,
            ),
            None => summary_match(accs.deep_view(), username@) is None,
        },
{
    let n = accs.len();
    let mut i: usize = 0;
    while i < n
        invariant
            n == accs.len(),
            i <= n,
            accs.deep_view().len() == n,
            forall|j: int| 0 <= j < i ==> !ascii_eq(
                (#[trigger] accs.deep_view()[j]).username,
                username@,
            ),
        decreases n - i,
    {
        proof {
            assert(accs.deep_view()[i as int] == accs@[i as int]@);
        }
        if eq_ignore_ascii_case(accs[i].username.as_str(), username) {
            proof {
                lemma_summary_match_at(accs.deep_view(), username@, i as int);
            }
            return Some(i);
        }
        i = i + 1;
    }
    proof {
        lemma_summary_match_props(accs.deep_view(), username@);
    }
    None
}

/// Replaces the summary at `i`.
fn set_summary_at(accs: &mut Vec<CopilotAccountSummary>, i: usize, s: CopilotAccountSummary)
    requires
        i < old(accs).len(),
    ensures
        final(accs).deep_view() == old(accs).deep_view().update(i as int, s@),
{
    let ghost pre = accs.deep_view();
    accs.remove(i);
    accs.insert(i, s);
    proof {
        assert(accs.deep_view() =~= pre.update(i as int, s@));
    }
}

/// Replaces the record at `i`.
fn set_record_at(records: &mut Vec<CopilotAccount>, i: usize, acc: CopilotAccount)
    requires
        i < old(records).len(),
    ensures
        final(records).deep_view() == old(records).deep_view().update(i as int, acc@),
{
    let ghost pre = records.deep_view();
    records.remove(i);
    records.insert(i, acc);
    proof {
        assert(records.deep_view() =~= pre.update(i as int, acc@));
    }
}

/// Stores `acc` among the records: replaces the record carrying its id, or
/// appends it.
fn store_record(records: &mut Vec<CopilotAccount>, acc: CopilotAccount)
    ensures
        final(records).deep_view() == put_record(old(records).deep_view(), acc@),
{
    let found = find_record(records, acc.id.as_str());
    match found {
        Some(i) => {
            set_record_at(records, i, acc);
        },
        None => {
            let ghost pre = records.deep_view();
            records.push(acc);
            proof {
                assert(records.deep_view() =~= pre.push(acc@));
            }
        },
    }
}

// ---------------------------------------------------------------------------
// Upsert
// ---------------------------------------------------------------------------
/// The account that an upsert stores and returns: the case-insensitively
/// matched account with credential fields replaced and `last_used` bumped, a
/// recreated record when the matched summary's record is missing, or a fresh
/// account under the derived id.
pub open spec fn upserted_account(
    s: StoreView,
    username: Seq<char>,
    token: Seq<char>,
    email: Option<Seq<char>>,
    plan: Option<Seq<char>>,
    inc: Option<i64>,
    now: i64,
) -> AccountView {
    match summary_match(s.index.accounts, username) {
        Some(pos) => {
            let sid = s.index.accounts[pos].id;
            match lookup(s.records, sid) {
                Some(prev) => AccountView {
                    id: sid,
                    username,
                    email,
                    plan,
                    monthly_included_requests: inc,
                    token,
                    quota: prev.quota,
                    tags: prev.tags,
                    created_at: prev.created_at,
                    last_used: now,
                },
                None => AccountView {
                    id: sid,
                    username,
                    email,
                    plan,
                    monthly_included_requests: inc,
                    token,
                    quota: None,
                    tags: None,
                    created_at: now,
                    last_used: now,
                },
            }
        },
        None => AccountView {
            id: spec_account_id(username),
            username,
            email,
            plan,
            monthly_included_requests: inc,
            token,
            quota: None,
            tags: None,
            created_at: now,
            last_used: now,
        },
    }
}

/// The index summaries after an upsert: the matched summary takes the new
/// username casing and `last_used`, or a fresh summary is appended.
pub open spec fn upserted_index(
    accs: Seq<SummaryView>,
    username: Seq<char>,
    acc: AccountView,
    now: i64,
) -> Seq<SummaryView> {
    match summary_match(accs, username) {
        Some(pos) => accs.update(
            pos,
            SummaryView {
                id: accs[pos].id,
                username,
                created_at: accs[pos].created_at,
                last_used: now,
            },
        ),
        None => accs.push(SummaryView { id: acc.id, username, created_at: now, last_used: now }),
    }
}

/// The whole store after an upsert.
pub open spec fn spec_upsert(
    s: StoreView,
    username: Seq<char>,
    token: Seq<char>,
    email: Option<Seq<char>>,
    plan: Option<Seq<char>>,
    inc: Option<i64>,
    now: i64,
) -> StoreView {
    let acc = upserted_account(s, username, token, email, plan, inc, now);
    StoreView {
        index: IndexView {
            version: s.index.version,
            accounts: upserted_index(s.index.accounts, username, acc, now),
            current_account_id: s.index.current_account_id,
        },
        records: put_record(s.records, acc),
    }
}

/// An upsert keeps the store well formed.
pub proof fn lemma_upsert_wf(
    s: StoreView,
    u: Seq<char>,
    t: Seq<char>,
    e: Option<Seq<char>>,
    p: Option<Seq<char>>,
    m: Option<i64>,
    now: i64,
)
    requires
        wf_store(s),
    ensures
        wf_store(spec_upsert(s, u, t, e, p, m, now)),
{
    let acc = upserted_account(s, u, t, e, p, m, now);
    let accs0 = s.index.accounts;
    let new_accs = upserted_index(accs0, u, acc, now);
    lemma_summary_match_props(accs0, u);
    lemma_put_record_props(s.records, acc);
    assert forall|x: int, y: int| 0 <= x < y < new_accs.len() implies !ascii_eq(
        new_accs[x].username,
        new_accs[y].username,
    ) by {
        match summary_match(accs0, u) {
            Some(pos) => {
                if ascii_eq(new_accs[x].username, new_accs[y].username) {
                    if x == pos && y != pos {
                        crate::ident::lemma_ascii_eq_trans(accs0[pos].username, u, accs0[y].username);
                        assert(false);
                    } else if y == pos && x != pos {
                        crate::ident::lemma_ascii_eq_sym(accs0[pos].username, u);
                        crate::ident::lemma_ascii_eq_trans(accs0[x].username, u, accs0[pos].username);
                        assert(false);
                    } else {
                        assert(false);
                    }
                }
            },
            None => {
                let last = new_accs.len() - 1;
                if ascii_eq(new_accs[x].username, new_accs[y].username) {
                    if y == last {
                        assert(ascii_eq(accs0[x].username, u));
                        assert(false);
                    } else {
                        assert(false);
                    }
                }
            },
        }
    }
}

/// Creates or updates the account for `username`, resolving identity
/// case-insensitively, with `now` as the timestamp. The detail record is
/// stored and the index summary is created or refreshed.
pub fn upsert_account_at(
    store: &mut CopilotStore,
    username: &str,
    token: String,
    email: Option<String>,
    plan: Option<String>,
    monthly_included_requests: Option<i64>,
    now: i64,
) -> (r: CopilotAccount)
    requires
        wf_store(old(store)@),
    ensures
        wf_store(final(store)@),
        r@ == upserted_account(
            old(store)@,
            username@,
            token@,
            email.deep_view(),
            plan.deep_view(),
            monthly_included_requests,
            now,
        ),
        final(store)@ == spec_upsert(
            old(store)@,
            username@,
            token@,
            email.deep_view(),
            plan.deep_view(),
            monthly_included_requests,
            now,
        ),
        consistent(old(store)@) ==> consistent(final(store)@),
        current_resolvable(old(store)@) ==> current_resolvable(final(store)@),
{
    let ghost s0 = store@;
    let ghost tokv = token@;
    let ghost emailv = email.deep_view();
    let ghost planv = plan.deep_view();
    let matched = find_summary(&store.index.accounts, username);
    let acc: CopilotAccount = match matched {
        Some(pos) => {
            proof {
                assert(store.index.accounts.deep_view()[pos as int] == store.index.accounts@[pos
                    as int]@);
            }
            let existing_id = store.index.accounts[pos].id.clone();
            let created = store.index.accounts[pos].created_at;
            let found = find_record(&store.records, existing_id.as_str());
            let acc = (match found {
                Some(ri) => {
                    proof {
                        assert(store.records.deep_view()[ri as int] == store.records@[ri as int]@);
                        lemma_lookup_idx_props(s0.records, existing_id@);
                    }
                    let mut a = clone_account(&store.records[ri]);
                    a.username = username.to_owned();
                    a.token = token;
                    a.email = email;
                    a.plan = plan;
                    a.monthly_included_requests = monthly_included_requests;
                    a.last_used = now;
                    proof {
                        assert(a@ == upserted_account(
                            s0,
                            username@,
                            tokv,
                            emailv,
                            planv,
                            monthly_included_requests,
                            now,
                        ));
                    }
                    a
                },
                None => {
                    let a = CopilotAccount::new(
                        existing_id.clone(),
                        username.to_owned(),
                        token,
                        email,
                        plan,
                        monthly_included_requests,
                        now,
                    );
                    proof {
                        assert(a@ == upserted_account(
                            s0,
                            username@,
                            tokv,
                            emailv,
                            planv,
                            monthly_included_requests,
                            now,
                        ));
                    }
                    a
                },
            });
            let new_sum = CopilotAccountSummary {
                id: existing_id,
                username: username.to_owned(),
                created_at: created,
                last_used: now,
            };
            set_summary_at(&mut store.index.accounts, pos, new_sum);
            acc
        },
        None => {
            let id = account_id_for(username);
            let acc = CopilotAccount::new(
                id.clone(),
                username.to_owned(),
                token,
                email,
                plan,
                monthly_included_requests,
                now,
            );
            proof {
                assert(acc@ == upserted_account(
                    s0,
                    username@,
                    tokv,
                    emailv,
                    planv,
                    monthly_included_requests,
                    now,
                ));
            }
            let new_sum = CopilotAccountSummary {
                id,
                username: username.to_owned(),
                created_at: now,
                last_used: now,
            };
            let ghost pre = store.index.accounts.deep_view();
            store.index.accounts.push(new_sum);
            proof {
                assert(store.index.accounts.deep_view() =~= pre.push(new_sum@));
            }
            acc
        },
    };
    let ghost accv = acc@;
    let r = clone_account(&acc);
    store_record(&mut store.records, acc);
    proof {
        let u = username@;
        assert(accv == upserted_account(
            s0,
            u,
            tokv,
            emailv,
            planv,
            monthly_included_requests,
            now,
        ));
        assert(store@.index.accounts =~= upserted_index(s0.index.accounts, u, accv, now));
        assert(store@ =~= spec_upsert(s0, u, tokv, emailv, planv, monthly_included_requests, now));
        lemma_put_record_props(s0.records, accv);
        lemma_summary_match_props(s0.index.accounts, u);
        lemma_upsert_wf(s0, u, tokv, emailv, planv, monthly_included_requests, now);
        let new_accs = store@.index.accounts;
        // consistency is preserved
        if consistent(s0) {
            assert forall|i: int| 0 <= i < new_accs.len() implies has_id(
                store@.records,
                #[trigger] new_accs[i].id,
            ) by {
                match summary_match(s0.index.accounts, u) {
                    Some(pos) => {
                        assert(new_accs[i].id == s0.index.accounts[i].id);
                        assert(has_id(s0.records, s0.index.accounts[i].id));
                    },
                    None => {
                        if i < new_accs.len() - 1 {
                            assert(new_accs[i].id == s0.index.accounts[i].id);
                            assert(has_id(s0.records, s0.index.accounts[i].id));
                        } else {
                            assert(new_accs[i].id == accv.id);
                        }
                    },
                }
            }
        }
        // the current pointer still resolves
        if current_resolvable(s0) {
            match s0.index.current_account_id {
                Some(cid) => {
                    assert(has_id(store@.records, cid));
                },
                None => {},
            }
        }
    }
    r
}

/// Creates or updates the account for `username` at the current time. The
/// drawn timestamp is readable off the returned account's `last_used`.
pub fn upsert_account(
    store: &mut CopilotStore,
    username: &str,
    token: String,
    email: Option<String>,
    plan: Option<String>,
    monthly_included_requests: Option<i64>,
) -> (r: CopilotAccount)
    requires
        wf_store(old(store)@),
    ensures
        wf_store(final(store)@),
        r@ == upserted_account(
            old(store)@,
            username@,
            token@,
            email.deep_view(),
            plan.deep_view(),
            monthly_included_requests,
            r@.last_used,
        ),
        final(store)@ == spec_upsert(
            old(store)@,
            username@,
            token@,
            email.deep_view(),
            plan.deep_view(),
            monthly_included_requests,
            r@.last_used,
        ),
        consistent(old(store)@) ==> consistent(final(store)@),
        current_resolvable(old(store)@) ==> current_resolvable(final(store)@),
{
    let now = now_timestamp();
    upsert_account_at(store, username, token, email, plan, monthly_included_requests, now)
}

// ---------------------------------------------------------------------------
// Record-update operations: switch, tags, quota write-back
// ---------------------------------------------------------------------------
/// Ids are read off positions, so two record sequences with pointwise equal
/// ids hold exactly the same ids.
pub proof fn lemma_same_ids_has(old_r: Seq<AccountView>, new_r: Seq<AccountView>)
    requires
        old_r.len() == new_r.len(),
        forall|k: int| 0 <= k < old_r.len() ==> old_r[k].id == new_r[k].id,
    ensures
        forall|id: Seq<char>| #[trigger] has_id(old_r, id) ==> has_id(new_r, id),
        ids_unique(old_r) ==> ids_unique(new_r),
{
    assert forall|id: Seq<char>| #[trigger] has_id(old_r, id) implies has_id(new_r, id) by {
        let j = choose|j: int| 0 <= j < old_r.len() && old_r[j].id == id;
        assert(new_r[j].id == id);
    }
}

/// The store after switching to `id`: the record's `last_used` is bumped and
/// the current pointer set; an unknown id leaves the store untouched.
pub open spec fn spec_switch(s: StoreView, id: Seq<char>, now: i64) -> StoreView {
    match lookup_idx(s.records, id) {
        Some(i) => StoreView {
            index: IndexView {
                version: s.index.version,
                accounts: s.index.accounts,
                current_account_id: Some(id),
            },
            records: s.records.update(i, AccountView { last_used: now, ..s.records[i] }),
        },
        None => s,
    }
}

/// Switches the current account to `account_id` with `now` as the timestamp.
/// The switched-to account's `last_used` is refreshed; the prior current
/// account is left untouched.
pub fn switch_account_at(store: &mut CopilotStore, account_id: &str, now: i64) -> (r: Result<
    CopilotAccount,
    StoreError,
>)
    requires
        wf_store(old(store)@),
    ensures
        wf_store(final(store)@),
        final(store)@ == spec_switch(old(store)@, account_id@, now),
        (match r {
            Ok(a) => lookup_idx(old(store)@.records, account_id@) is Some && (match lookup(
                old(store)@.records,
                account_id@,
            ) {
                Some(prev) => a@ == (AccountView { last_used: now, ..prev }),
                None => false,
            }),
            Err(e) => lookup_idx(old(store)@.records, account_id@) is None && (e matches
            StoreError::NotFound { id } && id@ == account_id@),
        }),
        r is Err ==> final(store)@ == old(store)@,
        r is Ok ==> current_resolvable(final(store)@),
        consistent(old(store)@) ==> consistent(final(store)@),
{
    let ghost s0 = store@;
    let found = find_record(&store.records, account_id);
    match found {
        Some(i) => {
            proof {
                assert(store.records.deep_view()[i as int] == store.records@[i as int]@);
            }
            let mut a = clone_account(&store.records[i]);
            a.last_used = now;
            let r = clone_account(&a);
            set_record_at(&mut store.records, i, a);
            store.index.current_account_id = Some(account_id.to_owned());
            proof {
                lemma_lookup_idx_props(s0.records, account_id@);
                assert(store@ =~= spec_switch(s0, account_id@, now));
                lemma_same_ids_has(s0.records, store@.records);
                assert(has_id(store@.records, account_id@)) by {
                    assert(store@.records[i as int].id == account_id@);
                }
            }
            Ok(r)
        },
        None => Err(StoreError::NotFound { id: account_id.to_owned() }),
    }
}

/// Switches the current account to `account_id` at the current time. The
/// drawn timestamp is readable off the returned account's `last_used`.
pub fn switch_account(store: &mut CopilotStore, account_id: &str) -> (r: Result<
    CopilotAccount,
    StoreError,
>)
    requires
        wf_store(old(store)@),
    ensures
        wf_store(final(store)@),
        (match r {
            Ok(a) => final(store)@ == spec_switch(old(store)@, account_id@, a@.last_used)
                && lookup_idx(old(store)@.records, account_id@) is Some && (match lookup(
                old(store)@.records,
                account_id@,
            ) {
                Some(prev) => a@ == (AccountView { last_used: a@.last_used, ..prev }),
                None => false,
            }),
            Err(e) => lookup_idx(old(store)@.records, account_id@) is None && (e matches
            StoreError::NotFound { id } && id@ == account_id@) && final(store)@ == old(store)@,
        }),
        r is Ok ==> current_resolvable(final(store)@),
        consistent(old(store)@) ==> consistent(final(store)@),
{
    let now = now_timestamp();
    switch_account_at(store, account_id, now)
}

/// The store after replacing the tag set of `id`; an unknown id leaves the
/// store untouched.
pub open spec fn spec_update_tags(s: StoreView, id: Seq<char>, tags: Seq<Seq<char>>) -> StoreView {
    match lookup_idx(s.records, id) {
        Some(i) => StoreView {
            index: s.index,
            records: s.records.update(i, AccountView { tags: Some(tags), ..s.records[i] }),
        },
        None => s,
    }
}

/// Fully replaces the tag set of `account_id` (not merged).
pub fn update_account_tags(store: &mut CopilotStore, account_id: &str, tags: Vec<String>) -> (r:
    Result<CopilotAccount, StoreError>)
    requires
        wf_store(old(store)@),
    ensures
        wf_store(final(store)@),
        final(store)@ == spec_update_tags(old(store)@, account_id@, tags.deep_view()),
        (match r {
            Ok(a) => lookup_idx(old(store)@.records, account_id@) is Some && (match lookup(
                old(store)@.records,
                account_id@,
            ) {
                Some(prev) => a@ == (AccountView { tags: Some(tags.deep_view()), ..prev }),
                None => false,
            }),
            Err(e) => lookup_idx(old(store)@.records, account_id@) is None && (e matches
            StoreError::NotFound { id } && id@ == account_id@),
        }),
        r is Err ==> final(store)@ == old(store)@,
        consistent(old(store)@) ==> consistent(final(store)@),
        current_resolvable(old(store)@) ==> current_resolvable(final(store)@),
{
    let ghost s0 = store@;
    let ghost tagsv = tags.deep_view();
    let found = find_record(&store.records, account_id);
    match found {
        Some(i) => {
            proof {
                assert(store.records.deep_view()[i as int] == store.records@[i as int]@);
            }
            let mut a = clone_account(&store.records[i]);
            a.tags = Some(tags);
            let r = clone_account(&a);
            set_record_at(&mut store.records, i, a);
            proof {
                lemma_lookup_idx_props(s0.records, account_id@);
                assert(store@ =~= spec_update_tags(s0, account_id@, tagsv));
                lemma_same_ids_has(s0.records, store@.records);
            }
            Ok(r)
        },
        None => Err(StoreError::NotFound { id: account_id.to_owned() }),
    }
}

/// The store after attaching a quota snapshot to `id`; an unknown id leaves
/// the store untouched.
pub open spec fn spec_store_quota(s: StoreView, id: Seq<char>, q: QuotaView) -> StoreView {
    match lookup_idx(s.records, id) {
        Some(i) => StoreView {
            index: s.index,
            records: s.records.update(i, AccountView { quota: Some(q), ..s.records[i] }),
        },
        None => s,
    }
}

/// Attaches a fetched quota snapshot to the account's record.
pub fn store_account_quota(store: &mut CopilotStore, account_id: &str, quota: CopilotQuota) -> (r:
    Result<(), StoreError>)
    requires
        wf_store(old(store)@),
    ensures
        wf_store(final(store)@),
        final(store)@ == spec_store_quota(old(store)@, account_id@, quota@),
        (r is Ok) <==> lookup_idx(old(store)@.records, account_id@) is Some,
        (match r {
            Ok(u) => true,
            Err(e) => e matches StoreError::NotFound { id } && id@ == account_id@,
        }),
        r is Err ==> final(store)@ == old(store)@,
        consistent(old(store)@) ==> consistent(final(store)@),
        current_resolvable(old(store)@) ==> current_resolvable(final(store)@),
{
    let ghost s0 = store@;
    let ghost qv = quota@;
    let found = find_record(&store.records, account_id);
    match found {
        Some(i) => {
            proof {
                assert(store.records.deep_view()[i as int] == store.records@[i as int]@);
            }
            let mut a = clone_account(&store.records[i]);
            a.quota = Some(quota);
            set_record_at(&mut store.records, i, a);
            proof {
                lemma_lookup_idx_props(s0.records, account_id@);
                assert(store@ =~= spec_store_quota(s0, account_id@, qv));
                lemma_same_ids_has(s0.records, store@.records);
            }
            Ok(())
        },
        None => Err(StoreError::NotFound { id: account_id.to_owned() }),
    }
}

// ---------------------------------------------------------------------------
// Removal
// ---------------------------------------------------------------------------
/// The store after removing `id`: its summaries leave the index, the current
/// pointer is cleared when it matched, and the detail record is deleted.
pub open spec fn spec_remove(s: StoreView, id: Seq<char>) -> StoreView {
    StoreView {
        index: IndexView {
            version: s.index.version,
            accounts: without_id(s.index.accounts, id),
            current_account_id: (match s.index.current_account_id {
                Some(c) => if c == id {
                    None
                } else {
                    Some(c)
                },
                None => None,
            }),
        },
        records: (match lookup_idx(s.records, id) {
            Some(i) => s.records.remove(i),
            None => s.records,
        }),
    }
}

/// Drops every summary carrying `id`, keeping the others in order.
fn remove_summaries(accs: &mut Vec<CopilotAccountSummary>, id: &str)
    ensures
        final(accs).deep_view() == without_id(old(accs).deep_view(), id@),
{
    let ghost dv0 = accs.deep_view();
    let mut out: Vec<CopilotAccountSummary> = Vec::new();
    let n = accs.len();
    let mut i: usize = 0;
    proof {
        assert(dv0.skip(0) =~= dv0);
    }
    while i < n
        invariant
            n == accs.len(),
            i <= n,
            accs.deep_view() == dv0,
            without_id(dv0, id@) == out.deep_view() + without_id(dv0.skip(i as int), id@),
        decreases n - i,
    {
        proof {
            assert(accs.deep_view()[i as int] == accs@[i as int]@);
            assert(dv0.skip(i as int)[0] == dv0[i as int]);
            assert(dv0.skip(i as int).skip(1) =~= dv0.skip(i as int + 1));
        }
        let ghost pre = out.deep_view();
        if !str_eq(accs[i].id.as_str(), id) {
            out.push(accs[i].clone());
            proof {
                assert(out.deep_view() =~= pre.push(dv0[i as int]));
                assert(pre + (seq![dv0[i as int]] + without_id(dv0.skip(i as int + 1), id@))
                    =~= out.deep_view() + without_id(dv0.skip(i as int + 1), id@));
            }
        }
        i = i + 1;
    }
    proof {
        assert(without_id(dv0.skip(n as int), id@) =~= Seq::<SummaryView>::empty());
        assert(out.deep_view() + Seq::<SummaryView>::empty() =~= out.deep_view());
    }
    *accs = out;
}

/// Removes the account: index summary first, the current pointer when it
/// matched, then the detail record.
pub fn remove_account(store: &mut CopilotStore, account_id: &str)
    requires
        wf_store(old(store)@),
    ensures
        wf_store(final(store)@),
        final(store)@ == spec_remove(old(store)@, account_id@),
        consistent(old(store)@) ==> consistent(final(store)@),
        current_resolvable(old(store)@) ==> current_resolvable(final(store)@),
{
    let ghost s0 = store@;
    remove_summaries(&mut store.index.accounts, account_id);
    let clear = (match &store.index.current_account_id {
        Some(c) => str_eq(c.as_str(), account_id),
        None => false,
    });
    if clear {
        store.index.current_account_id = None;
    }
    let found = find_record(&store.records, account_id);
    let ghost mid_records = store.records.deep_view();
    match found {
        Some(i) => {
            let ghost pre = store.records.deep_view();
            store.records.remove(i);
            proof {
                assert(store.records.deep_view() =~= pre.remove(i as int));
            }
        },
        None => {},
    }
    proof {
        assert(store@ =~= spec_remove(s0, account_id@));
        lemma_without_id_props(s0.index.accounts, account_id@);
        lemma_lookup_idx_props(s0.records, account_id@);
        let new_r = store@.records;
        // unique record ids survive the removal
        match lookup_idx(s0.records, account_id@) {
            Some(ri) => {
                assert forall|x: int, y: int| 0 <= x < y < new_r.len() implies new_r[x].id
                    != new_r[y].id by {
                    let ox: int = if x < ri {
                        x
                    } else {
                        x + 1
                    };
                    let oy: int = if y < ri {
                        y
                    } else {
                        y + 1
                    };
                    assert(new_r[x] == s0.records[ox]);
                    assert(new_r[y] == s0.records[oy]);
                }
            },
            None => {},
        }
        // every surviving summary still resolves
        if consistent(s0) {
            let new_accs = store@.index.accounts;
            assert forall|k: int| 0 <= k < new_accs.len() implies has_id(
                new_r,
                #[trigger] new_accs[k].id,
            ) by {
                let j = choose|j: int|
                    0 <= j < s0.index.accounts.len() && s0.index.accounts[j] == new_accs[k];
                assert(has_id(s0.records, s0.index.accounts[j].id));
                let w = choose|w: int|
                    0 <= w < s0.records.len() && s0.records[w].id == s0.index.accounts[j].id;
                match lookup_idx(s0.records, account_id@) {
                    Some(ri) => {
                        assert(s0.records[ri].id == account_id@);
                        assert(new_accs[k].id != account_id@);
                        assert(w != ri);
                        let nw: int = if w < ri {
                            w
                        } else {
                            w - 1
                        };
                        assert(new_r[nw] == s0.records[w]);
                    },
                    None => {},
                }
            }
        }
        // the current pointer still resolves when it survives
        if current_resolvable(s0) {
            match store@.index.current_account_id {
                Some(c) => {
                    assert(c != account_id@);
                    assert(has_id(s0.records, c));
                    let w = choose|w: int| 0 <= w < s0.records.len() && s0.records[w].id == c;
                    match lookup_idx(s0.records, account_id@) {
                        Some(ri) => {
                            assert(w != ri);
                            let nw: int = if w < ri {
                                w
                            } else {
                                w - 1
                            };
                            assert(new_r[nw] == s0.records[w]);
                        },
                        None => {},
                    }
                },
                None => {},
            }
        }
    }
}

/// The store after removing each id in turn.
pub open spec fn spec_remove_many(s: StoreView, ids: Seq<Seq<char>>) -> StoreView
    decreases ids.len(),
{
    if ids.len() == 0 {
        s
    } else {
        spec_remove_many(spec_remove(s, ids[0]), ids.skip(1))
    }
}

/// Removing one more id removes it from the already-reduced store.
pub proof fn lemma_remove_many_push(s: StoreView, ids: Seq<Seq<char>>, x: Seq<char>)
    ensures
        spec_remove_many(s, ids.push(x)) == spec_remove(spec_remove_many(s, ids), x),
    decreases ids.len(),
{
    if ids.len() == 0 {
        assert(ids.push(x)[0] == x);
        assert(ids.push(x).skip(1) =~= Seq::<Seq<char>>::empty());
        assert(spec_remove_many(spec_remove(s, x), Seq::<Seq<char>>::empty()) == spec_remove(
            s,
            x,
        ));
        assert(spec_remove_many(s, ids.push(x)) == spec_remove(s, x));
        assert(spec_remove_many(s, ids) == s);
    } else {
        assert(ids.push(x)[0] == ids[0]);
        assert(ids.push(x).skip(1) =~= ids.skip(1).push(x));
        lemma_remove_many_push(spec_remove(s, ids[0]), ids.skip(1), x);
        assert(spec_remove_many(s, ids.push(x)) == spec_remove_many(
            spec_remove(s, ids[0]),
            ids.skip(1).push(x),
        ));
        assert(spec_remove_many(s, ids) == spec_remove_many(spec_remove(s, ids[0]), ids.skip(1)));
    }
}

/// Removes each listed account in turn.
pub fn remove_accounts(store: &mut CopilotStore, account_ids: &Vec<String>)
    requires
        wf_store(old(store)@),
    ensures
        wf_store(final(store)@),
        final(store)@ == spec_remove_many(old(store)@, account_ids.deep_view()),
        consistent(old(store)@) ==> consistent(final(store)@),
        current_resolvable(old(store)@) ==> current_resolvable(final(store)@),
{
    let ghost s0 = store@;
    let ghost idsv = account_ids.deep_view();
    let n = account_ids.len();
    let mut i: usize = 0;
    proof {
        assert(idsv.take(0) =~= Seq::<Seq<char>>::empty());
    }
    while i < n
        invariant
            n == account_ids.len(),
            idsv == account_ids.deep_view(),
            idsv.len() == n,
            i <= n,
            wf_store(store@),
            store@ == spec_remove_many(s0, idsv.take(i as int)),
            consistent(s0) ==> consistent(store@),
            current_resolvable(s0) ==> current_resolvable(store@),
        decreases n - i,
    {
        proof {
            assert(account_ids.deep_view()[i as int] == account_ids@[i as int]@);
        }
        remove_account(store, account_ids[i].as_str());
        proof {
            lemma_remove_many_push(s0, idsv.take(i as int), idsv[i as int]);
            assert(idsv.take(i as int).push(idsv[i as int]) =~= idsv.take(i as int + 1));
        }
        i = i + 1;
    }
    proof {
        assert(idsv.take(n as int) =~= idsv);
    }
}

// ---------------------------------------------------------------------------
// Listing and the current account
// ---------------------------------------------------------------------------
/// The accounts resolvable from the index, in index order; summaries whose
/// record is missing are skipped.
pub open spec fn spec_list(accs: Seq<SummaryView>, records: Seq<AccountView>) -> Seq<AccountView>
    decreases accs.len(),
{
    if accs.len() == 0 {
        Seq::empty()
    } else {
        match lookup(records, accs[0].id) {
            Some(a) => seq![a] + spec_list(accs.skip(1), records),
            None => spec_list(accs.skip(1), records),
        }
    }
}

/// Lists every account resolvable from the index, in index order.
pub fn list_accounts(store: &CopilotStore) -> (r: Vec<CopilotAccount>)
    ensures
        r.deep_view() == spec_list(store@.index.accounts, store@.records),
{
    let ghost accsv = store@.index.accounts;
    let ghost recsv = store@.records;
    let mut out: Vec<CopilotAccount> = Vec::new();
    let n = store.index.accounts.len();
    let mut i: usize = 0;
    proof {
        assert(accsv.skip(0) =~= accsv);
    }
    while i < n
        invariant
            n == store.index.accounts.len(),
            i <= n,
            accsv == store@.index.accounts,
            recsv == store@.records,
            spec_list(accsv, recsv) == out.deep_view() + spec_list(accsv.skip(i as int), recsv),
        decreases n - i,
    {
        proof {
            assert(store.index.accounts.deep_view()[i as int] == store.index.accounts@[i as int]@);
            assert(accsv.skip(i as int)[0] == accsv[i as int]);
            assert(accsv.skip(i as int).skip(1) =~= accsv.skip(i as int + 1));
        }
        let ghost pre = out.deep_view();
        let found = find_record(&store.records, store.index.accounts[i].id.as_str());
        match found {
            Some(ri) => {
                proof {
                    assert(store.records.deep_view()[ri as int] == store.records@[ri as int]@);
                }
                out.push(clone_account(&store.records[ri]));
                proof {
                    assert(out.deep_view() =~= pre.push(recsv[ri as int]));
                    assert(pre + (seq![recsv[ri as int]] + spec_list(
                        accsv.skip(i as int + 1),
                        recsv,
                    )) =~= out.deep_view() + spec_list(accsv.skip(i as int + 1), recsv));
                }
            },
            None => {},
        }
        i = i + 1;
    }
    proof {
        assert(spec_list(accsv.skip(n as int), recsv) =~= Seq::<AccountView>::empty());
        assert(out.deep_view() + Seq::<AccountView>::empty() =~= out.deep_view());
    }
    out
}

// ---------------------------------------------------------------------------
// Batch quota refresh
// ---------------------------------------------------------------------------
/// The store after applying a batch of fetch outcomes in order: each
/// successful fetch is attached to its account, each failed one changes
/// nothing.
pub open spec fn spec_apply_outcomes(
    s: StoreView,
    ids: Seq<Seq<char>>,
    outs: Seq<Result<CopilotQuota, StoreError>>,
) -> StoreView
    decreases ids.len(),
{
    if ids.len() == 0 {
        s
    } else {
        let s1 = (match outs[0] {
            Ok(q) => spec_store_quota(s, ids[0], q@),
            Err(_) => s,
        });
        spec_apply_outcomes(s1, ids.skip(1), outs.skip(1))
    }
}

/// Applying one more outcome applies it to the already-updated store.
pub proof fn lemma_apply_outcomes_push(
    s: StoreView,
    ids: Seq<Seq<char>>,
    outs: Seq<Result<CopilotQuota, StoreError>>,
    x: Seq<char>,
    o: Result<CopilotQuota, StoreError>,
)
    requires
        ids.len() == outs.len(),
    ensures
        spec_apply_outcomes(s, ids.push(x), outs.push(o)) == (match o {
            Ok(q) => spec_store_quota(spec_apply_outcomes(s, ids, outs), x, q@),
            Err(_) => spec_apply_outcomes(s, ids, outs),
        }),
    decreases ids.len(),
{
    if ids.len() == 0 {
        assert(ids.push(x)[0] == x);
        assert(outs.push(o)[0] == o);
        assert(ids.push(x).skip(1) =~= Seq::<Seq<char>>::empty());
        assert(outs.push(o).skip(1) =~= Seq::<Result<CopilotQuota, StoreError>>::empty());
        let s1 = (match o {
            Ok(q) => spec_store_quota(s, x, q@),
            Err(_) => s,
        });
        assert(spec_apply_outcomes(
            s1,
            Seq::<Seq<char>>::empty(),
            Seq::<Result<CopilotQuota, StoreError>>::empty(),
        ) == s1);
        assert(spec_apply_outcomes(s, ids.push(x), outs.push(o)) == s1);
        assert(spec_apply_outcomes(s, ids, outs) == s);
    } else {
        assert(ids.push(x)[0] == ids[0]);
        assert(outs.push(o)[0] == outs[0]);
        assert(ids.push(x).skip(1) =~= ids.skip(1).push(x));
        assert(outs.push(o).skip(1) =~= outs.skip(1).push(o));
        let s1 = (match outs[0] {
            Ok(q) => spec_store_quota(s, ids[0], q@),
            Err(_) => s,
        });
        lemma_apply_outcomes_push(s1, ids.skip(1), outs.skip(1), x, o);
        assert(spec_apply_outcomes(s, ids.push(x), outs.push(o)) == spec_apply_outcomes(
            s1,
            ids.skip(1).push(x),
            outs.skip(1).push(o),
        ));
        assert(spec_apply_outcomes(s, ids, outs) == spec_apply_outcomes(
            s1,
            ids.skip(1),
            outs.skip(1),
        ));
    }
}

/// Applies a batch of per-account fetch outcomes, isolating failures: every
/// account gets its own result, a failed fetch or an unknown id marks only
/// that entry failed, and the others are applied regardless.
pub fn apply_refresh_outcomes(
    store: &mut CopilotStore,
    ids: &Vec<String>,
    outcomes: Vec<Result<CopilotQuota, StoreError>>,
) -> (r: Vec<(String, Result<CopilotQuota, StoreError>)>)
    requires
        wf_store(old(store)@),
        ids@.len() == outcomes@.len(),
    ensures
        wf_store(final(store)@),
        final(store)@ == spec_apply_outcomes(old(store)@, ids.deep_view(), outcomes@),
        r@.len() == ids@.len(),
        forall|i: int| 0 <= i < r@.len() ==> (#[trigger] r@[i]).0@ == ids.deep_view()[i],
        forall|i: int|
            0 <= i < r@.len() ==> (((#[trigger] r@[i]).1 is Ok) <==> (outcomes@[i] is Ok && has_id(
                old(store)@.records,
                ids.deep_view()[i],
            ))),
        forall|i: int|
            0 <= i < r@.len() ==> ((#[trigger] r@[i]).1 matches Ok(q) ==> (outcomes@[i] matches
            Ok(oq) && q@ == oq@)),
        consistent(old(store)@) ==> consistent(final(store)@),
        current_resolvable(old(store)@) ==> current_resolvable(final(store)@),
{
    let ghost s0 = store@;
    let ghost idsv = ids.deep_view();
    let ghost outs0 = outcomes@;
    let mut rest = outcomes;
    let mut r: Vec<(String, Result<CopilotQuota, StoreError>)> = Vec::new();
    let n = ids.len();
    let mut i: usize = 0;
    proof {
        assert(idsv.take(0) =~= Seq::<Seq<char>>::empty());
        assert(outs0.take(0) =~= Seq::<Result<CopilotQuota, StoreError>>::empty());
        assert(outs0.skip(0) =~= outs0);
    }
    while i < n
        invariant
            n == ids.len(),
            idsv == ids.deep_view(),
            idsv.len() == n,
            outs0.len() == n,
            i <= n,
            rest@ == outs0.skip(i as int),
            wf_store(store@),
            store@ == spec_apply_outcomes(s0, idsv.take(i as int), outs0.take(i as int)),
            store@.records.len() == s0.records.len(),
            forall|k: int| 0 <= k < s0.records.len() ==> (#[trigger] store@.records[k]).id
                == s0.records[k].id,
            r@.len() == i,
            forall|j: int| 0 <= j < i ==> (#[trigger] r@[j]).0@ == idsv[j],
            forall|j: int|
                0 <= j < i ==> (((#[trigger] r@[j]).1 is Ok) <==> (outs0[j] is Ok && has_id(
                    s0.records,
                    idsv[j],
                ))),
            forall|j: int|
                0 <= j < i ==> ((#[trigger] r@[j]).1 matches Ok(q) ==> (outs0[j] matches Ok(oq)
                    && q@ == oq@)),
            consistent(s0) ==> consistent(store@),
            current_resolvable(s0) ==> current_resolvable(store@),
        decreases n - i,
    {
        proof {
            assert(ids.deep_view()[i as int] == ids@[i as int]@);
            assert(outs0.skip(i as int)[0] == outs0[i as int]);
            assert(outs0.skip(i as int).skip(1) =~= outs0.skip(i as int + 1));
        }
        let ghost s_before = store@;
        let outcome = rest.remove(0);
        let id_str = ids[i].clone();
        match outcome {
            Ok(q) => {
                let q2 = q.clone();
                let res = store_account_quota(store, id_str.as_str(), q2);
                proof {
                    lemma_has_id_lookup(s_before.records, idsv[i as int]);
                    lemma_has_id_lookup(s0.records, idsv[i as int]);
                    lemma_same_ids_has(s0.records, s_before.records);
                    lemma_same_ids_has(s_before.records, s0.records);
                }
                match res {
                    Ok(u) => r.push((id_str, Ok(q))),
                    Err(e) => r.push((id_str, Err(e))),
                }
            },
            Err(e) => {
                proof {
                    lemma_has_id_lookup(s0.records, idsv[i as int]);
                }
                r.push((id_str, Err(e)));
            },
        }
        proof {
            assert(store@.records.len() == s_before.records.len() && forall|k: int|
                0 <= k < s_before.records.len() ==> (#[trigger] store@.records[k]).id
                    == s_before.records[k].id) by {
                lemma_lookup_idx_props(s_before.records, idsv[i as int]);
            }
            lemma_apply_outcomes_push(
                s0,
                idsv.take(i as int),
                outs0.take(i as int),
                idsv[i as int],
                outs0[i as int],
            );
            assert(idsv.take(i as int).push(idsv[i as int]) =~= idsv.take(i as int + 1));
            assert(outs0.take(i as int).push(outs0[i as int]) =~= outs0.take(i as int + 1));
        }
        i = i + 1;
    }
    proof {
        assert(idsv.take(n as int) =~= idsv);
        assert(outs0.take(n as int) =~= outs0);
    }
    r
}

/// The account the current pointer resolves to, if any.
pub open spec fn spec_get_current(s: StoreView) -> Option<AccountView> {
    match s.index.current_account_id {
        Some(id) => lookup(s.records, id),
        None => None,
    }
}

/// The account referenced by the current pointer, or `None` when the pointer
/// is unset or does not resolve.
pub fn get_current_account(store: &CopilotStore) -> (r: Option<CopilotAccount>)
    ensures
        r.deep_view() == spec_get_current(store@),
{
    match &store.index.current_account_id {
        Some(id) => {
            let found = find_record(&store.records, id.as_str());
            match found {
                Some(i) => {
                    proof {
                        assert(store.records.deep_view()[i as int] == store.records@[i as int]@);
                    }
                    Some(clone_account(&store.records[i]))
                },
                None => None,
            }
        },
        None => None,
    }
}

} // verus!
