//! The data model: accounts, quota snapshots, the account index and its
//! summaries, together with their mathematical views.
use vstd::prelude::*;

verus! {

/// A point-in-time usage snapshot attached to an account.
pub struct CopilotQuota {
    pub used_requests: i64,
    pub included_requests: Option<i64>,
    pub remaining_requests: Option<i64>,
    pub usage_items_count: usize,
    pub copilot_plan: Option<String>,
    pub quota_reset_date: Option<String>,
    /// The provider's payload retained verbatim for diagnostics.
    pub raw_data: Option<String>,
}

/// The mathematical view of a quota snapshot.
pub ghost struct QuotaView {
    pub used_requests: i64,
    pub included_requests: Option<i64>,
    pub remaining_requests: Option<i64>,
    pub usage_items_count: usize,
    pub copilot_plan: Option<Seq<char>>,
    pub quota_reset_date: Option<Seq<char>>,
    pub raw_data: Option<Seq<char>>,
}

impl View for CopilotQuota {
    type V = QuotaView;

    open spec fn view(&self) -> QuotaView {
        QuotaView {
            used_requests: self.used_requests,
            included_requests: self.included_requests,
            remaining_requests: self.remaining_requests,
            usage_items_count: self.usage_items_count,
            copilot_plan: self.copilot_plan.deep_view(),
            quota_reset_date: self.quota_reset_date.deep_view(),
            raw_data: self.raw_data.deep_view(),
        }
    }
}

impl DeepView for CopilotQuota {
    type V = QuotaView;

    open spec fn deep_view(&self) -> QuotaView {
        self.view()
    }
}

impl Clone for CopilotQuota {
    fn clone(&self) -> (r: Self)
        ensures
            r@ == self@,
    {
        CopilotQuota {
            used_requests: self.used_requests,
            included_requests: self.included_requests,
            remaining_requests: self.remaining_requests,
            usage_items_count: self.usage_items_count,
            copilot_plan: self.copilot_plan.clone(),
            quota_reset_date: self.quota_reset_date.clone(),
            raw_data: self.raw_data.clone(),
        }
    }
}

/// One authenticated identity with its credential and quota snapshot.
pub struct CopilotAccount {
    pub id: String,
    pub username: String,
    pub email: Option<String>,
    pub plan: Option<String>,
    pub monthly_included_requests: Option<i64>,
    pub token: String,
    pub quota: Option<CopilotQuota>,
    pub tags: Option<Vec<String>>,
    pub created_at: i64,
    pub last_used: i64,
}

/// The mathematical view of an account record.
pub ghost struct AccountView {
    pub id: Seq<char>,
    pub username: Seq<char>,
    pub email: Option<Seq<char>>,
    pub plan: Option<Seq<char>>,
    pub monthly_included_requests: Option<i64>,
    pub token: Seq<char>,
    pub quota: Option<QuotaView>,
    pub tags: Option<Seq<Seq<char>>>,
    pub created_at: i64,
    pub last_used: i64,
}

impl View for CopilotAccount {
    type V = AccountView;

    open spec fn view(&self) -> AccountView {
        AccountView {
            id: self.id@,
            username: self.username@,
            email: self.email.deep_view(),
            plan: self.plan.deep_view(),
            monthly_included_requests: self.monthly_included_requests,
            token: self.token@,
            quota: self.quota.deep_view(),
            tags: self.tags.deep_view(),
            created_at: self.created_at,
            last_used: self.last_used,
        }
    }
}

impl DeepView for CopilotAccount {
    type V = AccountView;

    open spec fn deep_view(&self) -> AccountView {
        self.view()
    }
}

/// The lightweight index-only projection of an account.
pub struct CopilotAccountSummary {
    pub id: String,
    pub username: String,
    pub created_at: i64,
    pub last_used: i64,
}

/// The mathematical view of an index summary.
pub ghost struct SummaryView {
    pub id: Seq<char>,
    pub username: Seq<char>,
    pub created_at: i64,
    pub last_used: i64,
}

impl View for CopilotAccountSummary {
    type V = SummaryView;

    open spec fn view(&self) -> SummaryView {
        SummaryView {
            id: self.id@,
            username: self.username@,
            created_at: self.created_at,
            last_used: self.last_used,
        }
    }
}

impl DeepView for CopilotAccountSummary {
    type V = SummaryView;

    open spec fn deep_view(&self) -> SummaryView {
        self.view()
    }
}

impl Clone for CopilotAccountSummary {
    fn clone(&self) -> (r: Self)
        ensures
            r@ == self@,
    {
        CopilotAccountSummary {
            id: self.id.clone(),
            username: self.username.clone(),
            created_at: self.created_at,
            last_used: self.last_used,
        }
    }
}

/// The directory of all accounts: the ordered summaries and the pointer to
/// the current account.
pub struct CopilotAccountIndex {
    pub version: String,
    pub accounts: Vec<CopilotAccountSummary>,
    pub current_account_id: Option<String>,
}

/// The mathematical view of the account index.
pub ghost struct IndexView {
    pub version: Seq<char>,
    pub accounts: Seq<SummaryView>,
    pub current_account_id: Option<Seq<char>>,
}

impl View for CopilotAccountIndex {
    type V = IndexView;

    open spec fn view(&self) -> IndexView {
        IndexView {
            version: self.version@,
            accounts: self.accounts.deep_view(),
            current_account_id: self.current_account_id.deep_view(),
        }
    }
}

impl CopilotAccountIndex {
    /// An empty index at the current format version, with no current account.
    pub fn new() -> (r: Self)
        ensures
            r@.version == "1.0"@,
            r@.accounts =~= Seq::<SummaryView>::empty(),
            r@.current_account_id is None,
    {
        CopilotAccountIndex {
            version: String::from_str("1.0"),
            accounts: Vec::new(),
            current_account_id: None,
        }
    }
}

impl Default for CopilotAccountIndex {
    fn default() -> (r: Self)
        ensures
            r@.version == "1.0"@,
            r@.accounts =~= Seq::<SummaryView>::empty(),
            r@.current_account_id is None,
    {
        CopilotAccountIndex::new()
    }
}

impl CopilotAccount {
    /// A fresh account: no quota, no tags, both timestamps set to `now`.
    pub fn new(
        id: String,
        username: String,
        token: String,
        email: Option<String>,
        plan: Option<String>,
        monthly_included_requests: Option<i64>,
        now: i64,
    ) -> (r: Self)
        ensures
            r@ == (AccountView {
                id: id@,
                username: username@,
                email: email.deep_view(),
                plan: plan.deep_view(),
                monthly_included_requests,
                token: token@,
                quota: None,
                tags: None,
                created_at: now,
                last_used: now,
            }),
    {
        CopilotAccount {
            id,
            username,
            email,
            plan,
            monthly_included_requests,
            token,
            quota: None,
            tags: None,
            created_at: now,
            last_used: now,
        }
    }

    /// Bumps the last-used timestamp and touches nothing else.
    pub fn update_last_used(&mut self, now: i64)
        ensures
            final(self)@ == (AccountView { last_used: now, ..old(self)@ }),
    {
        self.last_used = now;
    }
}

/// Clones a vector of strings, preserving the sequence of views.
pub fn clone_string_vec(v: &Vec<String>) -> (r: Vec<String>)
    ensures
        r.deep_view() == v.deep_view(),
{
    let mut out: Vec<String> = Vec::new();
    let n = v.len();
    let mut i: usize = 0;
    while i < n
        invariant
            n == v.len(),
            i <= n,
            out.deep_view() =~= v.deep_view().take(i as int),
        decreases n - i,
    {
        let ghost pre = out.deep_view();
        out.push(v[i].clone());
        proof {
            assert(out.deep_view() =~= pre.push(v.deep_view()[i as int]));
            assert(v.deep_view().take(i + 1) =~= v.deep_view().take(i as int).push(
                v.deep_view()[i as int],
            ));
        }
        i = i + 1;
    }
    proof {
        assert(out.deep_view() =~= v.deep_view());
    }
    out
}

/// Clones an account, preserving its view.
pub fn clone_account(a: &CopilotAccount) -> (r: CopilotAccount)
    ensures
        r@ == a@,
{
    let tags = (match &a.tags {
        Some(v) => Some(clone_string_vec(v)),
        None => None,
    });
    let r = CopilotAccount {
        id: a.id.clone(),
        username: a.username.clone(),
        email: a.email.clone(),
        plan: a.plan.clone(),
        monthly_included_requests: a.monthly_included_requests,
        token: a.token.clone(),
        quota: (match &a.quota {
            Some(q) => Some(q.clone()),
            None => None,
        }),
        tags,
        created_at: a.created_at,
        last_used: a.last_used,
    };
    r
}

} // verus!
