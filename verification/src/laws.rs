//! Store-wide laws: identity idempotence, index/detail consistency, and
//! current-account clearing, stated over the store's functional
//! specifications and proved once for all inputs.
use vstd::prelude::*;

use crate::ident::ascii_eq;
use crate::ident::lemma_ascii_eq_sym;
use crate::ident::lemma_ascii_eq_trans;
use crate::models::AccountView;
use crate::models::SummaryView;
use crate::store::StoreView;
use crate::store::consistent;
use crate::store::has_id;
use crate::store::lemma_has_id_lookup;
use crate::store::lemma_lookup_idx_at;
use crate::store::lemma_lookup_idx_props;
use crate::store::lemma_put_record_props;
use crate::store::lemma_summary_match_props;
use crate::store::lemma_summary_match_at;
use crate::store::lemma_upsert_wf;
use crate::store::lookup;
use crate::store::lookup_idx;
use crate::store::put_record;
use crate::store::spec_get_current;
use crate::store::spec_list;
use crate::store::spec_remove;
use crate::store::spec_upsert;
use crate::store::summary_match;
use crate::store::upserted_account;
use crate::store::wf_store;

verus! {

/// Storing a record makes it the one its id resolves to.
pub proof fn lemma_put_record_lookup(records: Seq<AccountView>, acc: AccountView)
    ensures
        lookup(put_record(records, acc), acc.id) == Some(acc),
{
    lemma_lookup_idx_props(records, acc.id);
    match lookup_idx(records, acc.id) {
        Some(i) => {
            let put = records.update(i, acc);
            assert forall|j: int| 0 <= j < i implies put[j].id != acc.id by {
                assert(put[j] == records[j]);
            }
            lemma_lookup_idx_at(put, acc.id, i);
        },
        None => {
            let put = records.push(acc);
            assert forall|j: int| 0 <= j < records.len() implies put[j].id != acc.id by {
                assert(put[j] == records[j]);
            }
            lemma_lookup_idx_at(put, acc.id, records.len() as int);
        },
    }
}

/// Idempotence of identity: upserting a username and then upserting it again
/// in any casing leaves exactly one matching account, carrying the most
/// recently supplied casing and credential.
pub proof fn lemma_upsert_identity_idempotent(
    s0: StoreView,
    u1: Seq<char>,
    t1: Seq<char>,
    e1: Option<Seq<char>>,
    p1: Option<Seq<char>>,
    m1: Option<i64>,
    n1: i64,
    u2: Seq<char>,
    t2: Seq<char>,
    e2: Option<Seq<char>>,
    p2: Option<Seq<char>>,
    m2: Option<i64>,
    n2: i64,
)
    requires
        wf_store(s0),
        ascii_eq(u1, u2),
    ensures
        ({
            let s1 = spec_upsert(s0, u1, t1, e1, p1, m1, n1);
            let s2 = spec_upsert(s1, u2, t2, e2, p2, m2, n2);
            &&& s2.index.accounts.len() == s1.index.accounts.len()
            &&& summary_match(s2.index.accounts, u2) matches Some(pos) && {
                &&& s2.index.accounts[pos].username == u2
                &&& forall|j: int|
                    0 <= j < s2.index.accounts.len() && j != pos ==> !ascii_eq(
                        (#[trigger] s2.index.accounts[j]).username,
                        u2,
                    )
                &&& lookup(s2.records, s2.index.accounts[pos].id) matches Some(acc) && {
                    &&& acc.username == u2
                    &&& acc.token == t2
                    &&& acc.last_used == n2
                }
            }
        }),
{
    let s1 = spec_upsert(s0, u1, t1, e1, p1, m1, n1);
    let s2 = spec_upsert(s1, u2, t2, e2, p2, m2, n2);
    let acc1 = upserted_account(s0, u1, t1, e1, p1, m1, n1);
    let accs0 = s0.index.accounts;
    let accs1 = s1.index.accounts;
    let accs2 = s2.index.accounts;
    lemma_upsert_wf(s0, u1, t1, e1, p1, m1, n1);
    lemma_upsert_wf(s1, u2, t2, e2, p2, m2, n2);
    lemma_summary_match_props(accs0, u1);
    lemma_put_record_props(s0.records, acc1);
    // after the first upsert there is a position q carrying exactly u1 and
    // the id of the stored record
    let q: int = (match summary_match(accs0, u1) {
        Some(pos) => pos,
        None => accs0.len() as int,
    });
    assert(0 <= q < accs1.len());
    assert(accs1[q].username == u1);
    assert(accs1[q].id == acc1.id);
    assert(has_id(s1.records, acc1.id));
    // the second upsert matches that very position
    lemma_summary_match_props(accs1, u2);
    match summary_match(accs1, u2) {
        Some(i2) => {
            if i2 != q {
                lemma_ascii_eq_sym(accs1[i2].username, u2);
                lemma_ascii_eq_trans(accs1[q].username, u2, accs1[i2].username);
                if q < i2 {
                    assert(!ascii_eq(accs1[q].username, accs1[i2].username));
                } else {
                    lemma_ascii_eq_sym(accs1[q].username, accs1[i2].username);
                    assert(!ascii_eq(accs1[i2].username, accs1[q].username));
                }
                assert(false);
            }
            let acc2 = upserted_account(s1, u2, t2, e2, p2, m2, n2);
            lemma_has_id_lookup(s1.records, accs1[i2].id);
            assert(lookup(s1.records, accs1[i2].id) is Some);
            assert(acc2.id == accs1[i2].id);
            assert(acc2.username == u2 && acc2.token == t2 && acc2.last_used == n2);
            assert(accs2 == accs1.update(
                i2,
                SummaryView {
                    id: accs1[i2].id,
                    username: u2,
                    created_at: accs1[i2].created_at,
                    last_used: n2,
                },
            ));
            assert(accs2[i2].username == u2);
            // it is the first match in the updated index as well
            assert forall|j: int| 0 <= j < i2 implies !ascii_eq(
                (#[trigger] accs2[j]).username,
                u2,
            ) by {
                assert(accs2[j] == accs1[j]);
            }
            lemma_summary_match_at(accs2, u2, i2);
            // and the only one
            assert forall|j: int| 0 <= j < accs2.len() && j != i2 implies !ascii_eq(
                (#[trigger] accs2[j]).username,
                u2,
            ) by {
                if j > i2 {
                    if ascii_eq(accs2[j].username, u2) {
                        lemma_ascii_eq_sym(accs2[j].username, u2);
                        assert(!ascii_eq(accs2[i2].username, accs2[j].username));
                        assert(false);
                    }
                }
            }
            // the record its id resolves to carries the new fields
            lemma_put_record_lookup(s1.records, acc2);
            assert(lookup(s2.records, accs2[i2].id) == Some(acc2));
        },
        None => {
            assert(ascii_eq(accs1[q].username, u2));
            assert(false);
        },
    }
}

/// Index/detail consistency: in a consistent store every id in the index has
/// a loadable detail record, so `list` returns exactly one account per index
/// entry.
pub proof fn lemma_list_len_consistent(s: StoreView)
    requires
        consistent(s),
    ensures
        spec_list(s.index.accounts, s.records).len() == s.index.accounts.len(),
{
    lemma_spec_list_len(s.index.accounts, s.records);
}

/// `spec_list` keeps one entry per resolvable summary.
proof fn lemma_spec_list_len(accs: Seq<SummaryView>, records: Seq<AccountView>)
    requires
        forall|i: int| 0 <= i < accs.len() ==> has_id(records, (#[trigger] accs[i]).id),
    ensures
        spec_list(accs, records).len() == accs.len(),
    decreases accs.len(),
{
    if accs.len() > 0 {
        lemma_has_id_lookup(records, accs[0].id);
        lemma_lookup_idx_props(records, accs[0].id);
        assert forall|i: int| 0 <= i < accs.skip(1).len() implies has_id(
            records,
            (#[trigger] accs.skip(1)[i]).id,
        ) by {
            assert(accs.skip(1)[i] == accs[i + 1]);
        }
        lemma_spec_list_len(accs.skip(1), records);
    }
}

/// How many index entries resolve to a detail record.
pub open spec fn resolvable_count(accs: Seq<SummaryView>, records: Seq<AccountView>) -> int
    decreases accs.len(),
{
    if accs.len() == 0 {
        0
    } else {
        (if has_id(records, accs[0].id) {
            1int
        } else {
            0int
        }) + resolvable_count(accs.skip(1), records)
    }
}

/// `list` returns exactly one account per index entry whose detail record is
/// present: its length is the index length minus the entries whose record is
/// missing.
pub proof fn lemma_list_len_resolvable(accs: Seq<SummaryView>, records: Seq<AccountView>)
    ensures
        spec_list(accs, records).len() == resolvable_count(accs, records),
    decreases accs.len(),
{
    if accs.len() > 0 {
        lemma_has_id_lookup(records, accs[0].id);
        lemma_list_len_resolvable(accs.skip(1), records);
    }
}

/// `list` never returns more accounts than the index holds, consistent or
/// not.
pub proof fn lemma_list_len_bound(accs: Seq<SummaryView>, records: Seq<AccountView>)
    ensures
        spec_list(accs, records).len() <= accs.len(),
    decreases accs.len(),
{
    if accs.len() > 0 {
        lemma_list_len_bound(accs.skip(1), records);
    }
}

/// Current-account clearing: removing the account the current pointer names
/// leaves the pointer unset, and the current account absent.
pub proof fn lemma_remove_clears_current(s: StoreView, id: Seq<char>)
    requires
        s.index.current_account_id == Some(id),
    ensures
        spec_remove(s, id).index.current_account_id is None,
        spec_get_current(spec_remove(s, id)) is None,
{
}

} // verus!
