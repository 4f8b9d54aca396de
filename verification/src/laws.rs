//! The store's laws, each proved once and for all over the abstract state.
//!
//! Every operation's contract says its effect as a function of `StoreV`;
//! these lemmas state what follows for whole histories: round trips,
//! identity uniqueness, referential integrity, retrieval order and
//! completion idempotence.

use vstd::prelude::*;

use crate::codec::dec_of;
use crate::codec::lemma_dec_of_injective;
use crate::domain::ProjectV;
use crate::domain::SavedWithdrawalV;
use crate::domain::WithdrawalV;
use crate::errors::DaoError;
use crate::store::complete_model;
use crate::store::has_project;
use crate::store::inv;
use crate::store::insert_pos;
use crate::store::load_project_model;
use crate::store::load_withdrawals_model;
use crate::store::pid_of;
use crate::store::project_index;
use crate::store::save_project_model;
use crate::store::save_project_result;
use crate::store::save_withdrawal_model;
use crate::store::save_withdrawal_result;
use crate::store::sorted_desc;
use crate::store::wpid_pred;
use crate::store::StoreV;

verus! {

/// Law: a saved project is loaded back under its generated id exactly,
/// field for field — whatever the store already held.
pub proof fn lemma_save_load_round_trip(s: StoreV, p: ProjectV)
    requires
        inv(s),
        p.slots_ok(),
        s.next_project_id < u64::MAX,
    ensures
        save_project_result(s, p) == Ok::<u64, DaoError>(s.next_project_id),
        load_project_model(save_project_model(s, p), s.next_project_id) == Ok::<
            ProjectV,
            DaoError,
        >(p),
{
    let s2 = save_project_model(s, p);
    let id = s.next_project_id;
    let n = s.projects.len() as int;
    assert(s2.projects[n] == (id, p));
    assert(has_project(s2, id));
    let j = project_index(s2, id);
    assert(0 <= j < s2.projects.len() && (s2.projects[j]).0 == id);
    assert(j == n) by {
        if j < n {
            assert(s2.projects[j] == s.projects[j]);
            assert((s.projects[j]).0 < id);
        }
    }
}

/// Law: saving two projects, one after the other, yields distinct
/// generated ids.
pub proof fn lemma_identity_uniqueness(s: StoreV, p1: ProjectV, p2: ProjectV)
    requires
        p1.slots_ok(),
        p2.slots_ok(),
        s.next_project_id + 1 < u64::MAX,
    ensures
        save_project_result(s, p1) == Ok::<u64, DaoError>(s.next_project_id),
        save_project_result(save_project_model(s, p1), p2) == Ok::<u64, DaoError>(
            (s.next_project_id + 1) as u64,
        ),
        s.next_project_id != (s.next_project_id + 1) as u64,
{
}

/// Law: loading an id under which nothing is stored fails with `NotFound`,
/// never with a default or empty value.
pub proof fn lemma_load_not_found(s: StoreV, id: u64)
    requires
        !has_project(s, id),
    ensures
        load_project_model(s, id) == Err::<ProjectV, DaoError>(DaoError::NotFound),
{
}

/// Law: saving a withdrawal whose project does not exist fails with
/// `IntegrityError`, and the store — the withdrawal table included — is
/// unchanged.
pub proof fn lemma_referential_integrity(s: StoreV, w: WithdrawalV, pid: u64)
    requires
        w.project_id == dec_of(pid as nat),
        !has_project(s, pid),
    ensures
        save_withdrawal_result(s, w) == Err::<SavedWithdrawalV, DaoError>(
            DaoError::IntegrityError,
        ),
        save_withdrawal_model(s, w) == s,
{
    assert(pid_of(w) == Some(pid)) by {
        let n0 = choose|n: u64| w.project_id == dec_of(n as nat);
        lemma_dec_of_injective(n0 as nat, pid as nat);
    }
}

/// Every element of a filtered sequence occurs in the original.
proof fn lemma_filter_membership<A>(s: Seq<A>, pred: spec_fn(A) -> bool, k: int)
    requires
        0 <= k < s.filter(pred).len(),
    ensures
        exists|j: int| 0 <= j < s.len() && s[j] == s.filter(pred)[k],
    decreases s.len(),
{
    reveal(Seq::filter);
    if s.len() > 0 {
        let sub = s.drop_last().filter(pred);
        if k < sub.len() {
            lemma_filter_membership(s.drop_last(), pred, k);
            let j = choose|j: int|
                0 <= j < s.drop_last().len() && s.drop_last()[j] == s.drop_last().filter(pred)[k];
            assert(s[j] == s.filter(pred)[k]);
        } else {
            assert(s[s.len() - 1] == s.filter(pred)[k]);
        }
    }
}

/// Filtering keeps the newest-first order.
proof fn lemma_filter_sorted(ws: Seq<SavedWithdrawalV>, pred: spec_fn(SavedWithdrawalV) -> bool)
    requires
        sorted_desc(ws),
    ensures
        sorted_desc(ws.filter(pred)),
    decreases ws.len(),
{
    reveal(Seq::filter);
    if ws.len() > 0 {
        let prefix = ws.drop_last();
        assert(sorted_desc(prefix)) by {
            assert(forall|i: int, j: int|
                0 <= i <= j < prefix.len() ==> (#[trigger] prefix[i]) == ws[i] && (
                #[trigger] prefix[j]) == ws[j]);
        }
        lemma_filter_sorted(prefix, pred);
        let sub = prefix.filter(pred);
        if pred(ws.last()) {
            let f = ws.filter(pred);
            assert(f == sub.push(ws.last()));
            assert forall|i: int, j: int| 0 <= i <= j < f.len() implies (#[trigger] f[i]).date >= (
            #[trigger] f[j]).date by {
                if j < f.len() - 1 {
                    assert(f[i] == sub[i] && f[j] == sub[j]);
                } else if i < f.len() - 1 {
                    assert(f[i] == sub[i]);
                    lemma_filter_membership(prefix, pred, i);
                    let m = choose|m: int| 0 <= m < prefix.len() && prefix[m] == sub[i];
                    assert(ws[m] == sub[i]);
                    assert(ws[m].date >= ws[ws.len() - 1].date);
                }
            }
        }
    }
}

/// Law: when exactly three records with strictly decreasing timestamps
/// belong to one project — in whatever order they were inserted — loading
/// its withdrawals returns them newest first.
pub proof fn lemma_ordering(
    s: StoreV,
    project_id: u64,
    w1: SavedWithdrawalV,
    w2: SavedWithdrawalV,
    w3: SavedWithdrawalV,
)
    requires
        inv(s),
        load_withdrawals_model(s, project_id).to_multiset() =~= seq![w1, w2, w3].to_multiset(),
        w1.date > w2.date,
        w2.date > w3.date,
    ensures
        load_withdrawals_model(s, project_id) == seq![w1, w2, w3],
{
    let f = load_withdrawals_model(s, project_id);
    let ws = seq![w1, w2, w3];
    f.to_multiset_ensures();
    ws.to_multiset_ensures();
    assert(f.len() == 3);
    lemma_filter_sorted(s.withdrawals, wpid_pred(project_id));
    assert(sorted_desc(f));
    assert(ws.contains(w1) && ws.contains(w2) && ws.contains(w3)) by {
        assert(ws[0] == w1 && ws[1] == w2 && ws[2] == w3);
    }
    assert(ws.to_multiset().count(w1) > 0 && ws.to_multiset().count(w2) > 0 && ws.to_multiset()
        .count(w3) > 0);
    assert(f.to_multiset().count(w1) > 0 && f.to_multiset().count(w2) > 0 && f.to_multiset().count(
        w3,
    ) > 0);
    assert(f.contains(w1) && f.contains(w2) && f.contains(w3));
    let i1 = choose|i: int| 0 <= i < f.len() && f[i] == w1;
    let i2 = choose|i: int| 0 <= i < f.len() && f[i] == w2;
    let i3 = choose|i: int| 0 <= i < f.len() && f[i] == w3;
    assert(i1 != i2 && i1 != i3 && i2 != i3);
    assert forall|k: int| 0 <= k < 3 implies f[k] == w1 || f[k] == w2 || f[k] == w3 by {
        assert(k == i1 || k == i2 || k == i3);
    }
    assert(f[0] == w1) by {
        if f[0] == w2 || f[0] == w3 {
            assert(f[0].date >= f[i1].date);
        }
    }
    assert(f[1] == w2) by {
        if f[1] == w1 {
            assert(i1 != 1 ==> f[i1] == w1 && f[1] == w1 && i1 == 0);
        }
        if f[1] == w3 {
            assert(f[1].date >= f[i2].date && i2 >= 1);
        }
    }
    assert(f[2] == w3) by {
        if f[2] == w1 || f[2] == w2 {
            assert(f[0] == w1 && f[1] == w2);
            assert(i3 == 0 || i3 == 1 || i3 == 2);
        }
    }
    assert(f =~= ws);
}

/// Law: completing a request twice in a row leaves exactly the state of
/// completing it once — the flag stays true, and no other field and no
/// other record is affected by the second call.
pub proof fn lemma_completion_idempotent(ws: Seq<SavedWithdrawalV>, id: u64)
    ensures
        complete_model(complete_model(ws, id), id) == complete_model(ws, id),
{
    let once = complete_model(ws, id);
    let twice = complete_model(once, id);
    assert forall|k: int| 0 <= k < twice.len() implies twice[k] == once[k] by {
        assert(once[k] == (if ws[k].id == id {
            SavedWithdrawalV { complete: true, ..ws[k] }
        } else {
            ws[k]
        }));
    }
    assert(twice =~= once);
}

/// Law: saving a project whose slot list does not hold exactly three
/// entries fails with `ValidationError` and changes nothing; a list of
/// three, or none (the current schema variant), passes validation.
pub proof fn lemma_slot_count_validation(s: StoreV, p: ProjectV)
    requires
        s.next_project_id < u64::MAX,
    ensures
        (match p.withdrawal_slot_ids {
            Some(ids) => if ids.len() == 3 {
                save_project_result(s, p) is Ok
            } else {
                save_project_result(s, p) == Err::<u64, DaoError>(DaoError::ValidationError)
                    && save_project_model(s, p) == s
            },
            None => save_project_result(s, p) is Ok,
        }),
{
}

/// Law: an insertion position never splits two records out of timestamp
/// order: saving keeps the table newest first.
pub proof fn lemma_insert_keeps_order(ws: Seq<SavedWithdrawalV>, w: SavedWithdrawalV)
    requires
        sorted_desc(ws),
    ensures
        sorted_desc(ws.insert(insert_pos(ws, w.date), w)),
    decreases ws.len(),
{
    lemma_insert_pos_bounds(ws, w.date);
    let p = insert_pos(ws, w.date);
    ws.insert_ensures(p, w);
    let ws2 = ws.insert(p, w);
    assert forall|a: int, b: int| 0 <= a <= b < ws2.len() implies (#[trigger] ws2[a]).date >= (
    #[trigger] ws2[b]).date by {
        if a < p && b < p {
            assert(ws2[a] == ws[a] && ws2[b] == ws[b]);
        } else if a < p && b == p {
            assert(ws2[a] == ws[a]);
        } else if a < p && b > p {
            assert(ws2[a] == ws[a] && ws2[b] == ws[b - 1]);
        } else if a == p && b > p {
            assert(ws2[b] == ws[b - 1]);
            assert(ws[p].date < w.date || p == b - 1 || ws[b - 1].date <= ws[p].date);
        } else if a > p && b > p {
            assert(ws2[a] == ws[a - 1] && ws2[b] == ws[b - 1]);
        }
    }
}

/// The insertion position of a timestamp lies within the sequence, every
/// earlier record is at least as new, and the record at the position — if
/// any — is older.
pub proof fn lemma_insert_pos_bounds(ws: Seq<SavedWithdrawalV>, date: i64)
    ensures
        0 <= insert_pos(ws, date) <= ws.len(),
        forall|k: int| 0 <= k < insert_pos(ws, date) ==> (#[trigger] ws[k]).date >= date,
        insert_pos(ws, date) < ws.len() ==> ws[insert_pos(ws, date)].date < date,
    decreases ws.len(),
{
    if ws.len() == 0 {
    } else if ws[0].date >= date {
        lemma_insert_pos_bounds(ws.drop_first(), date);
        let p = insert_pos(ws, date);
        assert(p == 1 + insert_pos(ws.drop_first(), date));
        assert forall|k: int| 0 <= k < p implies (#[trigger] ws[k]).date >= date by {
            if k > 0 {
                assert(ws.drop_first()[k - 1] == ws[k]);
            }
        }
        if p < ws.len() {
            assert(ws.drop_first()[p - 1] == ws[p]);
        }
    } else {
    }
}

} // verus!
