//! The verified repository over the two tables.
//!
//! The store keeps what the relational schema keeps: for each project one
//! row of text columns (plus the generated id), and for each withdrawal one
//! record.  Loading decodes the stored columns, so every contract about a
//! loaded project is a statement about the text round trip.  The abstract
//! state is `StoreV`; every operation's effect is a function of it.

use vstd::prelude::*;

use crate::codec::dec_of;
use crate::codec::get_u64;
use crate::domain::Project;
use crate::domain::ProjectV;
use crate::domain::SavedWithdrawal;
use crate::domain::SavedWithdrawalV;
use crate::domain::Withdrawal;
use crate::domain::WithdrawalV;
use crate::errors::DaoError;
use crate::extid::ext_id_text;
use crate::extid::lemma_ext_id_text_injective;
use crate::extid::ExternalId;
use crate::row::project_from_row;
use crate::row::project_to_row;
use crate::row::row_matches;
use crate::row::ProjectRow;

verus! {

/// The abstract state of the store: the projects with their generated ids,
/// the withdrawal records, and the two identity counters.
#[verifier::ext_equal]
pub struct StoreV {
    pub projects: Seq<(u64, ProjectV)>,
    pub next_project_id: u64,
    pub withdrawals: Seq<SavedWithdrawalV>,
    pub next_withdrawal_id: u64,
}

/// Whether a project with this generated id exists.
pub open spec fn has_project(s: StoreV, id: u64) -> bool {
    exists|i: int| 0 <= i < s.projects.len() && (#[trigger] s.projects[i]).0 == id
}

/// The index of the project with this generated id, where one exists.
pub open spec fn project_index(s: StoreV, id: u64) -> int {
    choose|i: int| 0 <= i < s.projects.len() && (#[trigger] s.projects[i]).0 == id
}

/// Newest first: each record's timestamp is no older than the next one's.
pub open spec fn sorted_desc(ws: Seq<SavedWithdrawalV>) -> bool {
    forall|i: int, j: int| 0 <= i <= j < ws.len() ==> (#[trigger] ws[i]).date >= (#[trigger] ws[j]).date
}

/// The structural invariant of the abstract state: generated ids are
/// unique and below their counter, withdrawals are kept newest first, and
/// every withdrawal references an existing project.
pub open spec fn inv(s: StoreV) -> bool {
    &&& forall|i: int, j: int|
        0 <= i < j < s.projects.len() ==> (#[trigger] s.projects[i]).0 != (
        #[trigger] s.projects[j]).0
    &&& forall|i: int|
        0 <= i < s.projects.len() ==> (#[trigger] s.projects[i]).0 < s.next_project_id
    &&& forall|i: int, j: int|
        0 <= i < j < s.withdrawals.len() ==> (#[trigger] s.withdrawals[i]).id != (
        #[trigger] s.withdrawals[j]).id
    &&& forall|i: int|
        0 <= i < s.withdrawals.len() ==> (#[trigger] s.withdrawals[i]).id < s.next_withdrawal_id
    &&& sorted_desc(s.withdrawals)
    &&& forall|i: int|
        0 <= i < s.withdrawals.len() ==> has_project(s, (#[trigger] s.withdrawals[i]).project_id)
}

/// The state after saving a project: unchanged on failure, one appended
/// entry under the fresh id otherwise.
pub open spec fn save_project_model(s: StoreV, p: ProjectV) -> StoreV {
    if !p.slots_ok() || s.next_project_id == u64::MAX {
        s
    } else {
        StoreV {
            projects: s.projects.push((s.next_project_id, p)),
            next_project_id: (s.next_project_id + 1) as u64,
            ..s
        }
    }
}

/// What saving a project returns: the fresh id, or the failure.  A slot
/// list of the wrong length is rejected before anything is written; an
/// exhausted id space is a constraint violation.
pub open spec fn save_project_result(s: StoreV, p: ProjectV) -> Result<u64, DaoError> {
    if !p.slots_ok() {
        Err(DaoError::ValidationError)
    } else if s.next_project_id == u64::MAX {
        Err(DaoError::IntegrityError)
    } else {
        Ok(s.next_project_id)
    }
}

/// What loading by id returns: the project stored under the id, or
/// `NotFound` when no row matches.
pub open spec fn load_project_model(s: StoreV, id: u64) -> Result<ProjectV, DaoError> {
    if has_project(s, id) {
        Ok(s.projects[project_index(s, id)].1)
    } else {
        Err(DaoError::NotFound)
    }
}

/// Whether a stored project carries this external identifier.
pub open spec fn uuid_pred(u: Seq<u8>) -> spec_fn((u64, ProjectV)) -> bool {
    |pr: (u64, ProjectV)| pr.1.uuid == u
}

/// The projects carrying this external identifier.
pub open spec fn uuid_matches(s: StoreV, u: Seq<u8>) -> Seq<(u64, ProjectV)> {
    s.projects.filter(uuid_pred(u))
}

/// What loading by external identifier returns: the single project
/// carrying it; `NotFound` for zero matches, a constraint violation for
/// more than one.
pub open spec fn load_project_with_uuid_model(s: StoreV, u: Seq<u8>) -> Result<
    ProjectV,
    DaoError,
> {
    if uuid_matches(s, u).len() == 1 {
        Ok(uuid_matches(s, u)[0].1)
    } else if uuid_matches(s, u).len() == 0 {
        Err(DaoError::NotFound)
    } else {
        Err(DaoError::IntegrityError)
    }
}

/// The parsed surrogate id of the project a withdrawal references, when
/// its text is canonical decimal.
pub open spec fn pid_of(w: WithdrawalV) -> Option<u64> {
    if exists|n: u64| w.project_id == dec_of(n as nat) {
        Some(choose|n: u64| w.project_id == dec_of(n as nat))
    } else {
        None
    }
}

/// Where a record with this timestamp is inserted: after every record that
/// is at least as new, so retrieval stays newest first.
pub open spec fn insert_pos(ws: Seq<SavedWithdrawalV>, date: i64) -> int
    decreases ws.len(),
{
    if ws.len() == 0 {
        0
    } else if ws[0].date >= date {
        1 + insert_pos(ws.drop_first(), date)
    } else {
        0
    }
}

/// The record appended by a successful save, under the fresh id, pending.
pub open spec fn saved_withdrawal_model(s: StoreV, pid: u64, w: WithdrawalV) -> SavedWithdrawalV {
    SavedWithdrawalV {
        id: s.next_withdrawal_id,
        project_id: pid,
        amount: w.amount,
        description: w.description,
        date: w.date,
        complete: false,
    }
}

/// The state after saving a withdrawal: unchanged on failure, otherwise
/// the new record inserted at its timestamp position.
pub open spec fn save_withdrawal_model(s: StoreV, w: WithdrawalV) -> StoreV {
    match pid_of(w) {
        Option::None => s,
        Option::Some(pid) => {
            if !has_project(s, pid) || s.next_withdrawal_id == u64::MAX {
                s
            } else {
                StoreV {
                    withdrawals: s.withdrawals.insert(
                        insert_pos(s.withdrawals, w.date),
                        saved_withdrawal_model(s, pid, w),
                    ),
                    next_withdrawal_id: (s.next_withdrawal_id + 1) as u64,
                    ..s
                }
            }
        },
    }
}

/// What saving a withdrawal returns: the stored record, or the failure.
/// An unparsable project reference is a shape violation; a reference to a
/// missing project is a constraint violation and writes nothing.
pub open spec fn save_withdrawal_result(s: StoreV, w: WithdrawalV) -> Result<
    SavedWithdrawalV,
    DaoError,
> {
    match pid_of(w) {
        Option::None => Err(DaoError::ValidationError),
        Option::Some(pid) => {
            if !has_project(s, pid) {
                Err(DaoError::IntegrityError)
            } else if s.next_withdrawal_id == u64::MAX {
                Err(DaoError::IntegrityError)
            } else {
                Ok(saved_withdrawal_model(s, pid, w))
            }
        },
    }
}

/// Whether a stored withdrawal belongs to this project.
pub open spec fn wpid_pred(project_id: u64) -> spec_fn(SavedWithdrawalV) -> bool {
    |w: SavedWithdrawalV| w.project_id == project_id
}

/// What loading a project's withdrawals returns: exactly its records, in
/// stored order — newest first; an empty sequence, not an error, when none
/// exist.
pub open spec fn load_withdrawals_model(s: StoreV, project_id: u64) -> Seq<SavedWithdrawalV> {
    s.withdrawals.filter(wpid_pred(project_id))
}

/// The state after completing a request: the matching record's completion
/// flag is set — true stays true — and nothing else changes.  Completing
/// an id that matches nothing is a no-op, not an error.
pub open spec fn complete_model(ws: Seq<SavedWithdrawalV>, id: u64) -> Seq<SavedWithdrawalV> {
    ws.map(
        |i: int, w: SavedWithdrawalV|
            if w.id == id {
                SavedWithdrawalV { complete: true, ..w }
            } else {
                w
            },
    )
}

/// The specification-level views of a vector of stored records.
pub open spec fn views_of(ws: Seq<SavedWithdrawal>) -> Seq<SavedWithdrawalV> {
    ws.map(|i: int, w: SavedWithdrawal| w@)
}

/// One stored project: the generated id, the row of text columns as the
/// schema keeps it, and — only for the proofs — the project it encodes.
struct StoredProject {
    id: u64,
    row: ProjectRow,
    proj: Ghost<ProjectV>,
}

/// The in-memory repository: one verified implementation of the project
/// and withdrawal tables, holding rows of text columns exactly as the
/// relational schema does.
pub struct Store {
    projects: Vec<StoredProject>,
    next_project_id: u64,
    withdrawals: Vec<SavedWithdrawal>,
    next_withdrawal_id: u64,
}

impl View for Store {
    type V = StoreV;

    closed spec fn view(&self) -> StoreV {
        StoreV {
            projects: self.projects@.map(|i: int, e: StoredProject| (e.id, e.proj@)),
            next_project_id: self.next_project_id,
            withdrawals: views_of(self.withdrawals@),
            next_withdrawal_id: self.next_withdrawal_id,
        }
    }
}

impl Store {
    /// Well-formedness: the abstract state satisfies its invariant, every
    /// stored row is the column image of the project it stands for, and
    /// every stored project is well-formed with a valid slot list.
    pub closed spec fn wf(&self) -> bool {
        &&& inv(self@)
        &&& forall|i: int|
            0 <= i < self.projects@.len() ==> row_matches(
                (#[trigger] self.projects@[i]).proj@,
                self.projects@[i].row@,
            )
        &&& forall|i: int|
            0 <= i < self.projects@.len() ==> (#[trigger] self.projects@[i]).proj@.wf() && self.projects@[i].proj@.slots_ok()
    }

    /// A fresh, empty store.  Generated ids start at one, as the schema's
    /// serial columns do.
    pub fn new() -> (r: Store)
        ensures
            r.wf(),
            r@.projects.len() == 0,
            r@.withdrawals.len() == 0,
            r@.next_project_id == 1,
            r@.next_withdrawal_id == 1,
    {
        let r = Store {
            projects: Vec::new(),
            next_project_id: 1,
            withdrawals: Vec::new(),
            next_withdrawal_id: 1,
        };
        proof {
            assert(r@.projects =~= Seq::<(u64, ProjectV)>::empty());
            assert(r@.withdrawals =~= Seq::<SavedWithdrawalV>::empty());
        }
        r
    }

    /// Idempotently ensures the schema exists.  The in-memory tables exist
    /// from construction, so this is a no-op that always succeeds — as the
    /// relational `CREATE TABLE IF NOT EXISTS` does when the table is
    /// already there.  Safe to call on every startup, any number of times.
    pub fn init(&self) -> (r: Result<(), DaoError>)
        ensures
            r matches Ok(()),
    {
        Ok(())
    }

    /// Inserts one project and returns its generated id, atomically: no
    /// caller ever observes a saved row without its id.  A legacy slot
    /// list without exactly three entries is rejected before anything is
    /// written.
    pub fn save_project(&mut self, p: &Project) -> (r: Result<u64, DaoError>)
        requires
            old(self).wf(),
            p@.wf(),
        ensures
            final(self).wf(),
            final(self)@ == save_project_model(old(self)@, p@),
            r == save_project_result(old(self)@, p@),
    {
        let ghost pv = p@;
        let row = match project_to_row(p) {
            Ok(row) => row,
            Err(e) => {
                return Err(e);
            },
        };
        if self.next_project_id == u64::MAX {
            return Err(DaoError::IntegrityError);
        }
        let id = self.next_project_id;
        self.next_project_id = id + 1;
        self.projects.push(StoredProject { id, row, proj: Ghost(pv) });
        proof {
            let old_v = old(self)@;
            let new_v = self@;
            assert(new_v.projects =~= old_v.projects.push((id, pv)));
            assert(new_v =~~= save_project_model(old_v, pv));
            assert forall|i: int| 0 <= i < new_v.withdrawals.len() implies has_project(
                new_v,
                (#[trigger] new_v.withdrawals[i]).project_id,
            ) by {
                assert(has_project(old_v, old_v.withdrawals[i].project_id));
                let j = choose|j: int|
                    0 <= j < old_v.projects.len() && (#[trigger] old_v.projects[j]).0
                        == old_v.withdrawals[i].project_id;
                assert((new_v.projects[j]).0 == new_v.withdrawals[i].project_id);
            }
        }
        Ok(id)
    }

    /// Loads the single project stored under a generated id, decoding its
    /// row; zero matching rows is `NotFound`, never a default value.
    pub fn load_project(&self, id: u64) -> (r: Result<Project, DaoError>)
        requires
            self.wf(),
        ensures
            (match (r, load_project_model(self@, id)) {
                (Ok(p), Ok(q)) => p@ == q && p@.wf(),
                (Err(e), Err(e2)) => e == e2,
                _ => false,
            }),
    {
        let n = self.projects.len();
        let mut i: usize = 0;
        while i < n
            invariant
                0 <= i <= n,
                n == self.projects@.len(),
                self.wf(),
                forall|k: int| 0 <= k < i ==> (#[trigger] self.projects@[k]).id != id,
            decreases n - i,
        {
            if self.projects[i].id == id {
                let e = &self.projects[i];
                match project_from_row(&e.row) {
                    Ok(p) => {
                        proof {
                            assert(row_matches(e.proj@, e.row@));
                            assert(p@ == e.proj@);
                            assert(has_project(self@, id)) by {
                                assert((self@.projects[i as int]).0 == id);
                            }
                            let j = project_index(self@, id);
                            assert((self@.projects[j]).0 == id);
                            assert(j == i as int) by {
                                if j < i as int {
                                    assert((self@.projects[j]).0 != (
                                    self@.projects[i as int]).0);
                                } else if (i as int) < j {
                                    assert((self@.projects[i as int]).0 != (
                                    self@.projects[j]).0);
                                }
                            }
                        }
                        return Ok(p);
                    },
                    Err(_) => {
                        return vstd::pervasive::unreached();
                    },
                }
            }
            i = i + 1;
        }
        proof {
            assert(!has_project(self@, id));
        }
        Err(DaoError::NotFound)
    }

    /// Loads the single project carrying an external identifier; zero
    /// matches is `NotFound`, several are a constraint violation.
    #[verifier::rlimit(50)]
    pub fn load_project_with_uuid(&self, uuid: &ExternalId) -> (r: Result<Project, DaoError>)
        requires
            self.wf(),
            uuid.wf(),
        ensures
            (match (r, load_project_with_uuid_model(self@, uuid@)) {
                (Ok(p), Ok(q)) => p@ == q && p@.wf(),
                (Err(e), Err(e2)) => e == e2,
                _ => false,
            }),
    {
        let target = uuid.to_text();
        let ghost pred = uuid_pred(uuid@);
        let n = self.projects.len();
        let mut i: usize = 0;
        let mut found: Option<usize> = None;
        let mut count: usize = 0;
        while i < n
            invariant
                0 <= i <= n,
                n == self.projects@.len(),
                self.wf(),
                uuid.wf(),
                target@ == ext_id_text(uuid@),
                count == self@.projects.take(i as int).filter(pred).len(),
                count <= i,
                pred == uuid_pred(uuid@),
                (match found {
                    Some(f) => count >= 1 && f < i && pred(self@.projects[f as int])
                        && self@.projects.take(i as int).filter(pred)[0]
                        == self@.projects[f as int],
                    None => count == 0,
                }),
            decreases n - i,
        {
            let e = &self.projects[i];
            let ghost prefix = self@.projects.take(i as int);
            let ghost entry = self@.projects[i as int];
            proof {
                lemma_filter_take_step(self@.projects, pred, i as int);
            }
            if string_eq(&e.row.uuid, &target) {
                proof {
                    assert(e.row.uuid@ == ext_id_text(e.proj@.uuid));
                    assert(e.proj@.wf());
                    lemma_ext_id_text_injective(e.proj@.uuid, uuid@);
                    assert(pred(entry));
                    assert(self@.projects.take(i as int + 1).filter(pred) == prefix.filter(
                        pred,
                    ).push(entry));
                    if count == 0 {
                        assert(prefix.filter(pred) =~= Seq::<(u64, ProjectV)>::empty());
                    }
                }
                if found.is_none() {
                    found = Some(i);
                }
                count = count + 1;
            } else {
                proof {
                    assert(e.row.uuid@ == ext_id_text(e.proj@.uuid));
                    if pred(entry) {
                        assert(ext_id_text(e.proj@.uuid) == ext_id_text(uuid@));
                        assert(false);
                    }
                }
            }
            i = i + 1;
        }
        proof {
            assert(self@.projects.take(n as int) =~= self@.projects);
        }
        if count == 1 {
            let f = match found {
                Some(f) => f,
                None => {
                    return vstd::pervasive::unreached();
                },
            };
            let e = &self.projects[f];
            match project_from_row(&e.row) {
                Ok(p) => {
                    proof {
                        assert(row_matches(e.proj@, e.row@));
                        assert(p@ == e.proj@);
                        assert(uuid_matches(self@, uuid@)[0] == self@.projects[f as int]);
                    }
                    Ok(p)
                },
                Err(_) => vstd::pervasive::unreached(),
            }
        } else if count == 0 {
            Err(DaoError::NotFound)
        } else {
            Err(DaoError::IntegrityError)
        }
    }

    /// Looks up whether a project with this generated id exists.
    fn project_exists(&self, id: u64) -> (r: bool)
        requires
            self.wf(),
        ensures
            r == has_project(self@, id),
    {
        let n = self.projects.len();
        let mut i: usize = 0;
        while i < n
            invariant
                0 <= i <= n,
                n == self.projects@.len(),
                self.wf(),
                forall|k: int| 0 <= k < i ==> (#[trigger] self.projects@[k]).id != id,
            decreases n - i,
        {
            if self.projects[i].id == id {
                proof {
                    assert((self@.projects[i as int]).0 == id);
                }
                return true;
            }
            i = i + 1;
        }
        proof {
            assert(!has_project(self@, id));
        }
        false
    }

    /// Inserts one withdrawal record, keyed to the referenced project and
    /// stamped pending, and returns it with its generated id.  A reference
    /// to a project that does not exist is a constraint violation, and the
    /// withdrawal table remains unchanged.
    pub fn save_withdrawal(&mut self, withdrawal: &Withdrawal) -> (r: Result<
        SavedWithdrawal,
        DaoError,
    >)
        requires
            old(self).wf(),
        ensures
            final(self).wf(),
            final(self)@ == save_withdrawal_model(old(self)@, withdrawal@),
            (match (r, save_withdrawal_result(old(self)@, withdrawal@)) {
                (Ok(sw), Ok(swv)) => sw@ == swv,
                (Err(e), Err(e2)) => e == e2,
                _ => false,
            }),
    {
        let pid = match get_u64(withdrawal.project_id.as_str()) {
            Ok(v) => v,
            Err(_) => {
                return Err(DaoError::ValidationError);
            },
        };
        proof {
            let n0 = choose|n: u64| withdrawal@.project_id == dec_of(n as nat);
            crate::codec::lemma_dec_of_injective(n0 as nat, pid as nat);
            assert(pid_of(withdrawal@) == Some(pid));
        }
        if !self.project_exists(pid) {
            return Err(DaoError::IntegrityError);
        }
        if self.next_withdrawal_id == u64::MAX {
            return Err(DaoError::IntegrityError);
        }
        let id = self.next_withdrawal_id;
        self.next_withdrawal_id = id + 1;
        let sw = SavedWithdrawal {
            id,
            project_id: pid,
            amount: withdrawal.amount,
            description: withdrawal.description.clone(),
            date: withdrawal.date,
            complete: false,
        };
        let ghost old_ws = views_of(self.withdrawals@);
        let n = self.withdrawals.len();
        let mut pos: usize = 0;
        while pos < n && self.withdrawals[pos].date >= withdrawal.date
            invariant
                0 <= pos <= n,
                n == self.withdrawals@.len(),
                old_ws == views_of(self.withdrawals@),
                forall|k: int| 0 <= k < pos ==> (#[trigger] old_ws[k]).date >= withdrawal@.date,
            decreases n - pos,
        {
            pos = pos + 1;
        }
        proof {
            crate::laws::lemma_insert_pos_bounds(old_ws, withdrawal@.date);
            let p = insert_pos(old_ws, withdrawal@.date);
            assert(pos == p) by {
                if (pos as int) < p {
                    assert(old_ws[pos as int].date >= withdrawal@.date);
                } else if p < pos as int {
                    assert(old_ws[p].date >= withdrawal@.date);
                }
            }
        }
        let ghost sw_v = sw@;
        self.withdrawals.insert(pos, sw.duplicate());
        proof {
            let old_v = old(self)@;
            let new_ws = views_of(self.withdrawals@);
            assert(new_ws =~= old_ws.insert(pos as int, sw_v)) by {
                old_ws.insert_ensures(pos as int, sw_v);
                assert forall|k: int| 0 <= k < new_ws.len() implies new_ws[k] == old_ws.insert(
                    pos as int,
                    sw_v,
                )[k] by {
                    if k < pos as int {
                        assert(self.withdrawals@[k] == old(self).withdrawals@[k]);
                    } else if k == pos as int {
                    } else {
                        assert(self.withdrawals@[k] == old(self).withdrawals@[k - 1]);
                    }
                }
            }
            assert(self@ =~~= save_withdrawal_model(old_v, withdrawal@));
            assert(final(self).wf()) by {
                crate::laws::lemma_insert_pos_bounds(old_ws, withdrawal@.date);
                old_ws.insert_ensures(pos as int, sw_v);
                let ws2 = self@.withdrawals;
                assert(sorted_desc(ws2)) by {
                    assert forall|a: int, b: int| 0 <= a <= b < ws2.len() implies ws2[a].date
                        >= ws2[b].date by {
                        let p = pos as int;
                        if a < p && b < p {
                        } else if a < p && b == p {
                        } else if a < p && b > p {
                        } else if a == p && b > p {
                            assert(ws2[b] == old_ws[b - 1]);
                            assert(old_ws[b - 1].date <= old_ws[p].date || b - 1 == p);
                        } else if a == p && b == p {
                        } else {
                        }
                    }
                }
                assert forall|k: int| 0 <= k < ws2.len() implies has_project(
                    self@,
                    (#[trigger] ws2[k]).project_id,
                ) by {
                    assert(self@.projects == old_v.projects);
                    if k != pos as int {
                        let k0: int = if k < pos as int {
                            k
                        } else {
                            k - 1
                        };
                        assert(ws2[k] == old_ws[k0]);
                        assert(has_project(old_v, old_ws[k0].project_id));
                        let j = choose|j: int|
                            0 <= j < old_v.projects.len() && (#[trigger] old_v.projects[j]).0
                                == old_ws[k0].project_id;
                        assert((self@.projects[j]).0 == ws2[k].project_id);
                    } else {
                        assert(has_project(old_v, pid));
                        let j = choose|j: int|
                            0 <= j < old_v.projects.len() && (#[trigger] old_v.projects[j]).0
                                == pid;
                        assert((self@.projects[j]).0 == pid);
                    }
                }
            }
        }
        Ok(sw)
    }

    /// Loads every withdrawal of one project, newest first — an empty
    /// vector, not an error, when none exist.
    pub fn load_withdrawals(&self, project_id: u64) -> (r: Result<Vec<SavedWithdrawal>, DaoError>)
        requires
            self.wf(),
        ensures
            (match r {
                Ok(v) => views_of(v@) == load_withdrawals_model(self@, project_id),
                Err(_) => false,
            }),
    {
        let ghost pred = wpid_pred(project_id);
        let n = self.withdrawals.len();
        let mut out: Vec<SavedWithdrawal> = Vec::new();
        let mut i: usize = 0;
        proof {
            assert(views_of(out@) =~= Seq::<SavedWithdrawalV>::empty());
            assert(self@.withdrawals.take(0).filter(pred) =~= Seq::<SavedWithdrawalV>::empty())
                by {
                reveal(Seq::<SavedWithdrawalV>::filter);
                assert(self@.withdrawals.take(0) =~= Seq::<SavedWithdrawalV>::empty());
            }
        }
        while i < n
            invariant
                0 <= i <= n,
                n == self.withdrawals@.len(),
                self.wf(),
                pred == wpid_pred(project_id),
                views_of(out@) == self@.withdrawals.take(i as int).filter(pred),
            decreases n - i,
        {
            let w = &self.withdrawals[i];
            let ghost entry = self@.withdrawals[i as int];
            proof {
                lemma_filter_take_step(self@.withdrawals, pred, i as int);
            }
            if w.project_id == project_id {
                let ghost before = views_of(out@);
                out.push(w.duplicate());
                proof {
                    assert(views_of(out@) =~= before.push(entry));
                }
            }
            i = i + 1;
        }
        proof {
            assert(self@.withdrawals.take(n as int) =~= self@.withdrawals);
        }
        Ok(out)
    }

    /// Marks the withdrawal request with this id complete.  The transition
    /// is one-way — true stays true — idempotent, a no-op for an id that
    /// matches nothing, and touches no other field and no other record.
    pub fn complete_withdrawal_request(&mut self, id: u64) -> (r: Result<(), DaoError>)
        requires
            old(self).wf(),
        ensures
            final(self).wf(),
            final(self)@ == (StoreV {
                withdrawals: complete_model(old(self)@.withdrawals, id),
                ..old(self)@
            }),
            r matches Ok(()),
    {
        let n = self.withdrawals.len();
        let mut out: Vec<SavedWithdrawal> = Vec::new();
        let mut i: usize = 0;
        proof {
            assert(views_of(out@) =~= complete_model(views_of(self.withdrawals@).take(0), id));
        }
        while i < n
            invariant
                0 <= i <= n,
                n == self.withdrawals@.len(),
                self.wf(),
                self@ == old(self)@,
                views_of(out@) == complete_model(views_of(self.withdrawals@).take(i as int), id),
            decreases n - i,
        {
            let w = &self.withdrawals[i];
            let mut d = w.duplicate();
            if d.id == id {
                d.complete = true;
            }
            let ghost before = views_of(out@);
            let ghost entry = views_of(self.withdrawals@)[i as int];
            out.push(d);
            proof {
                assert(views_of(out@) =~= before.push(d@));
                assert(views_of(self.withdrawals@).take(i as int + 1) =~= views_of(
                    self.withdrawals@,
                ).take(i as int).push(entry));
                assert(complete_model(views_of(self.withdrawals@).take(i as int + 1), id) =~=
                    complete_model(views_of(self.withdrawals@).take(i as int), id).push(
                    (if entry.id == id {
                        SavedWithdrawalV { complete: true, ..entry }
                    } else {
                        entry
                    }),
                ));
            }
            i = i + 1;
        }
        self.withdrawals = out;
        proof {
            let old_v = old(self)@;
            assert(views_of(old(self).withdrawals@).take(n as int) =~= old_v.withdrawals);
            assert(self@ =~~= (StoreV { withdrawals: complete_model(old_v.withdrawals, id), ..old_v }));
            let ws2 = self@.withdrawals;
            assert(final(self).wf()) by {
                assert forall|k: int| 0 <= k < ws2.len() implies has_project(
                    self@,
                    (#[trigger] ws2[k]).project_id,
                ) by {
                    assert(has_project(old_v, old_v.withdrawals[k].project_id));
                    let j = choose|j: int|
                        0 <= j < old_v.projects.len() && (#[trigger] old_v.projects[j]).0
                            == old_v.withdrawals[k].project_id;
                    assert((self@.projects[j]).0 == ws2[k].project_id);
                }
            }
        }
        Ok(())
    }
}

/// One step of filtering a prefix:

/// One step of filtering a prefix: extending the prefix by one element
/// extends the filtered sequence exactly when the element satisfies the
/// predicate.
proof fn lemma_filter_take_step<A>(s: Seq<A>, pred: spec_fn(A) -> bool, i: int)
    requires
        0 <= i < s.len(),
    ensures
        pred(s[i]) ==> s.take(i + 1).filter(pred) == s.take(i).filter(pred).push(s[i]),
        !pred(s[i]) ==> s.take(i + 1).filter(pred) == s.take(i).filter(pred),
{
    let prefix = s.take(i);
    let t = s.take(i + 1);
    assert(t.drop_last() =~= prefix);
    assert(t.last() == s[i]);
    reveal(Seq::filter);
}

/// A well-formed store's abstract state satisfies the structural
/// invariant, so the laws stated over `StoreV` apply to it.
pub proof fn lemma_wf_implies_inv(s: &Store)
    requires
        s.wf(),
    ensures
        inv(s@),
{
}

/// Compares two columns character for character.
fn string_eq(a: &String, b: &String) -> (r: bool)
    ensures
        r == (a@ == b@),
{
    *a == *b
}

} // verus!
