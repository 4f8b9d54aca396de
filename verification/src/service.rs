//! The composition layer: given repository results, builds the outward
//! views, adding derived fields and copying domain fields verbatim.  No
//! persistence or validation logic of its own beyond the shape check that
//! guards the repository's preconditions; a repository failure propagates
//! unchanged.

use vstd::prelude::*;
use vstd::string::StrSliceExecFns;
use vstd::string::StringExecFns;

use crate::codec::dec_of;
use crate::codec::get_u64;
use crate::codec::u64_to_dec;
use crate::config::host_text;
use crate::config::frontend_host;
use crate::config::Env;
use crate::domain::Project;
use crate::domain::ProjectForUsers;
use crate::domain::ProjectForUsersV;
use crate::domain::ProjectV;
use crate::domain::SavedWithdrawal;
use crate::domain::SavedWithdrawalV;
use crate::domain::Withdrawal;
use crate::domain::WithdrawalInputs;
use crate::domain::WithdrawalV;
use crate::errors::DaoError;
use crate::extid::ext_id_text;
use crate::extid::ExternalId;
use crate::store::load_project_model;
use crate::store::load_project_with_uuid_model;
use crate::store::load_withdrawals_model;
use crate::store::pid_of;
use crate::store::save_project_model;
use crate::store::save_project_result;
use crate::store::save_withdrawal_model;
use crate::store::save_withdrawal_result;
use crate::store::views_of;
use crate::store::Store;

verus! {

/// The outward view copies the project's domain fields verbatim and adds
/// the three shareable links: the deployment host, the operation path and
/// the project's id.
pub open spec fn project_for_users_matches(
    env: Env,
    id_text: Seq<char>,
    p: ProjectV,
    r: ProjectForUsersV,
) -> bool {
    &&& r.id == id_text
    &&& r.uuid == ext_id_text(p.uuid)
    &&& r.name == p.specs.name
    &&& r.asset_price == p.specs.asset_price
    &&& r.investors_share == p.specs.investors_share
    &&& r.shares_asset_id == p.shares_asset_id
    &&& r.central_app_id == p.central_app_id
    &&& r.invest_escrow_address == p.invest_escrow.address
    &&& r.staking_escrow_address == p.staking_escrow.address
    &&& r.central_escrow_address == p.central_escrow.address
    &&& r.customer_escrow_address == p.customer_escrow.address
    &&& r.invest_link == host_text(env) + "/invest/"@ + id_text
    &&& r.my_investment_link == host_text(env) + "/investment/"@ + id_text
    &&& r.project_link == host_text(env) + "/project/"@ + id_text
    &&& r.creator == p.creator
}

/// Builds the outward view of a project under a given id text.
pub fn to_project_for_users(env: &Env, project_id: &str, project: &Project) -> (r: ProjectForUsers)
    requires
        project@.wf(),
    ensures
        project_for_users_matches(*env, project_id@, project@, r@),
{
    let host = frontend_host(env);
    let invest_link = String::from_str(host).concat("/invest/").concat(project_id);
    let my_investment_link = String::from_str(host).concat("/investment/").concat(project_id);
    let project_link = String::from_str(host).concat("/project/").concat(project_id);
    let r = ProjectForUsers {
        id: project_id.to_owned(),
        uuid: project.uuid.to_text(),
        name: project.specs.name.clone(),
        asset_price: project.specs.asset_price,
        investors_share: project.specs.investors_share,
        shares_asset_id: project.shares_asset_id,
        central_app_id: project.central_app_id,
        invest_escrow_address: project.invest_escrow.address().duplicate(),
        staking_escrow_address: project.staking_escrow.address().duplicate(),
        central_escrow_address: project.central_escrow.address().duplicate(),
        customer_escrow_address: project.customer_escrow.address().duplicate(),
        invest_link,
        my_investment_link,
        project_link,
        creator: project.creator.duplicate(),
    };
    proof {
        assert(r@.invest_link =~= host_text(*env) + "/invest/"@ + project_id@);
        assert(r@.my_investment_link =~= host_text(*env) + "/investment/"@ + project_id@);
        assert(r@.project_link =~= host_text(*env) + "/project/"@ + project_id@);
    }
    r
}

/// Saves a project and returns its outward view under the generated id.
/// A project that violates its shape invariant — or the slot-count rule —
/// is rejected with `ValidationError` before anything is written.
pub fn save_project(store: &mut Store, env: &Env, project: &Project) -> (r: Result<
    ProjectForUsers,
    DaoError,
>)
    requires
        old(store).wf(),
    ensures
        final(store).wf(),
        !project@.wf() ==> (r matches Err(e) && e == DaoError::ValidationError && final(store)@
            == old(store)@),
        project@.wf() ==> final(store)@ == save_project_model(old(store)@, project@) && (match (
            r,
            save_project_result(old(store)@, project@),
        ) {
            (Ok(pfu), Ok(id)) => project_for_users_matches(
                *env,
                dec_of(id as nat),
                project@,
                pfu@,
            ),
            (Err(e), Err(e2)) => e == e2,
            _ => false,
        }),
{
    if !project.well_formed() {
        return Err(DaoError::ValidationError);
    }
    let id = match store.save_project(project) {
        Ok(id) => id,
        Err(e) => {
            return Err(e);
        },
    };
    let id_str = u64_to_dec(id);
    Ok(to_project_for_users(env, id_str.as_str(), project))
}

/// Loads a project by the text of its id and returns its outward view.
/// Text that is not a canonical id is rejected as a shape violation.
pub fn load_project_for_users(store: &Store, env: &Env, id: &str) -> (r: Result<
    ProjectForUsers,
    DaoError,
>)
    requires
        store.wf(),
    ensures
        (forall|n: u64| id@ != dec_of(n as nat)) ==> (r matches Err(e) && e
            == DaoError::ValidationError),
        forall|n: u64| id@ == dec_of(n as nat) ==> (match (r, load_project_model(store@, n)) {
            (Ok(pfu), Ok(q)) => project_for_users_matches(*env, id@, q, pfu@),
            (Err(e), Err(e2)) => e == e2,
            _ => false,
        }),
{
    let pid = match get_u64(id) {
        Ok(v) => v,
        Err(_) => {
            return Err(DaoError::ValidationError);
        },
    };
    proof {
        crate::codec::lemma_dec_of_canonical(pid as nat);
    }
    let project = match store.load_project(pid) {
        Ok(p) => p,
        Err(e) => {
            proof {
                assert forall|n: u64| id@ == dec_of(n as nat) implies n == pid by {
                    crate::codec::lemma_dec_of_injective(n as nat, pid as nat);
                }
            }
            return Err(e);
        },
    };
    proof {
        assert forall|n: u64| id@ == dec_of(n as nat) implies n == pid by {
            crate::codec::lemma_dec_of_injective(n as nat, pid as nat);
        }
    }
    Ok(to_project_for_users(env, id, &project))
}

/// Loads a project by its external identifier and returns its outward
/// view.  The id field of the view is zero: the stable reference for
/// external callers is the identifier itself.
pub fn load_project_for_users_with_uuid(store: &Store, env: &Env, uuid: &str) -> (r: Result<
    ProjectForUsers,
    DaoError,
>)
    requires
        store.wf(),
    ensures
        (forall|b: Seq<u8>| !(b.len() == 16 && uuid@ == ext_id_text(b))) ==> (r matches Err(e) && e
            == DaoError::EncodingFailure),
        forall|b: Seq<u8>| (b.len() == 16 && uuid@ == ext_id_text(b)) ==> (match (
            r,
            load_project_with_uuid_model(store@, b),
        ) {
            (Ok(pfu), Ok(q)) => project_for_users_matches(*env, "0"@, q, pfu@),
            (Err(e), Err(e2)) => e == e2,
            _ => false,
        }),
{
    let ext = match ExternalId::from_text(uuid) {
        Ok(id) => id,
        Err(e) => {
            return Err(e);
        },
    };
    let project = match store.load_project_with_uuid(&ext) {
        Ok(p) => p,
        Err(e) => {
            proof {
                assert forall|b: Seq<u8>| b.len() == 16 && uuid@ == ext_id_text(b) implies b
                    == ext@ by {
                    crate::extid::lemma_ext_id_text_injective(b, ext@);
                }
            }
            return Err(e);
        },
    };
    proof {
        assert forall|b: Seq<u8>| b.len() == 16 && uuid@ == ext_id_text(b) implies b == ext@ by {
            crate::extid::lemma_ext_id_text_injective(b, ext@);
        }
    }
    Ok(to_project_for_users(env, "0", &project))
}

/// Loads a project by the text of its id.
pub fn load_project(store: &Store, id: &str) -> (r: Result<Project, DaoError>)
    requires
        store.wf(),
    ensures
        (forall|n: u64| id@ != dec_of(n as nat)) ==> (r matches Err(e) && e
            == DaoError::ValidationError),
        forall|n: u64| id@ == dec_of(n as nat) ==> (match (r, load_project_model(store@, n)) {
            (Ok(p), Ok(q)) => p@ == q,
            (Err(e), Err(e2)) => e == e2,
            _ => false,
        }),
{
    let pid = match get_u64(id) {
        Ok(v) => v,
        Err(_) => {
            return Err(DaoError::ValidationError);
        },
    };
    proof {
        assert forall|n: u64| id@ == dec_of(n as nat) implies n == pid by {
            crate::codec::lemma_dec_of_injective(n as nat, pid as nat);
        }
    }
    store.load_project(pid)
}

/// Loads a project by the text of its external identifier.
pub fn load_project_with_uuid(store: &Store, uuid: &str) -> (r: Result<Project, DaoError>)
    requires
        store.wf(),
    ensures
        (forall|b: Seq<u8>| !(b.len() == 16 && uuid@ == ext_id_text(b))) ==> (r matches Err(e) && e
            == DaoError::EncodingFailure),
        forall|b: Seq<u8>| (b.len() == 16 && uuid@ == ext_id_text(b)) ==> (match (
            r,
            load_project_with_uuid_model(store@, b),
        ) {
            (Ok(p), Ok(q)) => p@ == q,
            (Err(e), Err(e2)) => e == e2,
            _ => false,
        }),
{
    let ext = match ExternalId::from_text(uuid) {
        Ok(id) => id,
        Err(e) => {
            return Err(e);
        },
    };
    proof {
        assert forall|b: Seq<u8>| b.len() == 16 && uuid@ == ext_id_text(b) implies b == ext@ by {
            crate::extid::lemma_ext_id_text_injective(b, ext@);
        }
    }
    store.load_project_with_uuid(&ext)
}

/// Relies on `chrono::Utc::now` for the server-side timestamp, taken in
/// microseconds; nothing is promised of the clock's value.
#[verifier::external_body]
fn now_timestamp() -> (r: i64) {
    chrono::Utc::now().timestamp_micros()
}

/// Stamps the caller's inputs with the server-side time, saves the record
/// and returns it with its generated id.  The timestamp is never
/// client-supplied; whatever the clock returned, the stored record carries
/// the caller's fields and that timestamp, and a failure does not depend
/// on the clock.
pub fn save_withdrawal(store: &mut Store, inputs: &WithdrawalInputs) -> (r: Result<
    SavedWithdrawal,
    DaoError,
>)
    requires
        old(store).wf(),
    ensures
        final(store).wf(),
        (match r {
            Ok(sw) => {
                let w = WithdrawalV {
                    project_id: inputs.project_id@,
                    amount: inputs.amount,
                    description: inputs.description@,
                    date: sw@.date,
                };
                final(store)@ == save_withdrawal_model(old(store)@, w) && save_withdrawal_result(
                    old(store)@,
                    w,
                ) == Ok::<SavedWithdrawalV, DaoError>(sw@)
            },
            Err(e) => final(store)@ == old(store)@ && forall|date: i64|
                save_withdrawal_result(
                    old(store)@,
                    (WithdrawalV {
                        project_id: inputs.project_id@,
                        amount: inputs.amount,
                        description: inputs.description@,
                        date,
                    }),
                ) == Err::<SavedWithdrawalV, DaoError>(e),
        }),
{
    let date = now_timestamp();
    let withdrawal = Withdrawal {
        project_id: inputs.project_id.clone(),
        amount: inputs.amount,
        description: inputs.description.clone(),
        date,
    };
    let r = store.save_withdrawal(&withdrawal);
    proof {
        if r is Err {
            assert forall|d: i64|
                save_withdrawal_result(
                    old(store)@,
                    (WithdrawalV {
                        project_id: inputs.project_id@,
                        amount: inputs.amount,
                        description: inputs.description@,
                        date: d,
                    }),
                ) == save_withdrawal_result(old(store)@, withdrawal@) by {
                let wd = WithdrawalV {
                    project_id: inputs.project_id@,
                    amount: inputs.amount,
                    description: inputs.description@,
                    date: d,
                };
                assert(pid_of(wd) == pid_of(withdrawal@)) by {
                    if exists|n: u64| withdrawal@.project_id == dec_of(n as nat) {
                        let n1 = choose|n: u64| wd.project_id == dec_of(n as nat);
                        let n2 = choose|n: u64| withdrawal@.project_id == dec_of(n as nat);
                        crate::codec::lemma_dec_of_injective(n1 as nat, n2 as nat);
                    }
                }
            }
        }
    }
    r
}

/// Loads every withdrawal of the project named by the text of its id,
/// newest first.  Text that is not a canonical id is rejected as a shape
/// violation.
pub fn load_withdrawals(store: &Store, project_id: &str) -> (r: Result<
    Vec<SavedWithdrawal>,
    DaoError,
>)
    requires
        store.wf(),
    ensures
        (forall|n: u64| project_id@ != dec_of(n as nat)) ==> (r matches Err(e) && e
            == DaoError::ValidationError),
        forall|n: u64| project_id@ == dec_of(n as nat) ==> (match r {
            Ok(v) => views_of(v@) == load_withdrawals_model(store@, n),
            Err(_) => false,
        }),
{
    let pid = match get_u64(project_id) {
        Ok(v) => v,
        Err(_) => {
            return Err(DaoError::ValidationError);
        },
    };
    proof {
        assert forall|n: u64| project_id@ == dec_of(n as nat) implies n == pid by {
            crate::codec::lemma_dec_of_injective(n as nat, pid as nat);
        }
    }
    store.load_withdrawals(pid)
}

} // verus!
