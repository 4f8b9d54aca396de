//! The two entity families this core persists: funding projects with their
//! escrow accounts, and withdrawal records against a project.

use vstd::prelude::*;

use crate::address::program_address_of;
use crate::address::Address;
use crate::blob::CompiledProgram;
use crate::extid::ExternalId;

verus! {

/// A currency amount in the smallest denomination.
#[derive(Clone, Copy, PartialEq, Eq, Structural, Debug)]
pub struct MicroAlgos(pub u64);

/// The share supply of a project: a token name and a share count.
#[derive(Clone, PartialEq, Eq, Debug)]
pub struct CreateSharesSpecs {
    pub token_name: String,
    pub count: u64,
}

/// Specification-level image of `CreateSharesSpecs`.
#[verifier::ext_equal]
pub struct SharesSpecsV {
    pub token_name: Seq<char>,
    pub count: u64,
}

impl View for CreateSharesSpecs {
    type V = SharesSpecsV;

    open spec fn view(&self) -> SharesSpecsV {
        SharesSpecsV { token_name: self.token_name@, count: self.count }
    }
}

/// What a project offers: display name, unit price, investor share and the
/// share supply.
#[derive(Clone, PartialEq, Eq, Debug)]
pub struct CreateProjectSpecs {
    pub name: String,
    pub shares: CreateSharesSpecs,
    pub investors_share: u64,
    pub asset_price: MicroAlgos,
}

/// Specification-level image of `CreateProjectSpecs`.
#[verifier::ext_equal]
pub struct ProjectSpecsV {
    pub name: Seq<char>,
    pub shares: SharesSpecsV,
    pub investors_share: u64,
    pub asset_price: MicroAlgos,
}

impl View for CreateProjectSpecs {
    type V = ProjectSpecsV;

    open spec fn view(&self) -> ProjectSpecsV {
        ProjectSpecsV {
            name: self.name@,
            shares: self.shares@,
            investors_share: self.investors_share,
            asset_price: self.asset_price,
        }
    }
}

/// An escrow account: a custody role over the project's funds, held by the
/// address that owns a compiled program.
#[derive(Clone, PartialEq, Eq, Debug)]
pub struct EscrowAccount {
    pub address: Address,
    pub program: CompiledProgram,
}

/// Specification-level image of `EscrowAccount`.
#[verifier::ext_equal]
pub struct EscrowAccountV {
    pub address: Seq<u8>,
    pub program: Seq<u8>,
}

impl View for EscrowAccount {
    type V = EscrowAccountV;

    open spec fn view(&self) -> EscrowAccountV {
        EscrowAccountV { address: self.address@, program: self.program@ }
    }
}

impl EscrowAccountV {
    /// The address of a well-formed escrow account is derived from its
    /// program, so the account survives storage of the program alone.
    pub open spec fn wf(self) -> bool {
        self.address.len() == 32 && self.address == program_address_of(self.program)
    }
}

impl EscrowAccount {
    /// Builds the escrow account owned by `program`, deriving its address.
    pub fn new(program: CompiledProgram) -> (r: EscrowAccount)
        ensures
            r@.wf(),
            r@.program == program@,
    {
        let addr_bytes = crate::address::derive_program_address(&program.bytes);
        match Address::from_bytes(addr_bytes) {
            Ok(address) => EscrowAccount { address, program },
            Err(_) => vstd::pervasive::unreached(),
        }
    }

    /// The account's derived address.
    pub fn address(&self) -> (r: &Address)
        ensures
            r@ == self@.address,
    {
        &self.address
    }

    /// Decides well-formedness at run time, by re-deriving the address
    /// that owns the program and comparing.
    pub fn well_formed(&self) -> (r: bool)
        ensures
            r == self@.wf(),
    {
        let derived = crate::address::derive_program_address(&self.program.bytes);
        eq_bytes(self.address.bytes(), &derived)
    }
}

/// Compares two byte strings element for element.
fn eq_bytes(a: &Vec<u8>, b: &Vec<u8>) -> (r: bool)
    ensures
        r == (a@ == b@),
{
    if a.len() != b.len() {
        return false;
    }
    let n = a.len();
    let mut i: usize = 0;
    while i < n
        invariant
            0 <= i <= n,
            n == a@.len() && n == b@.len(),
            forall|k: int| 0 <= k < i ==> a@[k] == b@[k],
        decreases n - i,
    {
        if a[i] != b[i] {
            return false;
        }
        i = i + 1;
    }
    proof {
        assert(a@ =~= b@);
    }
    true
}

/// The central entity: a funding project with its escrow accounts.
///
/// Two storage variants share this shape: the current one carries the
/// external identifier, the legacy one additionally carries exactly three
/// withdrawal-slot identifiers.
#[derive(Clone, PartialEq, Eq, Debug)]
pub struct Project {
    pub specs: CreateProjectSpecs,
    pub creator: Address,
    pub shares_asset_id: u64,
    pub central_app_id: u64,
    pub invest_escrow: EscrowAccount,
    pub staking_escrow: EscrowAccount,
    pub central_escrow: EscrowAccount,
    pub customer_escrow: EscrowAccount,
    pub uuid: ExternalId,
    pub withdrawal_slot_ids: Option<Vec<u64>>,
}

/// Specification-level image of `Project`.
#[verifier::ext_equal]
pub struct ProjectV {
    pub specs: ProjectSpecsV,
    pub creator: Seq<u8>,
    pub shares_asset_id: u64,
    pub central_app_id: u64,
    pub invest_escrow: EscrowAccountV,
    pub staking_escrow: EscrowAccountV,
    pub central_escrow: EscrowAccountV,
    pub customer_escrow: EscrowAccountV,
    pub uuid: Seq<u8>,
    pub withdrawal_slot_ids: Option<Seq<u64>>,
}

impl View for Project {
    type V = ProjectV;

    open spec fn view(&self) -> ProjectV {
        ProjectV {
            specs: self.specs@,
            creator: self.creator@,
            shares_asset_id: self.shares_asset_id,
            central_app_id: self.central_app_id,
            invest_escrow: self.invest_escrow@,
            staking_escrow: self.staking_escrow@,
            central_escrow: self.central_escrow@,
            customer_escrow: self.customer_escrow@,
            uuid: self.uuid@,
            withdrawal_slot_ids: match self.withdrawal_slot_ids {
                Some(v) => Some(v@),
                None => None,
            },
        }
    }
}

impl ProjectV {
    /// Shape invariant of every project value this core accepts: addresses
    /// hold 32 bytes, escrow addresses are derived from their programs, and
    /// the external identifier holds 16 bytes.
    pub open spec fn wf(self) -> bool {
        self.creator.len() == 32 && self.uuid.len() == 16 && self.invest_escrow.wf()
            && self.staking_escrow.wf() && self.central_escrow.wf() && self.customer_escrow.wf()
    }

    /// The legacy slot list, when present, must hold exactly three
    /// withdrawal-slot identifiers; the current variant carries none.
    pub open spec fn slots_ok(self) -> bool {
        match self.withdrawal_slot_ids {
            Some(s) => s.len() == 3,
            None => true,
        }
    }
}

impl Project {
    /// Decides the shape invariant at run time: address and identifier
    /// lengths, and each escrow address re-derived from its program.
    pub fn well_formed(&self) -> (r: bool)
        ensures
            r == self@.wf(),
    {
        self.creator.bytes().len() == 32 && self.uuid.bytes().len() == 16
            && self.invest_escrow.well_formed() && self.staking_escrow.well_formed()
            && self.central_escrow.well_formed() && self.customer_escrow.well_formed()
    }
}

/// A withdrawal to be saved: the owning project (as the text of its
/// surrogate id), an amount, a description and the server-side timestamp
/// in microseconds.
#[derive(Clone, PartialEq, Eq, Debug)]
pub struct Withdrawal {
    pub project_id: String,
    pub amount: MicroAlgos,
    pub description: String,
    pub date: i64,
}

/// Specification-level image of `Withdrawal`.
#[verifier::ext_equal]
pub struct WithdrawalV {
    pub project_id: Seq<char>,
    pub amount: MicroAlgos,
    pub description: Seq<char>,
    pub date: i64,
}

impl View for Withdrawal {
    type V = WithdrawalV;

    open spec fn view(&self) -> WithdrawalV {
        WithdrawalV {
            project_id: self.project_id@,
            amount: self.amount,
            description: self.description@,
            date: self.date,
        }
    }
}

/// A withdrawal as entered by a caller, before the server assigns the
/// timestamp.
#[derive(Clone, PartialEq, Eq, Debug)]
pub struct WithdrawalInputs {
    pub project_id: String,
    pub amount: MicroAlgos,
    pub description: String,
}

/// A stored withdrawal record: append-only, retrieved newest first, and —
/// in the request variant — completable exactly one way.
#[derive(Clone, PartialEq, Eq, Debug)]
pub struct SavedWithdrawal {
    pub id: u64,
    pub project_id: u64,
    pub amount: MicroAlgos,
    pub description: String,
    pub date: i64,
    pub complete: bool,
}

/// Specification-level image of `SavedWithdrawal`.
#[verifier::ext_equal]
pub struct SavedWithdrawalV {
    pub id: u64,
    pub project_id: u64,
    pub amount: MicroAlgos,
    pub description: Seq<char>,
    pub date: i64,
    pub complete: bool,
}

impl View for SavedWithdrawal {
    type V = SavedWithdrawalV;

    open spec fn view(&self) -> SavedWithdrawalV {
        SavedWithdrawalV {
            id: self.id,
            project_id: self.project_id,
            amount: self.amount,
            description: self.description@,
            date: self.date,
            complete: self.complete,
        }
    }
}

impl SavedWithdrawal {
    /// An owned copy of the same record.
    pub fn duplicate(&self) -> (r: SavedWithdrawal)
        ensures
            r@ == self@,
    {
        SavedWithdrawal {
            id: self.id,
            project_id: self.project_id,
            amount: self.amount,
            description: self.description.clone(),
            date: self.date,
            complete: self.complete,
        }
    }
}

/// The outward view of a project: domain fields copied verbatim plus the
/// shareable links derived from the deployment host.
#[derive(Clone, PartialEq, Eq, Debug)]
pub struct ProjectForUsers {
    pub id: String,
    pub uuid: String,
    pub name: String,
    pub asset_price: MicroAlgos,
    pub investors_share: u64,
    pub shares_asset_id: u64,
    pub central_app_id: u64,
    pub invest_escrow_address: Address,
    pub staking_escrow_address: Address,
    pub central_escrow_address: Address,
    pub customer_escrow_address: Address,
    pub invest_link: String,
    pub my_investment_link: String,
    pub project_link: String,
    pub creator: Address,
}

/// Specification-level image of `ProjectForUsers`.
#[verifier::ext_equal]
pub struct ProjectForUsersV {
    pub id: Seq<char>,
    pub uuid: Seq<char>,
    pub name: Seq<char>,
    pub asset_price: MicroAlgos,
    pub investors_share: u64,
    pub shares_asset_id: u64,
    pub central_app_id: u64,
    pub invest_escrow_address: Seq<u8>,
    pub staking_escrow_address: Seq<u8>,
    pub central_escrow_address: Seq<u8>,
    pub customer_escrow_address: Seq<u8>,
    pub invest_link: Seq<char>,
    pub my_investment_link: Seq<char>,
    pub project_link: Seq<char>,
    pub creator: Seq<u8>,
}

impl View for ProjectForUsers {
    type V = ProjectForUsersV;

    open spec fn view(&self) -> ProjectForUsersV {
        ProjectForUsersV {
            id: self.id@,
            uuid: self.uuid@,
            name: self.name@,
            asset_price: self.asset_price,
            investors_share: self.investors_share,
            shares_asset_id: self.shares_asset_id,
            central_app_id: self.central_app_id,
            invest_escrow_address: self.invest_escrow_address@,
            staking_escrow_address: self.staking_escrow_address@,
            central_escrow_address: self.central_escrow_address@,
            customer_escrow_address: self.customer_escrow_address@,
            invest_link: self.invest_link@,
            my_investment_link: self.my_investment_link@,
            project_link: self.project_link@,
            creator: self.creator@,
        }
    }
}

} // verus!
