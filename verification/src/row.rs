//! Marshalling between projects and the text columns of the project table.
//!
//! Every scalar is stored as canonical text: numbers as decimal strings,
//! the creator as its checksummed base32 text, programs as base64, the
//! external identifier in its hyphenated form.  Escrow addresses are not
//! stored; they are re-derived from the stored programs on load.

use vstd::prelude::*;

use crate::address::address_text_of;
use crate::address::get_address;
use crate::blob::base64_of;
use crate::blob::get_bytes;
use crate::codec::dec_of;
use crate::codec::get_u64;
use crate::codec::lemma_dec_of_injective;
use crate::codec::u64_to_dec;
use crate::domain::EscrowAccount;
use crate::domain::MicroAlgos;
use crate::domain::CreateProjectSpecs;
use crate::domain::CreateSharesSpecs;
use crate::domain::Project;
use crate::domain::ProjectV;
use crate::errors::DaoError;
use crate::extid::ext_id_text;
use crate::extid::lemma_ext_id_text_injective;
use crate::extid::ExternalId;

verus! {

/// The three withdrawal-slot columns of the legacy schema variant.
#[derive(Clone, PartialEq, Eq, Debug)]
pub struct SlotColumns {
    pub slot1: String,
    pub slot2: String,
    pub slot3: String,
}

/// Specification-level image of `SlotColumns`.
#[verifier::ext_equal]
pub struct SlotColumnsV {
    pub slot1: Seq<char>,
    pub slot2: Seq<char>,
    pub slot3: Seq<char>,
}

impl View for SlotColumns {
    type V = SlotColumnsV;

    open spec fn view(&self) -> SlotColumnsV {
        SlotColumnsV { slot1: self.slot1@, slot2: self.slot2@, slot3: self.slot3@ }
    }
}

/// One row of the project table, column for column.
#[derive(Clone, PartialEq, Eq, Debug)]
pub struct ProjectRow {
    pub name: String,
    pub creator: String,
    pub asset_price: String,
    pub token_name: String,
    pub share_count: String,
    pub investors_share: String,
    pub share_id: String,
    pub app_id: String,
    pub invest_b: String,
    pub staking_b: String,
    pub central_b: String,
    pub customer_b: String,
    pub uuid: String,
    pub slots: Option<SlotColumns>,
}

/// Specification-level image of `ProjectRow`.
#[verifier::ext_equal]
pub struct ProjectRowV {
    pub name: Seq<char>,
    pub creator: Seq<char>,
    pub asset_price: Seq<char>,
    pub token_name: Seq<char>,
    pub share_count: Seq<char>,
    pub investors_share: Seq<char>,
    pub share_id: Seq<char>,
    pub app_id: Seq<char>,
    pub invest_b: Seq<char>,
    pub staking_b: Seq<char>,
    pub central_b: Seq<char>,
    pub customer_b: Seq<char>,
    pub uuid: Seq<char>,
    pub slots: Option<SlotColumnsV>,
}

impl View for ProjectRow {
    type V = ProjectRowV;

    open spec fn view(&self) -> ProjectRowV {
        ProjectRowV {
            name: self.name@,
            creator: self.creator@,
            asset_price: self.asset_price@,
            token_name: self.token_name@,
            share_count: self.share_count@,
            investors_share: self.investors_share@,
            share_id: self.share_id@,
            app_id: self.app_id@,
            invest_b: self.invest_b@,
            staking_b: self.staking_b@,
            central_b: self.central_b@,
            customer_b: self.customer_b@,
            uuid: self.uuid@,
            slots: match self.slots {
                Some(s) => Some(s@),
                None => None,
            },
        }
    }
}

/// The row is the exact column image of the project: every scalar in its
/// canonical text, every program in base64, the external identifier in its
/// hyphenated form, and the legacy slot columns if and only if the project
/// carries slots.
pub open spec fn row_matches(p: ProjectV, r: ProjectRowV) -> bool {
    &&& r.name == p.specs.name
    &&& r.creator == address_text_of(p.creator)
    &&& r.asset_price == dec_of(p.specs.asset_price.0 as nat)
    &&& r.token_name == p.specs.shares.token_name
    &&& r.share_count == dec_of(p.specs.shares.count as nat)
    &&& r.investors_share == dec_of(p.specs.investors_share as nat)
    &&& r.share_id == dec_of(p.shares_asset_id as nat)
    &&& r.app_id == dec_of(p.central_app_id as nat)
    &&& r.invest_b == base64_of(p.invest_escrow.program)
    &&& r.staking_b == base64_of(p.staking_escrow.program)
    &&& r.central_b == base64_of(p.central_escrow.program)
    &&& r.customer_b == base64_of(p.customer_escrow.program)
    &&& r.uuid == ext_id_text(p.uuid)
    &&& (match (p.withdrawal_slot_ids, r.slots) {
        (Option::None, Option::None) => true,
        (Option::Some(ids), Option::Some(cols)) => ids.len() == 3 && cols.slot1 == dec_of(
            ids[0] as nat,
        ) && cols.slot2 == dec_of(ids[1] as nat) && cols.slot3 == dec_of(ids[2] as nat),
        _ => false,
    })
}

/// Encodes a project into its row.  Fails, before anything could be
/// written, exactly when the legacy slot list does not hold three entries.
pub fn project_to_row(p: &Project) -> (r: Result<ProjectRow, DaoError>)
    requires
        p@.wf(),
    ensures
        (match r {
            Ok(row) => p@.slots_ok() && row_matches(p@, row@),
            Err(e) => e == DaoError::ValidationError && !p@.slots_ok(),
        }),
{
    let slots: Option<SlotColumns> = match &p.withdrawal_slot_ids {
        Some(ids) => {
            if ids.len() != 3 {
                return Err(DaoError::ValidationError);
            }
            Some(
                SlotColumns {
                    slot1: u64_to_dec(ids[0]),
                    slot2: u64_to_dec(ids[1]),
                    slot3: u64_to_dec(ids[2]),
                },
            )
        },
        None => None,
    };
    Ok(
        ProjectRow {
            name: p.specs.name.clone(),
            creator: p.creator.to_text(),
            asset_price: u64_to_dec(p.specs.asset_price.0),
            token_name: p.specs.shares.token_name.clone(),
            share_count: u64_to_dec(p.specs.shares.count),
            investors_share: u64_to_dec(p.specs.investors_share),
            share_id: u64_to_dec(p.shares_asset_id),
            app_id: u64_to_dec(p.central_app_id),
            invest_b: p.invest_escrow.program.to_column(),
            staking_b: p.staking_escrow.program.to_column(),
            central_b: p.central_escrow.program.to_column(),
            customer_b: p.customer_escrow.program.to_column(),
            uuid: p.uuid.to_text(),
            slots,
        },
    )
}

/// Decodes a row back into the project it is the column image of.
///
/// For every well-formed project whose image the row is, the decode
/// returns exactly that project; a row that is no such image within one of
/// its scalar columns is reported as a malformed stored scalar.
pub fn project_from_row(row: &ProjectRow) -> (r: Result<Project, DaoError>)
    ensures
        (match r {
            Ok(p) => p@.wf() && p@.slots_ok(),
            Err(e) => e == DaoError::EncodingFailure,
        }),
        forall|q: ProjectV| (q.wf() && row_matches(q, row@)) ==> (r matches Ok(p) && p@ == q),
{
    let name = row.name.clone();
    let asset_price = match get_u64(row.asset_price.as_str()) {
        Ok(v) => MicroAlgos(v),
        Err(e) => {
            return Err(e);
        },
    };
    let token_name = row.token_name.clone();
    let share_count = match get_u64(row.share_count.as_str()) {
        Ok(v) => v,
        Err(e) => {
            return Err(e);
        },
    };
    let investors_share = match get_u64(row.investors_share.as_str()) {
        Ok(v) => v,
        Err(e) => {
            return Err(e);
        },
    };
    let creator = match get_address(row.creator.as_str()) {
        Ok(a) => a,
        Err(e) => {
            return Err(e);
        },
    };
    let shares_asset_id = match get_u64(row.share_id.as_str()) {
        Ok(v) => v,
        Err(e) => {
            return Err(e);
        },
    };
    let central_app_id = match get_u64(row.app_id.as_str()) {
        Ok(v) => v,
        Err(e) => {
            return Err(e);
        },
    };
    let invest_program = match get_bytes(row.invest_b.as_str()) {
        Ok(b) => b,
        Err(e) => {
            return Err(e);
        },
    };
    let staking_program = match get_bytes(row.staking_b.as_str()) {
        Ok(b) => b,
        Err(e) => {
            return Err(e);
        },
    };
    let central_program = match get_bytes(row.central_b.as_str()) {
        Ok(b) => b,
        Err(e) => {
            return Err(e);
        },
    };
    let customer_program = match get_bytes(row.customer_b.as_str()) {
        Ok(b) => b,
        Err(e) => {
            return Err(e);
        },
    };
    let uuid = match ExternalId::from_text(row.uuid.as_str()) {
        Ok(id) => id,
        Err(e) => {
            return Err(e);
        },
    };
    let withdrawal_slot_ids: Option<Vec<u64>> = match &row.slots {
        Some(cols) => {
            let s1 = match get_u64(cols.slot1.as_str()) {
                Ok(v) => v,
                Err(e) => {
                    return Err(e);
                },
            };
            let s2 = match get_u64(cols.slot2.as_str()) {
                Ok(v) => v,
                Err(e) => {
                    return Err(e);
                },
            };
            let s3 = match get_u64(cols.slot3.as_str()) {
                Ok(v) => v,
                Err(e) => {
                    return Err(e);
                },
            };
            let mut ids: Vec<u64> = Vec::new();
            ids.push(s1);
            ids.push(s2);
            ids.push(s3);
            Some(ids)
        },
        None => None,
    };
    let p = Project {
        specs: CreateProjectSpecs {
            name,
            shares: CreateSharesSpecs { token_name, count: share_count },
            investors_share,
            asset_price,
        },
        creator,
        shares_asset_id,
        central_app_id,
        invest_escrow: EscrowAccount::new(invest_program),
        staking_escrow: EscrowAccount::new(staking_program),
        central_escrow: EscrowAccount::new(central_program),
        customer_escrow: EscrowAccount::new(customer_program),
        uuid,
        withdrawal_slot_ids,
    };
    proof {
        assert forall|q: ProjectV| (q.wf() && row_matches(q, row@)) implies p@ == q by {
            lemma_dec_of_injective(p@.specs.asset_price.0 as nat, q.specs.asset_price.0 as nat);
            lemma_dec_of_injective(p@.specs.shares.count as nat, q.specs.shares.count as nat);
            lemma_dec_of_injective(p@.specs.investors_share as nat, q.specs.investors_share as nat);
            lemma_dec_of_injective(p@.shares_asset_id as nat, q.shares_asset_id as nat);
            lemma_dec_of_injective(p@.central_app_id as nat, q.central_app_id as nat);
            lemma_ext_id_text_injective(p@.uuid, q.uuid);
            match (p@.withdrawal_slot_ids, q.withdrawal_slot_ids) {
                (Option::Some(a), Option::Some(b)) => {
                    lemma_dec_of_injective(a[0] as nat, b[0] as nat);
                    lemma_dec_of_injective(a[1] as nat, b[1] as nat);
                    lemma_dec_of_injective(a[2] as nat, b[2] as nat);
                    assert(a =~= b);
                },
                _ => {},
            }
            assert(p@ =~~= q);
        }
    }
    Ok(p)
}

} // verus!
