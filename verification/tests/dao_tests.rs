//! The repository exercised end to end: schema creation, saving and
//! loading projects and withdrawals, and the column images themselves.

use capi_dao::address::Address;
use capi_dao::blob::CompiledProgram;
use capi_dao::domain::CreateProjectSpecs;
use capi_dao::domain::CreateSharesSpecs;
use capi_dao::domain::EscrowAccount;
use capi_dao::domain::MicroAlgos;
use capi_dao::domain::Project;
use capi_dao::domain::Withdrawal;
use capi_dao::extid::ExternalId;
use capi_dao::store::Store;

const CREATOR: &str = "MKRBTLNZRS3UZZDS5OWPLP7YPHUDNKXFUFN5PNCJ3P2XRG74HNOGY6XOYQ";
const UUID_TEXT: &str = "f5c8614f-f969-4e65-8039-15048a5055dd";

fn invest_program() -> Vec<u8> {
    vec![4, 32, 6, 6, 42, 0, 232, 7, 43, 4, 50, 4, 34, 18, 51, 2, 17, 35, 18, 16, 51, 3, 17, 33, 4, 18, 16, 64, 0, 9, 50, 4, 34, 18, 64, 0, 83, 36, 67, 51, 2, 17, 35, 18, 51, 2, 16, 33, 5, 18, 16, 51, 2, 18, 36, 18, 16, 51, 2, 1, 37, 14, 16, 51, 2, 32, 50, 3, 18, 16, 51, 2, 21, 50, 3, 18, 16, 51, 3, 17, 33, 4, 18, 16, 51, 3, 16, 33, 5, 18, 16, 51, 3, 18, 36, 18, 16, 51, 3, 1, 37, 14, 16, 51, 3, 32, 50, 3, 18, 16, 51, 3, 21, 50, 3, 18, 16, 66, 0, 91, 51, 0, 16, 34, 18, 51, 3, 17, 35, 18, 16, 51, 3, 20, 128, 32, 247, 10, 15, 104, 164, 223, 249, 27, 116, 139, 66, 224, 167, 91, 33, 215, 215, 35, 34, 187, 44, 221, 159, 36, 227, 39, 167, 77, 162, 152, 169, 0, 18, 16, 51, 3, 1, 37, 14, 16, 51, 3, 21, 50, 3, 18, 16, 51, 3, 32, 50, 3, 18, 16, 51, 1, 8, 51, 3, 18, 129, 192, 132, 61, 11, 18, 16, 51, 3, 18, 51, 4, 18, 18, 16]
}

fn staking_program() -> Vec<u8> {
    vec![4, 32, 6, 4, 6, 0, 42, 43, 232, 7, 50, 4, 35, 18, 51, 0, 17, 37, 18, 16, 51, 1, 17, 33, 4, 18, 16, 64, 0, 18, 50, 4, 129, 2, 18, 64, 0, 89, 50, 4, 129, 3, 18, 64, 0, 93, 36, 67, 51, 0, 17, 37, 18, 51, 0, 16, 34, 18, 16, 51, 0, 18, 36, 18, 16, 51, 0, 1, 33, 5, 14, 16, 51, 0, 32, 50, 3, 18, 16, 51, 0, 21, 50, 3, 18, 16, 51, 1, 17, 33, 4, 18, 16, 51, 1, 16, 34, 18, 16, 51, 1, 18, 36, 18, 16, 51, 1, 1, 33, 5, 14, 16, 51, 1, 32, 50, 3, 18, 16, 51, 1, 21, 50, 3, 18, 16, 67, 51, 0, 16, 35, 18, 51, 1, 16, 34, 18, 16, 67, 51, 0, 16, 35, 18, 51, 1, 16, 34, 18, 16, 51, 2, 16, 129, 1, 18, 16]
}

fn central_program() -> Vec<u8> {
    vec![4, 129, 1]
}

fn customer_program() -> Vec<u8> {
    vec![4, 32, 1, 1, 50, 4, 129, 3, 18, 64, 0, 3, 129, 0, 67, 51, 0, 16, 129, 6, 18, 51, 1, 16, 34, 18, 16, 51, 1, 1, 129, 232, 7, 14, 16, 51, 1, 32, 50, 3, 18, 16, 51, 1, 21, 50, 3, 18, 16, 51, 1, 7, 128, 32, 127, 204, 75, 14, 247, 183, 80, 230, 198, 222, 188, 81, 26, 189, 34, 158, 175, 114, 64, 206, 9, 141, 238, 213, 47, 13, 29, 140, 145, 34, 14, 109, 18, 16, 51, 2, 16, 34, 18, 16]
}

fn sample_project() -> Project {
    Project {
        specs: CreateProjectSpecs {
            name: "my1project".to_string(),
            shares: CreateSharesSpecs { token_name: "foo".to_string(), count: 100 },
            investors_share: 40,
            asset_price: MicroAlgos(1_000_000),
        },
        creator: Address::from_text(CREATOR).unwrap(),
        shares_asset_id: 42,
        central_app_id: 50,
        invest_escrow: EscrowAccount::new(CompiledProgram::new(invest_program())),
        staking_escrow: EscrowAccount::new(CompiledProgram::new(staking_program())),
        central_escrow: EscrowAccount::new(CompiledProgram::new(central_program())),
        customer_escrow: EscrowAccount::new(CompiledProgram::new(customer_program())),
        uuid: ExternalId::from_text(UUID_TEXT).unwrap(),
        withdrawal_slot_ids: None,
    }
}

#[test]
fn test_create_table() {
    let store = Store::new();
    assert!(store.init().is_ok());
    // calling it again is a no-op, not an error
    assert!(store.init().is_ok());
}

#[test]
fn test_insert_and_load_a_project() {
    let mut store = Store::new();
    store.init().unwrap();

    let project = sample_project();

    let id = store.save_project(&project).unwrap();
    println!("id: {:?}", id);

    let loaded_project = store.load_project(id).unwrap();

    assert_eq!(project, loaded_project);
}

#[test]
fn test_insert_and_load_a_withdrawal() {
    let store_init = Store::new();
    store_init.init().unwrap();
    let mut store = store_init;

    // precs
    let project_id = store.save_project(&sample_project()).unwrap();

    // insert a withdrawal
    let withdrawal = Withdrawal {
        project_id: project_id.to_string(),
        amount: MicroAlgos(100_000),
        description: "Rent".to_owned(),
        date: 1_700_000_000_000_000,
    };
    let saved_withdrawal = store.save_withdrawal(&withdrawal).unwrap();
    println!("saved_withdrawal: {:?}", saved_withdrawal);

    // load and check that it's equal to the withdrawal we inserted
    let withdrawals = store.load_withdrawals(project_id).unwrap();
    assert_eq!(1, withdrawals.len());
    let loaded_withdrawal = withdrawals[0].clone();
    assert_eq!(withdrawal.amount, loaded_withdrawal.amount);
    assert_eq!(withdrawal.description, loaded_withdrawal.description);
    assert_eq!(withdrawal.date, loaded_withdrawal.date);
    assert_eq!(withdrawal.project_id, loaded_withdrawal.project_id.to_string());
}

#[test]
fn escrow_addresses_derive_from_programs() {
    let p = sample_project();
    assert_eq!(
        p.invest_escrow.address().to_text(),
        "SV2LIUFR5AL2BZOMGW3SAYU5FT2T662NOXPVKXF3GKGTDYRZJMHENNZS2Y"
    );
    assert_eq!(
        p.staking_escrow.address().to_text(),
        "64FA62FE374RW5ELILQKOWZB27LSGIV3FTOZ6JHDE6TU3IUYVEAKZXC3DQ"
    );
    assert_eq!(
        p.central_escrow.address().to_text(),
        "P7GEWDXXW5IONRW6XRIRVPJCT2XXEQGOBGG65VJPBUOYZEJCBZWTPHS3VQ"
    );
    assert_eq!(
        p.customer_escrow.address().to_text(),
        "3BW2V2NE7AIFGSARHF7ULZFWJPCOYOJTP3NL6ZQ3TWMSK673HTWTPPKEBA"
    );
}

#[test]
fn project_row_holds_canonical_columns() {
    let p = sample_project();
    let row = capi_dao::row::project_to_row(&p).unwrap();
    assert_eq!(row.name, "my1project");
    assert_eq!(row.creator, CREATOR);
    assert_eq!(row.asset_price, "1000000");
    assert_eq!(row.token_name, "foo");
    assert_eq!(row.share_count, "100");
    assert_eq!(row.investors_share, "40");
    assert_eq!(row.share_id, "42");
    assert_eq!(row.app_id, "50");
    assert_eq!(row.central_b, "BIEB");
    assert_eq!(row.uuid, UUID_TEXT);
    assert!(row.slots.is_none());
}

#[test]
fn corrupt_column_is_encoding_failure() {
    let p = sample_project();
    let mut row = capi_dao::row::project_to_row(&p).unwrap();
    row.asset_price = "not a number".to_string();
    let r = capi_dao::row::project_from_row(&row);
    assert!(matches!(r, Err(capi_dao::errors::DaoError::EncodingFailure)));
}

#[test]
fn row_round_trips_through_decode() {
    let p = sample_project();
    let row = capi_dao::row::project_to_row(&p).unwrap();
    let q = capi_dao::row::project_from_row(&row).unwrap();
    assert_eq!(p, q);
}
