//! Lifecycle scenarios against the repository and the service layer:
//! generated identity, not-found, referential integrity, retrieval order,
//! completion idempotence and slot-count validation.

use capi_dao::address::Address;
use capi_dao::blob::CompiledProgram;
use capi_dao::config::environment_from_flag;
use capi_dao::config::frontend_host;
use capi_dao::config::Env;
use capi_dao::domain::CreateProjectSpecs;
use capi_dao::domain::CreateSharesSpecs;
use capi_dao::domain::EscrowAccount;
use capi_dao::domain::MicroAlgos;
use capi_dao::domain::Project;
use capi_dao::domain::Withdrawal;
use capi_dao::domain::WithdrawalInputs;
use capi_dao::errors::DaoError;
use capi_dao::extid::ExternalId;
use capi_dao::service;
use capi_dao::store::Store;

fn project_with(name: &str, uuid_byte: u8, slots: Option<Vec<u64>>) -> Project {
    let mut uuid_bytes = vec![uuid_byte; 16];
    uuid_bytes[0] = uuid_byte.wrapping_add(1);
    Project {
        specs: CreateProjectSpecs {
            name: name.to_string(),
            shares: CreateSharesSpecs { token_name: "tok".to_string(), count: 100 },
            investors_share: 40,
            asset_price: MicroAlgos(1_000_000),
        },
        creator: Address::from_bytes(vec![7u8; 32]).unwrap(),
        shares_asset_id: 42,
        central_app_id: 50,
        invest_escrow: EscrowAccount::new(CompiledProgram::new(vec![4, 129, 1])),
        staking_escrow: EscrowAccount::new(CompiledProgram::new(vec![4, 129, 2])),
        central_escrow: EscrowAccount::new(CompiledProgram::new(vec![4, 129, 3])),
        customer_escrow: EscrowAccount::new(CompiledProgram::new(vec![4, 129, 4])),
        uuid: ExternalId::from_bytes(uuid_bytes).unwrap(),
        withdrawal_slot_ids: slots,
    }
}

fn withdrawal(project_id: u64, date: i64, description: &str) -> Withdrawal {
    Withdrawal {
        project_id: project_id.to_string(),
        amount: MicroAlgos(100_000),
        description: description.to_string(),
        date,
    }
}

#[test]
fn big_integers_and_blob_sizes_round_trip() {
    let mut store = Store::new();
    let mut p = project_with("edge", 9, None);
    p.specs.asset_price = MicroAlgos(u64::MAX);
    p.specs.shares.count = 9_223_372_036_854_775_808;
    p.shares_asset_id = 9_223_372_036_854_775_807;
    p.central_app_id = u64::MAX - 1;
    p.invest_escrow = EscrowAccount::new(CompiledProgram::new(vec![]));
    p.staking_escrow = EscrowAccount::new(CompiledProgram::new(
        (0..4096).map(|i| (i % 256) as u8).collect(),
    ));
    let id = store.save_project(&p).unwrap();
    let loaded = store.load_project(id).unwrap();
    assert_eq!(p, loaded);
}

#[test]
fn generated_ids_are_distinct() {
    let mut store = Store::new();
    let id1 = store.save_project(&project_with("a", 1, None)).unwrap();
    let id2 = store.save_project(&project_with("b", 2, None)).unwrap();
    let id3 = store.save_project(&project_with("c", 3, None)).unwrap();
    assert_ne!(id1, id2);
    assert_ne!(id1, id3);
    assert_ne!(id2, id3);
}

#[test]
fn load_of_missing_id_is_not_found() {
    let mut store = Store::new();
    store.save_project(&project_with("a", 1, None)).unwrap();
    let r = store.load_project(999);
    assert!(matches!(r, Err(DaoError::NotFound)));
}

#[test]
fn load_by_uuid_finds_the_single_match() {
    let mut store = Store::new();
    let p = project_with("a", 1, None);
    store.save_project(&p).unwrap();
    store.save_project(&project_with("b", 2, None)).unwrap();
    let loaded = store.load_project_with_uuid(&p.uuid).unwrap();
    assert_eq!(p, loaded);
}

#[test]
fn load_by_missing_uuid_is_not_found() {
    let mut store = Store::new();
    store.save_project(&project_with("a", 1, None)).unwrap();
    let other = ExternalId::from_bytes(vec![200u8; 16]).unwrap();
    assert!(matches!(store.load_project_with_uuid(&other), Err(DaoError::NotFound)));
}

#[test]
fn load_by_duplicated_uuid_is_integrity_error() {
    let mut store = Store::new();
    let p = project_with("a", 1, None);
    let mut q = project_with("b", 2, None);
    q.uuid = ExternalId::from_bytes(p.uuid.bytes().clone()).unwrap();
    store.save_project(&p).unwrap();
    store.save_project(&q).unwrap();
    assert!(matches!(store.load_project_with_uuid(&p.uuid), Err(DaoError::IntegrityError)));
}

#[test]
fn withdrawal_for_missing_project_is_integrity_error() {
    let mut store = Store::new();
    let id = store.save_project(&project_with("a", 1, None)).unwrap();
    store.save_withdrawal(&withdrawal(id, 10, "first")).unwrap();

    let r = store.save_withdrawal(&withdrawal(999, 20, "stray"));
    assert!(matches!(r, Err(DaoError::IntegrityError)));

    // the withdrawal table is unchanged
    let ws = store.load_withdrawals(id).unwrap();
    assert_eq!(ws.len(), 1);
    assert_eq!(ws[0].description, "first");
    assert_eq!(store.load_withdrawals(999).unwrap().len(), 0);
}

#[test]
fn withdrawals_load_newest_first() {
    let t1: i64 = 1_000;
    let t2: i64 = 2_000;
    let t3: i64 = 3_000;
    let orders: Vec<Vec<i64>> = vec![
        vec![t1, t2, t3],
        vec![t1, t3, t2],
        vec![t2, t1, t3],
        vec![t2, t3, t1],
        vec![t3, t1, t2],
        vec![t3, t2, t1],
    ];
    for order in orders {
        let mut store = Store::new();
        let id = store.save_project(&project_with("a", 1, None)).unwrap();
        for date in &order {
            store.save_withdrawal(&withdrawal(id, *date, "w")).unwrap();
        }
        let ws = store.load_withdrawals(id).unwrap();
        let dates: Vec<i64> = ws.iter().map(|w| w.date).collect();
        assert_eq!(dates, vec![t3, t2, t1]);
    }
}

#[test]
fn empty_history_loads_as_empty_list() {
    let mut store = Store::new();
    let id = store.save_project(&project_with("a", 1, None)).unwrap();
    assert_eq!(store.load_withdrawals(id).unwrap().len(), 0);
}

#[test]
fn completion_is_idempotent() {
    let mut store = Store::new();
    let id = store.save_project(&project_with("a", 1, None)).unwrap();
    let saved = store.save_withdrawal(&withdrawal(id, 10, "rent")).unwrap();
    assert!(!saved.complete);

    store.complete_withdrawal_request(saved.id).unwrap();
    let once = store.load_withdrawals(id).unwrap();
    assert!(once[0].complete);

    // the second call does not error and affects nothing else
    store.complete_withdrawal_request(saved.id).unwrap();
    let twice = store.load_withdrawals(id).unwrap();
    assert!(twice[0].complete);
    assert_eq!(once, twice);
    assert_eq!(twice[0].description, "rent");
    assert_eq!(twice[0].amount, MicroAlgos(100_000));
    assert_eq!(twice[0].date, 10);
}

#[test]
fn completing_a_missing_id_is_a_silent_no_op() {
    let mut store = Store::new();
    let id = store.save_project(&project_with("a", 1, None)).unwrap();
    store.save_withdrawal(&withdrawal(id, 10, "rent")).unwrap();
    assert!(store.complete_withdrawal_request(424242).is_ok());
    let ws = store.load_withdrawals(id).unwrap();
    assert!(!ws[0].complete);
}

#[test]
fn slot_lists_must_hold_exactly_three_entries() {
    for bad in [0usize, 1, 2, 4] {
        let mut store = Store::new();
        let slots: Vec<u64> = (0..bad as u64).collect();
        let r = store.save_project(&project_with("a", 1, Some(slots)));
        assert!(matches!(r, Err(DaoError::ValidationError)));
        assert!(matches!(store.load_project(1), Err(DaoError::NotFound)));
    }

    let mut store = Store::new();
    let p = project_with("a", 1, Some(vec![11, 22, 33]));
    let id = store.save_project(&p).unwrap();
    let loaded = store.load_project(id).unwrap();
    assert_eq!(p, loaded);
    assert_eq!(loaded.withdrawal_slot_ids, Some(vec![11, 22, 33]));
}

#[test]
fn save_project_service_builds_links() {
    let mut store = Store::new();
    let p = project_with("a", 1, None);
    let pfu = service::save_project(&mut store, &Env::Local, &p).unwrap();
    assert_eq!(pfu.id, "1");
    assert_eq!(pfu.uuid, p.uuid.to_text());
    assert_eq!(pfu.name, "a");
    assert_eq!(pfu.asset_price, MicroAlgos(1_000_000));
    assert_eq!(pfu.invest_link, "http://localhost:3000/invest/1");
    assert_eq!(pfu.my_investment_link, "http://localhost:3000/investment/1");
    assert_eq!(pfu.project_link, "http://localhost:3000/project/1");
    assert_eq!(pfu.creator.to_text(), p.creator.to_text());
}

#[test]
fn load_project_services_round_trip() {
    let mut store = Store::new();
    let p = project_with("a", 1, None);
    service::save_project(&mut store, &Env::Test, &p).unwrap();

    let direct = service::load_project(&store, "1").unwrap();
    assert_eq!(p, direct);

    let by_uuid = service::load_project_with_uuid(&store, &p.uuid.to_text()).unwrap();
    assert_eq!(p, by_uuid);

    let pfu = service::load_project_for_users(&store, &Env::Test, "1").unwrap();
    assert_eq!(pfu.invest_link, "http://test.app.capi.money/invest/1");

    let pfu2 = service::load_project_for_users_with_uuid(
        &store,
        &Env::Test,
        &p.uuid.to_text(),
    )
    .unwrap();
    assert_eq!(pfu2.id, "0");
    assert_eq!(pfu2.name, "a");
}

#[test]
fn load_project_service_rejects_malformed_ids() {
    let store = Store::new();
    assert!(matches!(
        service::load_project(&store, "abc"),
        Err(DaoError::ValidationError)
    ));
    assert!(matches!(
        service::load_project(&store, "7"),
        Err(DaoError::NotFound)
    ));
    assert!(matches!(
        service::load_project_with_uuid(&store, "not-a-uuid"),
        Err(DaoError::EncodingFailure)
    ));
}

#[test]
fn save_withdrawal_service_stamps_a_timestamp() {
    let mut store = Store::new();
    let id = store.save_project(&project_with("a", 1, None)).unwrap();
    let inputs = WithdrawalInputs {
        project_id: id.to_string(),
        amount: MicroAlgos(55),
        description: "supplies".to_string(),
    };
    let saved = service::save_withdrawal(&mut store, &inputs).unwrap();
    assert_eq!(saved.project_id, id);
    assert_eq!(saved.amount, MicroAlgos(55));
    assert_eq!(saved.description, "supplies");
    assert!(!saved.complete);

    let ws = service::load_withdrawals(&store, &id.to_string()).unwrap();
    assert_eq!(ws.len(), 1);
    assert_eq!(ws[0], saved);

    let bad = WithdrawalInputs {
        project_id: "xx".to_string(),
        amount: MicroAlgos(1),
        description: "d".to_string(),
    };
    assert!(matches!(
        service::save_withdrawal(&mut store, &bad),
        Err(DaoError::ValidationError)
    ));
}

#[test]
fn environment_flag_selects_the_target() {
    assert_eq!(environment_from_flag("1"), Env::Test);
    assert_eq!(environment_from_flag("0"), Env::Local);
    assert_eq!(environment_from_flag(""), Env::Local);
    assert_eq!(frontend_host(&Env::Local), "http://localhost:3000");
    assert_eq!(frontend_host(&Env::Test), "http://test.app.capi.money");
}
