use suberra::agreements::{
    compute_fees, compute_status, has_charge, instantiate, query_agreement,
    query_all_agreements, query_all_agreements_by_owner, query_all_agreements_by_receiver,
    query_can_work, query_config, query_overdue_agreements, try_cancel, try_create_agreement,
    try_terminate, try_transfer, try_work, update_config, Agreement, AgreementStatus, Config,
    ContractError, InstantiateMsg,
};
use suberra::subscriptions::{JobsRegistryExecuteMsg, OutboundMsg, SubWalletExecuteMsg};
use suberra::table::Table;

const CREATOR: u64 = 1;
const JOB_REGISTRY: u64 = 2;
const ALICE: u64 = 3;
const BOB: u64 = 4;
const CHARLIE: u64 = 5;
const MALLORY: u64 = 6;
const FEE_COLLECTOR: u64 = 7;
const NEW_OWNER: u64 = 8;
const NEW_JOB_REGISTRY: u64 = 9;
const BOT: u64 = 10;

const HOUR_SECONDS: u64 = 3600;
const DAY_SECONDS: u64 = 86400;
const START: u64 = 1609459200;

fn default_init() -> InstantiateMsg {
    InstantiateMsg {
        job_registry_contract: Some(JOB_REGISTRY),
        minimum_interval: HOUR_SECONDS,
        minimum_amount_per_interval: 1_000_000,
        fee_bps: None,
        fee_address: None,
        max_fee: None,
    }
}

fn transfer(wallet: u64, recipient: u64, amount: u128) -> OutboundMsg {
    OutboundMsg::SubWallet {
        wallet,
        msg: SubWalletExecuteMsg::TransferAToken { recipient, amount },
    }
}

#[test]
fn tests_proper_initialization() {
    let config = instantiate(default_init(), CREATOR).unwrap();
    assert_eq!(
        query_config(&config),
        Config {
            owner: CREATOR,
            job_registry_contract: Some(JOB_REGISTRY),
            minimum_interval: HOUR_SECONDS,
            minimum_amount_per_interval: 1_000_000,
            fee_bps: 0,
            fee_address: CREATOR,
            max_fee: 0,
        }
    );
}

#[test]
fn create_agreement() {
    let config = instantiate(default_init(), CREATOR).unwrap();
    let mut agreements: Table<Agreement> = Table::new();
    let mut last_id: u64 = 0;

    // anyone can create a transfer to another account; the first payment
    // is charged immediately
    let res = try_create_agreement(
        &mut agreements, &mut last_id, &config, ALICE, BOB, 1_000_000, None, None, DAY_SECONDS,
        START,
    )
    .unwrap();
    assert_eq!(res.messages, vec![transfer(ALICE, BOB, 1_000_000)]);

    let val = query_agreement(&agreements, 1, START).unwrap();
    assert_eq!(val.amount, 1_000_000);
    assert_eq!(val.created_at, START);
    assert_eq!(val.interval_due_at, START + DAY_SECONDS);
    assert_eq!(val.interval, DAY_SECONDS);
    assert_eq!(val.to, BOB);
    assert_eq!(val.from, ALICE);
    assert_eq!(val.start_at, START);
    assert_eq!(val.end_at, None);
    assert_eq!(val.status, AgreementStatus::Active);
    assert_eq!(val.pending_charge, 0);
    assert_eq!(val.last_charged, START);

    // below the minimum interval
    let res = try_create_agreement(
        &mut agreements, &mut last_id, &config, ALICE, BOB, 1_000_000, None, None, 360, START,
    );
    assert_eq!(res.unwrap_err(), ContractError::InvalidParams);

    // end_at must lie after start_at
    let res = try_create_agreement(
        &mut agreements,
        &mut last_id,
        &config,
        ALICE,
        BOB,
        1_000_000,
        Some(START + 1000),
        Some(START + 1000),
        3600,
        START,
    );
    assert_eq!(res.unwrap_err(), ContractError::InvalidEndtime);

    // paying oneself is rejected
    let res = try_create_agreement(
        &mut agreements, &mut last_id, &config, ALICE, ALICE, 1_000_000, None, None, 3600, START,
    );
    assert_eq!(res.unwrap_err(), ContractError::CannotSetOwnAccount);

    // a transfer starting at a later date charges nothing up front
    let res = try_create_agreement(
        &mut agreements,
        &mut last_id,
        &config,
        ALICE,
        BOB,
        1_000_000,
        Some(START + 1000),
        None,
        DAY_SECONDS,
        START,
    )
    .unwrap();
    assert_eq!(res.messages, vec![]);

    let val = query_agreement(&agreements, 2, START).unwrap();
    assert_eq!(val.interval_due_at, START + 1000);
    assert_eq!(val.start_at, START + 1000);
    assert_eq!(val.status, AgreementStatus::NotStarted);
    assert_eq!(val.pending_charge, 0);
    assert_eq!(val.last_charged, START);
}

#[test]
fn create_and_transfer() {
    let config = instantiate(default_init(), CREATOR).unwrap();
    let mut agreements: Table<Agreement> = Table::new();
    let mut last_id: u64 = 0;

    // below the minimum amount per interval
    let res = try_create_agreement(
        &mut agreements, &mut last_id, &config, ALICE, BOB, 100_000, None, None, HOUR_SECONDS,
        START,
    );
    assert_eq!(res.unwrap_err(), ContractError::InvalidParams);

    try_create_agreement(
        &mut agreements, &mut last_id, &config, ALICE, BOB, 1_000_000, None, None, HOUR_SECONDS,
        START,
    )
    .unwrap();

    // nothing more to transfer right after the initial charge
    let res = try_transfer(&mut agreements, &config, 1, START, None);
    assert_eq!(res.unwrap_err(), ContractError::ZeroTransferableAmount);

    // one hour later the next payment is due
    let now = START + HOUR_SECONDS;
    let res = try_transfer(&mut agreements, &config, 1, now, None).unwrap();
    assert_eq!(res.messages, vec![transfer(ALICE, BOB, 1_000_000)]);

    let val = query_agreement(&agreements, 1, now).unwrap();
    assert_eq!(val.interval_due_at, START + 2 * HOUR_SECONDS);
    assert_eq!(val.status, AgreementStatus::Active);
    assert_eq!(val.pending_charge, 0);
    assert_eq!(val.last_charged, START + HOUR_SECONDS);
}

#[test]
fn create_with_fees() {
    let msg = InstantiateMsg {
        fee_bps: Some(500),
        max_fee: Some(1_000_000),
        ..default_init()
    };
    let config = instantiate(msg, CREATOR).unwrap();
    let mut agreements: Table<Agreement> = Table::new();
    let mut last_id: u64 = 0;

    // $100/hour: the 5% fee is capped at the maximum, paid to the default
    // fee address (the owner)
    let res = try_create_agreement(
        &mut agreements, &mut last_id, &config, ALICE, BOB, 100_000_000, None, None,
        HOUR_SECONDS, START,
    )
    .unwrap();
    assert_eq!(
        res.messages,
        vec![transfer(ALICE, CREATOR, 1_000_000), transfer(ALICE, BOB, 99_000_000)]
    );

    // fees still apply on subsequent transfers
    let now = START + HOUR_SECONDS;
    let res = try_transfer(&mut agreements, &config, 1, now, None).unwrap();
    assert_eq!(
        res.messages,
        vec![transfer(ALICE, CREATOR, 1_000_000), transfer(ALICE, BOB, 99_000_000)]
    );

    // $10/hour: the 5% fee stays under the cap
    let res = try_create_agreement(
        &mut agreements, &mut last_id, &config, ALICE, BOB, 10_000_000, None, None, HOUR_SECONDS,
        START,
    )
    .unwrap();
    assert_eq!(
        res.messages,
        vec![transfer(ALICE, CREATOR, 500_000), transfer(ALICE, BOB, 9_500_000)]
    );
}

#[test]
fn create_and_cancel() {
    let config = instantiate(default_init(), CREATOR).unwrap();
    let mut agreements: Table<Agreement> = Table::new();
    let mut last_id: u64 = 0;

    try_create_agreement(
        &mut agreements, &mut last_id, &config, ALICE, BOB, 1_000_000, None, None, DAY_SECONDS,
        START,
    )
    .unwrap();

    // only the payer can cancel
    let res = try_cancel(&mut agreements, BOB, 1);
    assert_eq!(res.unwrap_err(), ContractError::Unauthorized);

    try_cancel(&mut agreements, ALICE, 1).unwrap();

    // no transfer after cancellation
    let res = try_transfer(&mut agreements, &config, 1, START + DAY_SECONDS, None);
    assert_eq!(res.unwrap_err(), ContractError::AgreementNotFound);

    // cancelling a missing agreement fails
    let res = try_cancel(&mut agreements, ALICE, 1);
    assert_eq!(res.unwrap_err(), ContractError::AgreementNotFound);
}

#[test]
fn test_multiple_agreements() {
    let config = instantiate(default_init(), CREATOR).unwrap();
    let mut agreements: Table<Agreement> = Table::new();
    let mut last_id: u64 = 0;

    // 1: Alice -> Bob, 2: Alice -> Charlie, 3: Bob -> Charlie
    try_create_agreement(
        &mut agreements, &mut last_id, &config, ALICE, BOB, 1_000_000, None, None, 86400, START,
    )
    .unwrap();
    try_create_agreement(
        &mut agreements, &mut last_id, &config, ALICE, CHARLIE, 100_000_000, None, None, 86400,
        START,
    )
    .unwrap();
    try_create_agreement(
        &mut agreements, &mut last_id, &config, BOB, CHARLIE, 9_900_000, None, None, 86400,
        START,
    )
    .unwrap();

    let val = query_all_agreements(&agreements, None, None);
    assert_eq!(val.agreement_ids, vec![1, 2, 3]);
    assert_eq!(val.last_key, Some(3));

    let val = query_all_agreements_by_owner(&agreements, ALICE, None, None);
    assert_eq!(val.agreement_ids, vec![1, 2]);
    assert_eq!(val.last_key, Some(2));

    let val = query_all_agreements_by_receiver(&agreements, BOB, None, None);
    assert_eq!(val.agreement_ids, vec![1]);
    assert_eq!(val.last_key, Some(1));

    let val = query_all_agreements(&agreements, Some(1), Some(2));
    assert_eq!(val.agreement_ids, vec![2, 3]);
    assert_eq!(val.last_key, Some(3));
}

#[test]
fn change_config() {
    let mut config = instantiate(default_init(), CREATOR).unwrap();

    // an unauthorised caller cannot change the settings, and nothing moves
    let res = update_config(
        &mut config,
        MALLORY,
        Some(NEW_JOB_REGISTRY),
        Some(DAY_SECONDS),
        None,
        Some(NEW_OWNER),
        Some(100),
        Some(FEE_COLLECTOR),
        Some(100_000),
    );
    assert_eq!(res.unwrap_err(), ContractError::Unauthorized);
    assert_eq!(config.owner, CREATOR);
    assert_eq!(config.fee_bps, 0);

    // a rate above the maximum is rejected
    let res = update_config(
        &mut config, CREATOR, None, None, None, None, Some(501), None, None,
    );
    assert_eq!(res.unwrap_err(), ContractError::InvalidFee);
    assert_eq!(config.fee_bps, 0);

    // only the owner can change the settings
    update_config(
        &mut config,
        CREATOR,
        Some(NEW_JOB_REGISTRY),
        Some(DAY_SECONDS),
        None,
        Some(NEW_OWNER),
        Some(100),
        Some(FEE_COLLECTOR),
        Some(100_000),
    )
    .unwrap();
    assert_eq!(
        config,
        Config {
            owner: NEW_OWNER,
            job_registry_contract: Some(NEW_JOB_REGISTRY),
            minimum_interval: DAY_SECONDS,
            minimum_amount_per_interval: 1_000_000,
            fee_bps: 100,
            fee_address: FEE_COLLECTOR,
            max_fee: 100_000,
        }
    );
}

#[test]
fn test_charge_lapsed_expiry() {
    let msg = InstantiateMsg { minimum_interval: DAY_SECONDS, ..default_init() };
    let config = instantiate(msg, CREATOR).unwrap();
    let mut agreements: Table<Agreement> = Table::new();
    let mut last_id: u64 = 0;

    // 1: Alice -> Bob, starts in an hour, expires in a week
    try_create_agreement(
        &mut agreements,
        &mut last_id,
        &config,
        ALICE,
        BOB,
        1_000_000,
        Some(START + HOUR_SECONDS),
        Some(START + HOUR_SECONDS + DAY_SECONDS * 7),
        DAY_SECONDS,
        START,
    )
    .unwrap();

    // 2: Bob -> Charlie, starts in 3 days 1 hour, expires in 4 days
    try_create_agreement(
        &mut agreements,
        &mut last_id,
        &config,
        BOB,
        CHARLIE,
        1_000_000,
        Some(START + DAY_SECONDS * 3 + HOUR_SECONDS),
        Some(START + DAY_SECONDS * 4),
        DAY_SECONDS,
        START,
    )
    .unwrap();

    // no charge while not started
    let val = query_agreement(&agreements, 1, START).unwrap();
    assert_eq!(val.status, AgreementStatus::NotStarted);
    assert_eq!(val.pending_charge, 0);

    // a pending charge once started
    let now = START + HOUR_SECONDS;
    let val = query_agreement(&agreements, 1, now).unwrap();
    assert_eq!(val.status, AgreementStatus::Active);
    assert_eq!(val.pending_charge, 1_000_000);

    // settle it: the checkpoint advances by exactly one interval
    let res = try_transfer(&mut agreements, &config, 1, now, None).unwrap();
    assert_eq!(res.messages, vec![transfer(ALICE, BOB, 1_000_000)]);
    let val = query_agreement(&agreements, 1, now).unwrap();
    assert_eq!(val.interval_due_at, START + HOUR_SECONDS + DAY_SECONDS);
    assert_eq!(val.status, AgreementStatus::Active);
    assert_eq!(val.pending_charge, 0);
    assert_eq!(val.last_charged, START + HOUR_SECONDS);

    // a whole interval past the due date: lapsed
    let now = START + HOUR_SECONDS + 2 * DAY_SECONDS + 1;
    let val = query_agreement(&agreements, 1, now).unwrap();
    assert_eq!(val.status, AgreementStatus::Lapsed);
    assert_eq!(val.pending_charge, 0);

    // a lapsed agreement can never be charged again
    let res = try_transfer(&mut agreements, &config, 1, now, None);
    assert_eq!(res.unwrap_err(), ContractError::ZeroTransferableAmount);

    // expiry by time: expired, never lapsed, even with a missed interval
    let now = START + DAY_SECONDS * 4;
    let val = query_agreement(&agreements, 2, now).unwrap();
    assert_eq!(val.status, AgreementStatus::Expired);
    assert_eq!(val.pending_charge, 0);

    // terminating an active agreement is refused; lapsed and expired ones go
    let res = try_terminate(&mut agreements, 1, START + HOUR_SECONDS + DAY_SECONDS);
    assert_eq!(res.unwrap_err(), ContractError::CannotTerminateActiveAgreement);
    try_terminate(&mut agreements, 1, now).unwrap();
    try_terminate(&mut agreements, 2, now).unwrap();
    assert!(query_agreement(&agreements, 1, now).is_err());
}

#[test]
fn test_query_overdued() {
    let msg = InstantiateMsg { minimum_interval: DAY_SECONDS, ..default_init() };
    let config = instantiate(msg, CREATOR).unwrap();
    let mut agreements: Table<Agreement> = Table::new();
    let mut last_id: u64 = 0;

    // #1 starts almost immediately, #2 in 2 hours, #3 in 1 hour
    try_create_agreement(
        &mut agreements, &mut last_id, &config, ALICE, BOB, 1_000_000, Some(START + 1), None,
        DAY_SECONDS, START,
    )
    .unwrap();
    try_create_agreement(
        &mut agreements,
        &mut last_id,
        &config,
        ALICE,
        BOB,
        2_000_000,
        Some(START + 2 * HOUR_SECONDS),
        None,
        DAY_SECONDS,
        START,
    )
    .unwrap();
    try_create_agreement(
        &mut agreements,
        &mut last_id,
        &config,
        ALICE,
        BOB,
        3_000_000,
        Some(START + HOUR_SECONDS),
        None,
        DAY_SECONDS,
        START,
    )
    .unwrap();

    // #4 three hours later, starting (and charged) immediately
    let now = START + 3 * HOUR_SECONDS;
    try_create_agreement(
        &mut agreements, &mut last_id, &config, ALICE, BOB, 3_000_000, None, None, DAY_SECONDS,
        now,
    )
    .unwrap();

    // overdue listing comes back in due-time order
    let val = query_overdue_agreements(&agreements, now, None, None);
    assert_eq!(val.agreement_ids, vec![1, 3, 2]);

    // paginating from a due-time cursor
    let val = query_overdue_agreements(&agreements, now, Some(1609459201), Some(2));
    assert_eq!(val.agreement_ids, vec![3, 2]);

    // charging #1 pushes it out of the overdue window
    try_transfer(&mut agreements, &config, 1, now, None).unwrap();
    let val = query_overdue_agreements(&agreements, now, None, None);
    assert_eq!(val.agreement_ids, vec![3, 2]);
    assert_eq!(val.last_key, Some(1609466400));

    // a day later #2 and #3 have lapsed and drop out of worker sight,
    // while #1 and #4 come due again
    let now = START + 3 * HOUR_SECONDS + DAY_SECONDS;
    let val = query_overdue_agreements(&agreements, now, None, None);
    assert_eq!(val.agreement_ids, vec![1, 4]);
    assert_eq!(val.last_key, Some(START + 3 * HOUR_SECONDS + DAY_SECONDS));
}

#[test]
fn worker_transfer_emits_receipt() {
    let config = instantiate(default_init(), CREATOR).unwrap();
    let mut agreements: Table<Agreement> = Table::new();
    let mut last_id: u64 = 0;

    try_create_agreement(
        &mut agreements, &mut last_id, &config, ALICE, BOB, 1_000_000, None, None, HOUR_SECONDS,
        START,
    )
    .unwrap();

    let now = START + HOUR_SECONDS;
    assert_eq!(query_can_work(&agreements, 1, now), true);
    assert_eq!(query_can_work(&agreements, 1, START), false);
    assert_eq!(query_can_work(&agreements, 99, now), false);

    let res = try_work(&mut agreements, &config, BOT, 1, now).unwrap();
    assert_eq!(
        res.messages,
        vec![
            transfer(ALICE, BOB, 1_000_000),
            OutboundMsg::JobsRegistry {
                registry: JOB_REGISTRY,
                msg: JobsRegistryExecuteMsg::WorkReceipt { worker_address: BOT },
            },
        ]
    );

    // without a registry configured, work fails
    let no_registry = Config { job_registry_contract: None, ..config };
    let res = try_work(&mut agreements, &no_registry, BOT, 1, now + HOUR_SECONDS);
    assert_eq!(res.unwrap_err(), ContractError::NoJobRegistry);
}

#[test]
fn fee_cap_scenario() {
    // rate 500 bps (5%), cap 1_000_000
    let config = Config {
        owner: CREATOR,
        job_registry_contract: None,
        minimum_interval: HOUR_SECONDS,
        minimum_amount_per_interval: 1,
        fee_bps: 500,
        fee_address: FEE_COLLECTOR,
        max_fee: 1_000_000,
    };
    let agreement = Agreement {
        to: BOB,
        from: ALICE,
        amount: 100_000_000,
        created_at: START,
        interval: HOUR_SECONDS,
        interval_due_at: START,
        last_charged: START,
        start_at: START,
        end_at: None,
    };
    // principal 100_000_000: the raw 5% fee of 5_000_000 is capped
    assert_eq!(compute_fees(&config, &agreement), 1_000_000);

    // principal 10_000_000: the 5% fee of 500_000 stays under the cap
    let smaller = Agreement { amount: 10_000_000, ..agreement };
    assert_eq!(compute_fees(&config, &smaller), 500_000);

    // no rate, no fee
    let free = Config { fee_bps: 0, ..config };
    assert_eq!(compute_fees(&free, &agreement), 0);

    // expiry is checked before lapse
    let stale = Agreement {
        end_at: Some(START + 10),
        interval_due_at: START,
        ..agreement
    };
    let now = START + 10 * DAY_SECONDS;
    let status = compute_status(&stale, now);
    assert_eq!(status, AgreementStatus::Expired);
    assert_eq!(has_charge(&stale, status, now), false);
}

#[test]
fn agreement_pagination_pages_align() {
    let config = instantiate(default_init(), CREATOR).unwrap();
    let mut agreements: Table<Agreement> = Table::new();
    let mut last_id: u64 = 0;
    for _ in 0..25 {
        try_create_agreement(
            &mut agreements, &mut last_id, &config, ALICE, BOB, 1_000_000, None, None,
            DAY_SECONDS, START,
        )
        .unwrap();
    }
    let all = query_all_agreements(&agreements, None, Some(30));
    assert_eq!(all.agreement_ids.len(), 25);

    let mut walked: Vec<u64> = Vec::new();
    let mut cursor: Option<u64> = None;
    loop {
        let page = query_all_agreements(&agreements, cursor, Some(10));
        if page.agreement_ids.is_empty() {
            break;
        }
        cursor = page.last_key;
        walked.extend(page.agreement_ids);
    }
    assert_eq!(walked, all.agreement_ids);

    // the page size request is capped at 30
    let capped = query_all_agreements(&agreements, None, Some(1000));
    assert_eq!(capped.agreement_ids.len(), 25);
    assert_eq!(suberra::pagination::calc_limit(Some(1000)), 30);
    assert_eq!(suberra::pagination::calc_limit(None), 10);
    assert!(suberra::fees::validate_protocol_fee(500));
    assert!(!suberra::fees::validate_protocol_fee(501));
}

#[test]
fn p2p_execute_routes_each_operation() {
    let mut config = instantiate(default_init(), CREATOR).unwrap();
    let mut agreements: Table<Agreement> = Table::new();
    let mut last_id: u64 = 0;

    let res = suberra::agreements::execute(
        &mut agreements,
        &mut last_id,
        &mut config,
        ALICE,
        START,
        suberra::agreements::ExecuteMsg::CreateAgreement {
            receiver: BOB,
            amount: 1_000_000,
            start_at: None,
            end_at: None,
            interval: HOUR_SECONDS,
        },
    )
    .unwrap();
    assert_eq!(res.messages, vec![transfer(ALICE, BOB, 1_000_000)]);
    assert_eq!(last_id, 1);

    let now = START + HOUR_SECONDS;
    let res = suberra::agreements::execute(
        &mut agreements,
        &mut last_id,
        &mut config,
        BOT,
        now,
        suberra::agreements::ExecuteMsg::Work {
            payload: suberra::agreements::WorkPayload { agreement_id: 1 },
        },
    )
    .unwrap();
    assert_eq!(res.messages.len(), 2);

    let res = suberra::agreements::execute(
        &mut agreements,
        &mut last_id,
        &mut config,
        ALICE,
        now,
        suberra::agreements::ExecuteMsg::CancelAgreement { agreement_id: 1 },
    )
    .unwrap();
    assert_eq!(res.messages.len(), 0);
    assert!(query_agreement(&agreements, 1, now).is_err());
}
