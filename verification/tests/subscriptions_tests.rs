use suberra::admin::AdminConfig;
use suberra::subscriptions::{
    compute_amount_chargeable, execute_cancel, execute_charge, execute_modify_subscriber,
    execute_pause, execute_remove_subscriber, execute_set_discount, execute_subscribe,
    execute_update_admins, execute_work, instantiate, is_subscription_active,
    query_config, query_subscription, query_subscriptions, read_subscription_info, update_config,
    Config, ContractError, Discount, FeeConfig, JobsRegistryExecuteMsg, OutboundMsg,
    ProductInstantiateMsg, SubWalletExecuteMsg, SubscriptionInfo, WorkPayload,
};
use suberra::table::Table;

const CREATOR: u64 = 1;
const RECEIVER: u64 = 2;
const FACTORY: u64 = 3;
const ANYONE: u64 = 4;
const FEE_ADDRESS: u64 = 7;
const CARL: u64 = 8;
const JOB_REGISTRY: u64 = 9;
const SUBSCRIBER: u64 = 10;
const SUBSCRIBER2: u64 = 11;
const WORKER: u64 = 12;

const THIRTY_DAYS_IN_SECONDS: u64 = 60 * 60 * 720;
const DEFAULT_GRACE_PERIOD: u64 = 86400;
const START: u64 = 1609459200;

fn default_msg() -> ProductInstantiateMsg {
    ProductInstantiateMsg {
        receiver_address: RECEIVER,
        unit_amount: 123,
        initial_amount: 123,
        unit_interval_hour: 720,
        additional_grace_period_hour: None,
        uri: String::from("{\"image_url\": \"www.example.com\" }"),
        owner: CREATOR,
        admins: Vec::new(),
        mutable: false,
        factory_address: FACTORY,
    }
}

fn no_fee() -> FeeConfig {
    FeeConfig { protocol_fee_bps: 0, min_protocol_fee: 0, fee_address: FEE_ADDRESS }
}

fn transfer(wallet: u64, recipient: u64, amount: u128) -> OutboundMsg {
    OutboundMsg::SubWallet {
        wallet,
        msg: SubWalletExecuteMsg::TransferAToken { recipient, amount },
    }
}

fn setup() -> (Table<SubscriptionInfo>, Config, AdminConfig) {
    let (config, admin) = instantiate(default_msg()).unwrap();
    (Table::new(), config, admin)
}

#[test]
fn proper_initialization() {
    let mut msg = default_msg();
    msg.unit_interval_hour = 2592000;
    let (config, _admin) = instantiate(msg).unwrap();
    let value = query_config(&config);
    assert_eq!(false, value.paused);
    assert_eq!(2592000 * 60 * 60, value.unit_interval_seconds);
}

#[test]
fn pause() {
    let mut subs: Table<SubscriptionInfo> = Table::new();
    let (mut config, admin) = instantiate(default_msg()).unwrap();
    assert_eq!(false, query_config(&config).paused);

    // the breaker cannot be flipped by an unauthorised caller
    let res = execute_pause(&mut config, &admin, ANYONE, true);
    assert_eq!(res.unwrap_err(), ContractError::Unauthorized);

    // only the original creator can pause
    execute_pause(&mut config, &admin, CREATOR, true).unwrap();
    let value = query_config(&config);
    assert_eq!(value.owner_address, CREATOR);
    assert_eq!(value.receiver_address, RECEIVER);
    assert_eq!(value.initial_amount, 123);
    assert_eq!(value.additional_grace_period, 0);
    assert_eq!(value.unit_amount, 123);
    assert_eq!(value.unit_interval_seconds, 720 * 60 * 60);
    assert_eq!(value.paused, true);

    let res = execute_charge(&mut subs, &config, &no_fee(), SUBSCRIBER, START, None);
    assert_eq!(res.unwrap_err(), ContractError::Paused);

    let res = execute_subscribe(&mut subs, &config, &no_fee(), CREATOR, START);
    assert_eq!(res.unwrap_err(), ContractError::Paused);
}

#[test]
fn unpause() {
    let (mut config, admin) = instantiate(default_msg()).unwrap();
    execute_pause(&mut config, &admin, CREATOR, true).unwrap();
    assert_eq!(query_config(&config).paused, true);

    // the contract cannot be paused again
    let res = execute_pause(&mut config, &admin, CREATOR, true);
    assert_eq!(res.unwrap_err(), ContractError::Paused);

    // unpause
    execute_pause(&mut config, &admin, CREATOR, false).unwrap();
    assert_eq!(query_config(&config).paused, false);

    // cannot unpause an unpaused contract
    let res = execute_pause(&mut config, &admin, CREATOR, false);
    assert_eq!(res.unwrap_err(), ContractError::Unpaused);
}

#[test]
fn simple_subscribe() {
    let (mut subs, config, _admin) = setup();

    let res = execute_subscribe(&mut subs, &config, &no_fee(), SUBSCRIBER, START).unwrap();
    assert_eq!(res.messages, vec![transfer(SUBSCRIBER, RECEIVER, 123)]);

    let subscriptions = query_subscriptions(&subs, None, None);
    assert_eq!(subscriptions.subscriptions.len(), 1);

    let _res = execute_subscribe(&mut subs, &config, &no_fee(), SUBSCRIBER2, START).unwrap();
    let subscriptions = query_subscriptions(&subs, None, None);
    assert_eq!(subscriptions.subscriptions.len(), 2);

    // fast-forward one billing cycle: the charge collects one period
    let now = START + THIRTY_DAYS_IN_SECONDS;
    let res = execute_charge(&mut subs, &config, &no_fee(), SUBSCRIBER, now, None).unwrap();
    assert_eq!(res.messages, vec![transfer(SUBSCRIBER, RECEIVER, 123)]);

    let info = query_subscription(&subs, &config, now, SUBSCRIBER).unwrap();
    assert_eq!(info.subscriber, SUBSCRIBER);
    assert_eq!(info.created_at, START);
    assert_eq!(info.last_charged, START + THIRTY_DAYS_IN_SECONDS);
    assert_eq!(info.interval_end_at, START + 2 * THIRTY_DAYS_IN_SECONDS);
    assert_eq!(info.is_cancelled, false);
    assert_eq!(info.is_active, true);
    assert_eq!(info.discount_per_interval, None);
    assert_eq!(info.amount_chargeable, Some(0));

    // two unpaid cycles later the subscription has lapsed past grace
    let now = info.interval_end_at + THIRTY_DAYS_IN_SECONDS + 1;
    let res = execute_charge(&mut subs, &config, &no_fee(), SUBSCRIBER, now, None);
    assert_eq!(res.unwrap_err(), ContractError::CannotCharge);
}

#[test]
fn query_subscriber() {
    let mut msg = default_msg();
    msg.additional_grace_period_hour = Some(720);
    let (config, _admin) = instantiate(msg).unwrap();
    let mut subs: Table<SubscriptionInfo> = Table::new();

    let res = execute_subscribe(&mut subs, &config, &no_fee(), SUBSCRIBER, START).unwrap();
    assert_eq!(res.messages.len(), 1);

    let info = query_subscription(&subs, &config, START, SUBSCRIBER).unwrap();
    assert_eq!(info.is_active, true);

    // exactly 30 days later: still within the paid period boundary
    let info = query_subscription(&subs, &config, START + 2592000, SUBSCRIBER).unwrap();
    assert_eq!(info.is_active, true);

    // within the extended grace period
    let info = query_subscription(&subs, &config, START + 5184000, SUBSCRIBER).unwrap();
    assert_eq!(info.is_active, true);

    // past the grace period: no longer active
    let info =
        query_subscription(&subs, &config, START + 5184001 + DEFAULT_GRACE_PERIOD, SUBSCRIBER)
            .unwrap();
    assert_eq!(info.is_active, false);
}

#[test]
fn subscribe_multiple_times() {
    let (mut subs, config, _admin) = setup();

    execute_subscribe(&mut subs, &config, &no_fee(), SUBSCRIBER, START).unwrap();
    let info = query_subscription(&subs, &config, START, SUBSCRIBER).unwrap();
    assert_eq!(info.subscriber, SUBSCRIBER);
    assert_eq!(info.is_active, true);
    let prev_timestamp = info.created_at;

    // subscribing again while a live subscription exists fails and changes nothing
    let mid = 1610668800;
    let res = execute_subscribe(&mut subs, &config, &no_fee(), SUBSCRIBER, mid);
    assert_eq!(res.unwrap_err(), ContractError::ExistingSubscriptionFound);
    let info = query_subscription(&subs, &config, mid, SUBSCRIBER).unwrap();
    assert_eq!(info.created_at, prev_timestamp);

    // after the previous subscription fully lapsed, a fresh record replaces it
    let new_timestamp = 1614470400;
    execute_subscribe(&mut subs, &config, &no_fee(), SUBSCRIBER, new_timestamp).unwrap();
    let info = query_subscription(&subs, &config, new_timestamp, SUBSCRIBER).unwrap();
    assert_eq!(info.created_at, new_timestamp);
}

#[test]
fn unpaid_subscriptions() {
    let (mut subs, config, _admin) = setup();

    execute_subscribe(&mut subs, &config, &no_fee(), SUBSCRIBER, START).unwrap();
    let info = query_subscription(&subs, &config, START, SUBSCRIBER).unwrap();
    assert_eq!(info.subscriber, SUBSCRIBER);
    assert_eq!(info.is_active, true);

    // unpaid past the grace period: inactive, nothing chargeable
    let now = START + THIRTY_DAYS_IN_SECONDS + 1 + DEFAULT_GRACE_PERIOD;
    let info = query_subscription(&subs, &config, now, SUBSCRIBER).unwrap();
    assert_eq!(info.is_active, false);
    assert_eq!(info.amount_chargeable, Some(0));
    assert_eq!(suberra::subscriptions::query_can_work(&subs, &config, now, SUBSCRIBER), false);

    let now = START + (1500 * 60 * 60) + 1;
    let info = query_subscription(&subs, &config, now, SUBSCRIBER).unwrap();
    assert_eq!(info.is_active, false);
    assert_eq!(info.amount_chargeable, Some(0));
}

#[test]
fn cancel_subscription() {
    let mut msg = default_msg();
    msg.additional_grace_period_hour = Some(259200);
    let (config, _admin) = instantiate(msg).unwrap();
    let mut subs: Table<SubscriptionInfo> = Table::new();

    execute_subscribe(&mut subs, &config, &no_fee(), SUBSCRIBER, START).unwrap();

    execute_cancel(&mut subs, &config, SUBSCRIBER).unwrap();
    let info = query_subscription(&subs, &config, START, SUBSCRIBER).unwrap();
    assert_eq!(info.is_cancelled, true);
    // still active until the end of the paid period, even though cancelled
    assert_eq!(info.is_active, true);

    // past the paid period a cancelled subscription gets no grace
    let now = START + THIRTY_DAYS_IN_SECONDS + 1;
    let info = query_subscription(&subs, &config, now, SUBSCRIBER).unwrap();
    assert_eq!(info.is_cancelled, true);
    assert_eq!(info.is_active, false);

    let res = execute_charge(&mut subs, &config, &no_fee(), SUBSCRIBER, now, None);
    assert_eq!(res.unwrap_err(), ContractError::SubscriptionCancelled);

    // cancelling twice fails
    let res = execute_cancel(&mut subs, &config, SUBSCRIBER);
    assert_eq!(res.unwrap_err(), ContractError::SubscriptionCancelled);
}

#[test]
fn remove_subscriber() {
    let mut msg = default_msg();
    msg.additional_grace_period_hour = Some(259200);
    let (config, admin) = instantiate(msg).unwrap();
    let mut subs: Table<SubscriptionInfo> = Table::new();

    execute_subscribe(&mut subs, &config, &no_fee(), SUBSCRIBER, START).unwrap();

    // an unauthorised caller cannot remove a subscriber
    let res = execute_remove_subscriber(&mut subs, &config, &admin, ANYONE, SUBSCRIBER);
    assert_eq!(res.unwrap_err(), ContractError::Unauthorized);

    // removing an unknown subscriber fails
    let res = execute_remove_subscriber(&mut subs, &config, &admin, CREATOR, CARL);
    assert_eq!(res.unwrap_err(), ContractError::SubscriptionNotFound);

    execute_remove_subscriber(&mut subs, &config, &admin, CREATOR, SUBSCRIBER).unwrap();
    assert_eq!(query_subscription(&subs, &config, START, SUBSCRIBER), None);
    assert_eq!(read_subscription_info(&subs, SUBSCRIBER), None);
}

#[test]
fn modify_subscriber() {
    let mut msg = default_msg();
    msg.additional_grace_period_hour = Some(259200);
    let (config, admin) = instantiate(msg).unwrap();
    let mut subs: Table<SubscriptionInfo> = Table::new();

    execute_subscribe(&mut subs, &config, &no_fee(), SUBSCRIBER, START).unwrap();

    // an unauthorised caller cannot modify a subscriber
    let res = execute_modify_subscriber(
        &mut subs, &config, &admin, ANYONE, START, None, None, None, SUBSCRIBER,
    );
    assert_eq!(res.unwrap_err(), ContractError::Unauthorized);

    execute_modify_subscriber(
        &mut subs, &config, &admin, CREATOR, START, None, None, None, SUBSCRIBER,
    )
    .unwrap();

    let info = query_subscription(&subs, &config, START, SUBSCRIBER).unwrap();
    assert_eq!(info.subscriber, SUBSCRIBER);
    assert_eq!(info.created_at, 1609459200);
    assert_eq!(info.last_charged, 1609459200);
    assert_eq!(info.interval_end_at, 1612051200);
    assert_eq!(info.is_active, true);
    assert_eq!(info.is_cancelled, false);
    assert_eq!(info.discount_per_interval, None);
    assert_eq!(info.amount_chargeable, Some(0));

    // future creation time is rejected
    let res = execute_modify_subscriber(
        &mut subs, &config, &admin, CREATOR, START, Some(START + 1), None, None, SUBSCRIBER,
    );
    assert_eq!(res.unwrap_err(), ContractError::InvalidParam);

    // past paid-through boundary is rejected
    let res = execute_modify_subscriber(
        &mut subs, &config, &admin, CREATOR, START, None, None, Some(START), SUBSCRIBER,
    );
    assert_eq!(res.unwrap_err(), ContractError::InvalidParam);

    // future last-charge time is rejected
    let res = execute_modify_subscriber(
        &mut subs, &config, &admin, CREATOR, START, None, Some(START + 1), None, SUBSCRIBER,
    );
    assert_eq!(res.unwrap_err(), ContractError::InvalidParam);
}

#[test]
fn test_discount() {
    let mut msg = default_msg();
    msg.additional_grace_period_hour = Some(259200);
    let (config, admin) = instantiate(msg).unwrap();
    let mut subs: Table<SubscriptionInfo> = Table::new();

    execute_subscribe(&mut subs, &config, &no_fee(), SUBSCRIBER, START).unwrap();

    let discount = Some(Discount { amount: 23 });

    // a subscriber cannot set its own discount
    execute_set_discount(&mut subs, &config, &admin, SUBSCRIBER, discount, SUBSCRIBER)
        .unwrap_err();

    // only an owner or admin can
    execute_set_discount(&mut subs, &config, &admin, CREATOR, discount, SUBSCRIBER).unwrap();

    // a discount above the unit amount is rejected
    let res = execute_set_discount(
        &mut subs,
        &config,
        &admin,
        CREATOR,
        Some(Discount { amount: 124 }),
        SUBSCRIBER,
    );
    assert_eq!(res.unwrap_err(), ContractError::InvalidDiscount);

    // one billing cycle later the charge is net of the discount
    let now = START + THIRTY_DAYS_IN_SECONDS;
    let res = execute_charge(&mut subs, &config, &no_fee(), SUBSCRIBER, now, None).unwrap();
    assert_eq!(res.messages, vec![transfer(SUBSCRIBER, RECEIVER, 100)]);
}

#[test]
fn update_initial_amount_and_subscribe() {
    let mut msg = default_msg();
    msg.additional_grace_period_hour = Some(259200);
    let (mut config, admin) = instantiate(msg).unwrap();
    let mut subs: Table<SubscriptionInfo> = Table::new();

    // an unauthorised caller cannot update the settings
    let res = update_config(
        &mut config, &admin, ANYONE, None, Some(100), None, None,
    );
    assert_eq!(res.unwrap_err(), ContractError::Unauthorized);

    update_config(&mut config, &admin, CREATOR, None, Some(100), None, None).unwrap();
    assert_eq!(config.initial_amount, 100);

    // the next subscription charges the new initial amount
    let res = execute_subscribe(&mut subs, &config, &no_fee(), SUBSCRIBER, START).unwrap();
    assert_eq!(res.messages, vec![transfer(SUBSCRIBER, RECEIVER, 100)]);
}

#[test]
fn update_admins() {
    let mut msg = default_msg();
    msg.additional_grace_period_hour = Some(259200);
    let (config, mut admin) = instantiate(msg).unwrap();

    let admins = suberra::admin::query_admin_list(&admin);
    assert_eq!(admins.owner, CREATOR);
    assert_eq!(admins.admins, Vec::<u64>::new());
    assert_eq!(admins.mutable, false);
    assert_eq!(suberra::admin::query_owner(&admin), CREATOR);

    // an unauthorised caller cannot update the admins
    let res = execute_update_admins(&mut admin, &config, ANYONE, vec![6]);
    assert_eq!(res.unwrap_err(), ContractError::Unauthorized);

    execute_update_admins(&mut admin, &config, CREATOR, vec![6]).unwrap();
    let actual = suberra::admin::query_admin_list(&admin);
    assert_eq!(actual.owner, CREATOR);
    assert_eq!(actual.admins, vec![6]);
    assert_eq!(actual.mutable, false);
}

#[test]
fn cancel_and_undo() {
    let mut msg = default_msg();
    msg.additional_grace_period_hour = Some(259200);
    let (config, _admin) = instantiate(msg).unwrap();
    let mut subs: Table<SubscriptionInfo> = Table::new();

    execute_subscribe(&mut subs, &config, &no_fee(), SUBSCRIBER, START).unwrap();
    execute_cancel(&mut subs, &config, SUBSCRIBER).unwrap();

    let info = query_subscription(&subs, &config, START, SUBSCRIBER).unwrap();
    assert_eq!(info.is_cancelled, true);
    assert_eq!(info.is_active, true);

    // re-subscribing before expiry undoes the cancellation in place:
    // no period reset and no new initial charge
    let now = START + 200 * 60 * 60;
    let res = execute_subscribe(&mut subs, &config, &no_fee(), SUBSCRIBER, now).unwrap();
    assert_eq!(res.messages, Vec::<OutboundMsg>::new());

    let info = query_subscription(&subs, &config, now, SUBSCRIBER).unwrap();
    assert_eq!(info.subscriber, SUBSCRIBER);
    assert_eq!(info.created_at, START);
    assert_eq!(info.last_charged, START);
    assert_eq!(info.interval_end_at, START + THIRTY_DAYS_IN_SECONDS);
    assert_eq!(info.is_cancelled, false);
    assert_eq!(info.is_active, true);
    assert_eq!(info.discount_per_interval, None);
    assert_eq!(info.amount_chargeable, Some(0));
}

#[test]
fn test_compute_amount_chargeable() {
    // charge $1 per minute
    let config = Config {
        owner_address: CREATOR,
        receiver_address: RECEIVER,
        additional_grace_period: 0,
        paused: false,
        unit_amount: 1000000,
        initial_amount: 1000000,
        unit_interval: 60,
        uri: String::from("{\"image_url\": \"www.example.com\" }"),
        factory_address: FACTORY,
    };
    let subscription_info = SubscriptionInfo {
        owner: SUBSCRIBER,
        created_at: 100000,
        last_charged: 100000,
        interval_end_at: 100060,
        is_cancelled: false,
        discount_per_interval: None,
    };
    // charge after 10 minutes
    let amount_chargeable = compute_amount_chargeable(&config, &subscription_info, 100659);
    assert_eq!(amount_chargeable.amount, 10_000_000);

    // charge $1 every 5 minutes
    let config = Config { unit_interval: 300, ..config };
    let subscription_info =
        SubscriptionInfo { interval_end_at: 100300, ..subscription_info };
    // nothing due after 1 minute
    let amount_chargeable = compute_amount_chargeable(&config, &subscription_info, 100060);
    assert_eq!(amount_chargeable.amount, 0);
    assert_eq!(amount_chargeable.number_of_intervals, 0);
}

#[test]
fn subscribe_with_fees() {
    // 1% fee
    let fee = FeeConfig { protocol_fee_bps: 100, min_protocol_fee: 0, fee_address: FEE_ADDRESS };
    let mut msg = default_msg();
    msg.unit_amount = 1000;
    msg.initial_amount = 1000;
    let (config, _admin) = instantiate(msg).unwrap();
    let mut subs: Table<SubscriptionInfo> = Table::new();

    let res = execute_subscribe(&mut subs, &config, &fee, SUBSCRIBER, START).unwrap();
    assert_eq!(
        res.messages,
        vec![
            transfer(SUBSCRIBER, FEE_ADDRESS, 10),
            transfer(SUBSCRIBER, RECEIVER, 990),
        ]
    );
}

#[test]
fn test_charge() {
    // 0.5% fee
    let fee = FeeConfig { protocol_fee_bps: 50, min_protocol_fee: 0, fee_address: FEE_ADDRESS };
    let mut msg = default_msg();
    msg.unit_amount = 1000;
    msg.initial_amount = 1000;
    let (config, _admin) = instantiate(msg).unwrap();
    let mut subs: Table<SubscriptionInfo> = Table::new();

    execute_subscribe(&mut subs, &config, &fee, SUBSCRIBER, START).unwrap();

    let now = START + THIRTY_DAYS_IN_SECONDS;
    let res = execute_charge(&mut subs, &config, &fee, SUBSCRIBER, now, None).unwrap();
    assert_eq!(
        res.messages,
        vec![
            transfer(SUBSCRIBER, FEE_ADDRESS, 5),
            transfer(SUBSCRIBER, RECEIVER, 995),
        ]
    );
}

#[test]
fn test_charge_with_min_fees() {
    // a tiny rate with an absolute floor: the floor wins
    let fee = FeeConfig { protocol_fee_bps: 1, min_protocol_fee: 100, fee_address: FEE_ADDRESS };
    let mut msg = default_msg();
    msg.unit_amount = 1000;
    msg.initial_amount = 1000;
    let (config, _admin) = instantiate(msg).unwrap();
    let mut subs: Table<SubscriptionInfo> = Table::new();

    execute_subscribe(&mut subs, &config, &fee, SUBSCRIBER, START).unwrap();

    let now = START + THIRTY_DAYS_IN_SECONDS;
    let res = execute_charge(&mut subs, &config, &fee, SUBSCRIBER, now, None).unwrap();
    assert_eq!(
        res.messages,
        vec![
            transfer(SUBSCRIBER, FEE_ADDRESS, 100),
            transfer(SUBSCRIBER, RECEIVER, 900),
        ]
    );
}

#[test]
fn query_can_work() {
    let (mut subs, config, _admin) = setup();

    execute_subscribe(&mut subs, &config, &no_fee(), SUBSCRIBER, START).unwrap();

    // 300 hours in: nothing due yet
    let now = START + 300 * 60 * 60;
    assert_eq!(suberra::subscriptions::query_can_work(&subs, &config, now, SUBSCRIBER), false);

    // one full cycle later there is work
    let now = START + (720 * 60 * 60) + 1;
    assert_eq!(suberra::subscriptions::query_can_work(&subs, &config, now, SUBSCRIBER), true);

    // an unknown subscriber is never work
    assert_eq!(suberra::subscriptions::query_can_work(&subs, &config, now, CARL), false);
}

#[test]
fn worker_charge_emits_receipt() {
    let (mut subs, config, _admin) = setup();
    execute_subscribe(&mut subs, &config, &no_fee(), SUBSCRIBER, START).unwrap();

    let now = START + THIRTY_DAYS_IN_SECONDS;
    let res =
        execute_work(&mut subs, &config, &no_fee(), JOB_REGISTRY, WORKER, SUBSCRIBER, now)
            .unwrap();
    assert_eq!(
        res.messages,
        vec![
            transfer(SUBSCRIBER, RECEIVER, 123),
            OutboundMsg::JobsRegistry {
                registry: JOB_REGISTRY,
                msg: JobsRegistryExecuteMsg::WorkReceipt { worker_address: WORKER },
            },
        ]
    );
}

#[test]
fn charge_twice_at_same_instant_collects_once() {
    // the no-catch-up-overcharge scenario: unit 1000, interval 3600, no discount
    let config = Config {
        owner_address: CREATOR,
        receiver_address: RECEIVER,
        additional_grace_period: 0,
        paused: false,
        unit_amount: 1000,
        initial_amount: 0,
        unit_interval: 3600,
        uri: String::new(),
        factory_address: FACTORY,
    };
    let last_charged = 100000;
    let sub = SubscriptionInfo {
        owner: SUBSCRIBER,
        created_at: last_charged,
        last_charged,
        interval_end_at: last_charged + 3600,
        is_cancelled: false,
        discount_per_interval: None,
    };

    // at last_charged + 3600 exactly one period of 1000 is due
    let r = compute_amount_chargeable(&config, &sub, last_charged + 3600);
    assert_eq!((r.amount, r.number_of_intervals), (1000, 1));

    // at last_charged + 10799: two full periods, 2999 seconds short of a third
    let r = compute_amount_chargeable(&config, &sub, last_charged + 10799);
    assert_eq!((r.amount, r.number_of_intervals), (2000, 2));

    // a second charge at the same instant collects nothing
    let mut subs: Table<SubscriptionInfo> = Table::new();
    subs.save(SUBSCRIBER, sub);
    let now = last_charged + 10799;
    execute_charge(&mut subs, &config, &no_fee(), SUBSCRIBER, now, None).unwrap();
    let res = execute_charge(&mut subs, &config, &no_fee(), SUBSCRIBER, now, None);
    assert_eq!(res.unwrap_err(), ContractError::NoCharge);

    // and the checkpoint advanced by an exact multiple of the interval
    let stored = read_subscription_info(&subs, SUBSCRIBER).unwrap();
    assert_eq!(stored.interval_end_at, last_charged + 3600 + 2 * 3600);
}

#[test]
fn charge_rejects_invalid_fee_terms() {
    let (mut subs, config, _admin) = setup();
    execute_subscribe(&mut subs, &config, &no_fee(), SUBSCRIBER, START).unwrap();
    let now = START + THIRTY_DAYS_IN_SECONDS;

    // a rate above 100% is invalid
    let bad_rate =
        FeeConfig { protocol_fee_bps: 10001, min_protocol_fee: 0, fee_address: FEE_ADDRESS };
    let res = execute_charge(&mut subs, &config, &bad_rate, SUBSCRIBER, now, None);
    assert_eq!(res.unwrap_err(), ContractError::InvalidFee);

    // a floor above the charged amount is invalid
    let bad_floor =
        FeeConfig { protocol_fee_bps: 10, min_protocol_fee: 124, fee_address: FEE_ADDRESS };
    let res = execute_charge(&mut subs, &config, &bad_floor, SUBSCRIBER, now, None);
    assert_eq!(res.unwrap_err(), ContractError::InvalidFee);

    // a missing subscriber cannot be charged
    let res = execute_charge(&mut subs, &config, &no_fee(), CARL, now, None);
    assert_eq!(res.unwrap_err(), ContractError::SubscriptionNotFound);
}

#[test]
fn product_execute_routes_each_operation() {
    let (mut subs, mut config, mut admin) = setup();
    let fee = no_fee();

    let res = suberra::subscriptions::execute(
        &mut subs,
        &mut config,
        &mut admin,
        &fee,
        JOB_REGISTRY,
        SUBSCRIBER,
        START,
        suberra::subscriptions::ExecuteMsg::Subscribe {},
    )
    .unwrap();
    assert_eq!(res.messages, vec![transfer(SUBSCRIBER, RECEIVER, 123)]);

    let now = START + THIRTY_DAYS_IN_SECONDS;
    let res = suberra::subscriptions::execute(
        &mut subs,
        &mut config,
        &mut admin,
        &fee,
        JOB_REGISTRY,
        WORKER,
        now,
        suberra::subscriptions::ExecuteMsg::Work {
            payload: WorkPayload { payer_address: SUBSCRIBER },
        },
    )
    .unwrap();
    assert_eq!(
        res.messages,
        vec![
            transfer(SUBSCRIBER, RECEIVER, 123),
            OutboundMsg::JobsRegistry {
                registry: JOB_REGISTRY,
                msg: JobsRegistryExecuteMsg::WorkReceipt { worker_address: WORKER },
            },
        ]
    );

    let res = suberra::subscriptions::execute(
        &mut subs,
        &mut config,
        &mut admin,
        &fee,
        JOB_REGISTRY,
        SUBSCRIBER,
        now,
        suberra::subscriptions::ExecuteMsg::Cancel {},
    )
    .unwrap();
    assert_eq!(res.messages, Vec::<OutboundMsg>::new());
    assert!(read_subscription_info(&subs, SUBSCRIBER).unwrap().is_cancelled);

    // routing hits the same checks as the handlers themselves
    let res = suberra::subscriptions::execute(
        &mut subs,
        &mut config,
        &mut admin,
        &fee,
        JOB_REGISTRY,
        ANYONE,
        now,
        suberra::subscriptions::ExecuteMsg::Pause {},
    );
    assert_eq!(res.unwrap_err(), ContractError::Unauthorized);
}

#[test]
fn subscription_pagination_pages_align() {
    let (mut subs, config, _admin) = setup();
    for i in 0..25u64 {
        execute_subscribe(&mut subs, &config, &no_fee(), 100 + i, START).unwrap();
    }
    // one unbounded listing (cap 30)
    let all = query_subscriptions(&subs, None, Some(30));
    assert_eq!(all.subscriptions.len(), 25);

    // walking pages of 10 yields the same records in the same order
    let mut walked: Vec<SubscriptionInfo> = Vec::new();
    let mut cursor: Option<u64> = None;
    loop {
        let page = query_subscriptions(&subs, cursor, Some(10));
        if page.subscriptions.is_empty() {
            break;
        }
        cursor = Some(page.subscriptions.last().unwrap().owner);
        walked.extend(page.subscriptions);
    }
    assert_eq!(walked, all.subscriptions);

    // default page size is 10
    let page = query_subscriptions(&subs, None, None);
    assert_eq!(page.subscriptions.len(), 10);

    // grace: the discount validator and activity check agree with the spec
    assert!(suberra::subscriptions::is_valid_discount(Some(Discount { amount: 123 }), 123));
    assert!(!suberra::subscriptions::is_valid_discount(Some(Discount { amount: 124 }), 123));
    let sub = walked[0];
    assert!(is_subscription_active(&config, &sub, START));
}
