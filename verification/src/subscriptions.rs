//! Fixed-interval recurring subscriptions.  A product is configured with a
//! billing interval and a unit amount; each subscriber holds one record
//! marking the boundary it has paid through (`interval_end_at`).  Settlement
//! is permissionless and idempotent: anyone may trigger a charge, the amount
//! due is derived fresh from the record and the current time, and the
//! checkpoint advances by whole intervals before the transfer instructions
//! are emitted, so a second attempt in the same state collects nothing.

use vstd::prelude::*;
use crate::admin::AdminConfig;
use crate::fees::{
    calculate_protocol_fee, spec_bps_fee, spec_max_fee, MAX_FEE_DECIMAL,
};
use crate::table::Table;

verus! {

/// Seconds a lapsed subscription remains chargeable past its paid-through
/// boundary before it must be renewed by the subscriber.
pub const DEFAULT_GRACE_PERIOD: u64 = 86400;

/// A flat amount taken off every billing period for one subscriber.
#[derive(Clone, Copy, Debug, PartialEq, Eq, Structural)]
pub struct Discount {
    pub amount: u128,
}

/// One subscriber's record: when it was created, the boundary paid through,
/// the last successful charge, an optional per-period discount, and whether
/// the subscriber has cancelled.
#[derive(Clone, Copy, Debug, PartialEq, Eq, Structural)]
pub struct SubscriptionInfo {
    pub created_at: u64,
    pub last_charged: u64,
    pub interval_end_at: u64,
    pub discount_per_interval: Option<Discount>,
    pub is_cancelled: bool,
    pub owner: u64,
}

/// Product-level settings: who owns and receives, the billing cadence and
/// amounts, any extra grace period, and the pause circuit breaker.
#[derive(Clone, Debug)]
pub struct Config {
    pub owner_address: u64,
    pub receiver_address: u64,
    pub additional_grace_period: u64,
    pub unit_interval: u64,
    pub unit_amount: u128,
    pub initial_amount: u128,
    pub paused: bool,
    pub uri: String,
    pub factory_address: u64,
}

/// The fee terms read from the product factory at settlement time: a
/// basis-point rate with an absolute floor, and the account the fee is paid
/// to.
#[derive(Clone, Copy, Debug, PartialEq, Eq, Structural)]
pub struct FeeConfig {
    pub protocol_fee_bps: u64,
    pub min_protocol_fee: u128,
    pub fee_address: u64,
}

/// Every way a subscription operation can fail.
#[derive(Clone, Copy, Debug, PartialEq, Eq, Structural)]
pub enum ContractError {
    Unauthorized,
    CannotCharge,
    NoCharge,
    InvalidParam,
    InvalidFee,
    InvalidDiscount,
    SubscriptionNotFound,
    ExistingSubscriptionFound,
    NoJobRegistry,
    Paused,
    Unpaused,
    SubscriptionCancelled,
}

/// An instruction the subscriber's wallet is asked to execute.
#[derive(Clone, Copy, Debug, PartialEq, Eq, Structural)]
pub enum SubWalletExecuteMsg {
    TransferUst { amount: u128, recipient: u64 },
    TransferAToken { amount: u128, recipient: u64 },
}

/// The receipt a worker-triggered settlement sends to the job registry.
#[derive(Clone, Copy, Debug, PartialEq, Eq, Structural)]
pub enum JobsRegistryExecuteMsg {
    WorkReceipt { worker_address: u64 },
}

/// An outbound side effect of a settlement: a transfer executed by a
/// subscriber's wallet, or a worker receipt sent to the job registry.
#[derive(Clone, Copy, Debug, PartialEq, Eq, Structural)]
pub enum OutboundMsg {
    SubWallet { wallet: u64, msg: SubWalletExecuteMsg },
    JobsRegistry { registry: u64, msg: JobsRegistryExecuteMsg },
}

/// What a successful operation hands back to the host: the transfer and
/// receipt instructions to execute.
#[derive(Clone, Debug)]
pub struct Response {
    pub messages: Vec<OutboundMsg>,
}

/// The argument a worker passes to the work entry point.
#[derive(Clone, Copy, Debug, PartialEq, Eq, Structural)]
pub struct WorkPayload {
    pub payer_address: u64,
}

/// The amount a charge would collect and the number of whole billing
/// periods it covers.
#[derive(Clone, Copy, Debug, PartialEq, Eq, Structural)]
pub struct AmountTransferable {
    pub amount: u128,
    pub number_of_intervals: u64,
}

/// An instruction for the wallet `wallet` to pay `amount` to `recipient`.
pub open spec fn spec_transfer(wallet: u64, recipient: u64, amount: u128) -> OutboundMsg {
    OutboundMsg::SubWallet {
        wallet,
        msg: SubWalletExecuteMsg::TransferAToken { recipient, amount },
    }
}

/// The number of whole billing periods owed once the paid-through boundary
/// has passed: the periods fully elapsed since the boundary, counting the
/// one that just completed.  A partially elapsed period is never counted.
pub open spec fn spec_periods(unit_interval: u64, interval_end_at: u64, now: u64) -> int {
    (now - interval_end_at + unit_interval) / (unit_interval as int)
}

/// The discount actually applied per period: never more than the unit
/// amount, so a discount can never invert the sign of what is owed.
pub open spec fn spec_eligible_discount(unit_amount: u128, d: Option<Discount>) -> int {
    match d {
        Some(disc) => if disc.amount > unit_amount {
            unit_amount as int
        } else {
            disc.amount as int
        },
        None => 0,
    }
}

/// Whole periods owed as of `now`; zero while the boundary lies ahead.
pub open spec fn spec_interval_count(config: Config, sub: SubscriptionInfo, now: u64) -> int {
    if now < sub.interval_end_at {
        0
    } else {
        spec_periods(config.unit_interval, sub.interval_end_at, now)
    }
}

/// The amount a charge collects as of `now`: the per-period amount net of
/// discount, times the whole periods owed.
pub open spec fn spec_chargeable_amount(config: Config, sub: SubscriptionInfo, now: u64) -> int {
    spec_interval_count(config, sub, now)
        * (config.unit_amount - spec_eligible_discount(config.unit_amount, sub.discount_per_interval))
}

/// A subscription is active while `now` has not passed its paid-through
/// boundary, or, unless cancelled, while `now` is still within the grace
/// period beyond it.
pub open spec fn spec_active(config: Config, sub: SubscriptionInfo, now: u64) -> bool {
    now <= sub.interval_end_at || (!sub.is_cancelled && now <= sub.interval_end_at
        + DEFAULT_GRACE_PERIOD + config.additional_grace_period)
}

/// The machine bounds under which a charge of `sub` at `now` neither
/// overflows the period count, the collected amount, nor the advanced
/// checkpoint.
pub open spec fn spec_charge_fits(config: Config, sub: SubscriptionInfo, now: u64) -> bool {
    now >= sub.interval_end_at ==> {
        let p = spec_periods(config.unit_interval, sub.interval_end_at, now);
        &&& p <= u64::MAX
        &&& p * (config.unit_amount - spec_eligible_discount(
            config.unit_amount,
            sub.discount_per_interval,
        )) <= u128::MAX
        &&& sub.interval_end_at + p * config.unit_interval <= u64::MAX
    }
}

/// The record after a successful charge at `now`: the checkpoint advances
/// by exactly the whole periods collected, landing on an interval boundary,
/// and the charge time is recorded.
pub open spec fn spec_charged_sub(config: Config, sub: SubscriptionInfo, now: u64) -> SubscriptionInfo {
    SubscriptionInfo {
        last_charged: now,
        interval_end_at: (sub.interval_end_at
            + spec_interval_count(config, sub, now) * config.unit_interval) as u64,
        ..sub
    }
}

/// The transfer instructions of a charge collecting `amount` from
/// `subscriber`: the protocol fee (if a rate is set) to the fee account,
/// the remainder to the product's receiver.
pub open spec fn spec_charge_msgs(
    config: Config,
    fee: FeeConfig,
    subscriber: u64,
    amount: u128,
) -> Seq<OutboundMsg> {
    if fee.protocol_fee_bps == 0 {
        seq![spec_transfer(subscriber, config.receiver_address, amount)]
    } else {
        let f = spec_max_fee(
            spec_bps_fee(amount, fee.protocol_fee_bps),
            fee.min_protocol_fee as int,
        );
        seq![
            spec_transfer(subscriber, fee.fee_address, f as u128),
            spec_transfer(subscriber, config.receiver_address, (amount - f) as u128),
        ]
    }
}

/// The first reason a charge of `subscriber` at `now` fails, if any, in the
/// order the checks are made.
pub open spec fn spec_charge_check(
    m: Map<u64, SubscriptionInfo>,
    config: Config,
    fee: FeeConfig,
    subscriber: u64,
    now: u64,
) -> Option<ContractError> {
    if config.paused {
        Some(ContractError::Paused)
    } else if !m.contains_key(subscriber) {
        Some(ContractError::SubscriptionNotFound)
    } else if m[subscriber].is_cancelled {
        Some(ContractError::SubscriptionCancelled)
    } else if !spec_active(config, m[subscriber], now) {
        Some(ContractError::CannotCharge)
    } else if spec_chargeable_amount(config, m[subscriber], now) == 0 {
        Some(ContractError::NoCharge)
    } else if fee.protocol_fee_bps > MAX_FEE_DECIMAL
        || fee.min_protocol_fee > spec_chargeable_amount(config, m[subscriber], now) {
        Some(ContractError::InvalidFee)
    } else {
        None
    }
}

/// Whether a discount may be set: it must not exceed the per-period amount;
/// clearing a discount is always valid.
pub fn is_valid_discount(discount: Option<Discount>, subscription_amount: u128) -> (valid: bool)
    ensures
        valid == match discount {
            Some(d) => d.amount <= subscription_amount,
            None => true,
        },
{
    match discount {
        Some(d) => d.amount <= subscription_amount,
        None => true,
    }
}

/// Whether the subscription is still active at `now`, counting the default
/// grace period plus the product's configured extension; a cancelled
/// subscription gets no grace.
pub fn is_subscription_active(config: &Config, sub: &SubscriptionInfo, now: u64) -> (active: bool)
    ensures
        active == spec_active(*config, *sub, now),
{
    if now <= sub.interval_end_at {
        true
    } else if sub.is_cancelled {
        false
    } else {
        (now as u128) <= (sub.interval_end_at as u128) + (DEFAULT_GRACE_PERIOD as u128)
            + (config.additional_grace_period as u128)
    }
}

/// Computes the amount currently chargeable and the whole periods it
/// covers.  Nothing is due while the paid-through boundary lies ahead;
/// otherwise the subscriber owes the per-period amount net of discount for
/// each fully elapsed period, truncating in the payer's favor.
pub fn compute_amount_chargeable(
    config: &Config,
    subscription: &SubscriptionInfo,
    block_time: u64,
) -> (r: AmountTransferable)
    requires
        config.unit_interval > 0,
        spec_charge_fits(*config, *subscription, block_time),
    ensures
        r.amount == spec_chargeable_amount(*config, *subscription, block_time),
        r.number_of_intervals == spec_interval_count(*config, *subscription, block_time),
{
    if block_time < subscription.interval_end_at {
        return AmountTransferable { amount: 0, number_of_intervals: 0 };
    }
    let elapsed: u64 = block_time - subscription.interval_end_at;
    proof {
        vstd::arithmetic::div_mod::lemma_hoist_over_denominator(
            elapsed as int,
            1,
            config.unit_interval as nat,
        );
    }
    let interval: u64 = elapsed / config.unit_interval + 1;
    let eligible_discount: u128 = match subscription.discount_per_interval {
        Some(d) => if d.amount > config.unit_amount {
            config.unit_amount
        } else {
            d.amount
        },
        None => 0,
    };
    let interval_amount_after_discount: u128 = config.unit_amount - eligible_discount;
    let chargeable_amount: u128 = (interval as u128) * interval_amount_after_discount;
    AmountTransferable { amount: chargeable_amount, number_of_intervals: interval }
}

/// Reads the chargeable amount for a loaded subscription; the calculator
/// itself never fails.
pub fn get_chargeable_amount(
    config: &Config,
    subscription: &SubscriptionInfo,
    now: u64,
) -> (r: Result<AmountTransferable, ContractError>)
    requires
        config.unit_interval > 0,
        spec_charge_fits(*config, *subscription, now),
    ensures
        r matches Ok(a) && a.amount == spec_chargeable_amount(*config, *subscription, now)
            && a.number_of_intervals == spec_interval_count(*config, *subscription, now),
{
    Ok(compute_amount_chargeable(config, subscription, now))
}

/// Charges `subscriber` as of `now`, advancing the paid-through boundary by
/// exactly the periods collected and emitting the fee and receiver
/// transfers (plus any `additional_message`, used for worker receipts).
/// Fails, leaving the records untouched, when the product is paused, the
/// subscription is missing, cancelled or no longer active, nothing is due
/// yet, or the queried fee terms are invalid.
pub fn execute_charge(
    subs: &mut Table<SubscriptionInfo>,
    config: &Config,
    fee: &FeeConfig,
    subscriber: u64,
    now: u64,
    additional_message: Option<OutboundMsg>,
) -> (r: Result<Response, ContractError>)
    requires
        old(subs).wf(),
        config.unit_interval > 0,
        old(subs).as_map().contains_key(subscriber) ==> spec_charge_fits(
            *config,
            old(subs).as_map()[subscriber],
            now,
        ),
    ensures
        final(subs).wf(),
        r is Err <==> spec_charge_check(old(subs).as_map(), *config, *fee, subscriber, now) is Some,
        r matches Err(e) ==> Some(e) == spec_charge_check(
            old(subs).as_map(),
            *config,
            *fee,
            subscriber,
            now,
        ) && final(subs)@ == old(subs)@,
        r matches Ok(resp) ==> {
            let sub = old(subs).as_map()[subscriber];
            let amount = spec_chargeable_amount(*config, sub, now) as u128;
            &&& final(subs).as_map() == old(subs).as_map().insert(
                subscriber,
                spec_charged_sub(*config, sub, now),
            )
            &&& resp.messages@ == spec_charge_msgs(*config, *fee, subscriber, amount)
                + match additional_message {
                    Some(msg) => seq![msg],
                    None => Seq::<OutboundMsg>::empty(),
                }
        },
{
    if config.paused {
        return Err(ContractError::Paused);
    }
    proof {
        subs.lemma_view_map();
    }
    let subscription: SubscriptionInfo = match subs.get(subscriber) {
        Some(s) => *s,
        None => {
            return Err(ContractError::SubscriptionNotFound);
        },
    };
    if subscription.is_cancelled {
        return Err(ContractError::SubscriptionCancelled);
    }
    if !is_subscription_active(config, &subscription, now) {
        return Err(ContractError::CannotCharge);
    }
    let chargeable_amount = compute_amount_chargeable(config, &subscription, now);
    if chargeable_amount.amount == 0 {
        return Err(ContractError::NoCharge);
    }
    if fee.protocol_fee_bps > MAX_FEE_DECIMAL || fee.min_protocol_fee > chargeable_amount.amount {
        return Err(ContractError::InvalidFee);
    }

    let mut updated_subscription = subscription;
    updated_subscription.last_charged = now;
    proof {
        assert(config.unit_interval * chargeable_amount.number_of_intervals
            == spec_interval_count(*config, subscription, now) * config.unit_interval)
            by (nonlinear_arith)
            requires chargeable_amount.number_of_intervals == spec_interval_count(
                *config,
                subscription,
                now,
            );
    }
    updated_subscription.interval_end_at = subscription.interval_end_at
        + config.unit_interval * chargeable_amount.number_of_intervals;
    proof {
        assert(updated_subscription == spec_charged_sub(*config, subscription, now));
    }
    subs.save(subscriber, updated_subscription);

    let mut msgs: Vec<OutboundMsg> = Vec::new();
    let protocol_fee = calculate_protocol_fee(
        fee.protocol_fee_bps,
        fee.min_protocol_fee,
        chargeable_amount.amount,
    );
    let mut merchant_amount: u128 = chargeable_amount.amount;
    match protocol_fee {
        Some(f) => {
            proof {
                crate::fees::lemma_fee_respects_floor(
                    fee.protocol_fee_bps,
                    fee.min_protocol_fee,
                    chargeable_amount.amount,
                );
            }
            merchant_amount = merchant_amount - f;
            msgs.push(OutboundMsg::SubWallet {
                wallet: subscriber,
                msg: SubWalletExecuteMsg::TransferAToken {
                    recipient: fee.fee_address,
                    amount: f,
                },
            });
        },
        None => {},
    }
    msgs.push(OutboundMsg::SubWallet {
        wallet: subscriber,
        msg: SubWalletExecuteMsg::TransferAToken {
            recipient: config.receiver_address,
            amount: merchant_amount,
        },
    });
    match additional_message {
        Some(msg) => {
            msgs.push(msg);
        },
        None => {},
    }
    proof {
        assert(msgs@ =~= spec_charge_msgs(*config, *fee, subscriber, chargeable_amount.amount)
            + match additional_message {
                Some(msg) => seq![msg],
                None => Seq::<OutboundMsg>::empty(),
            });
    }
    Ok(Response { messages: msgs })
}

/// A worker performs upkeep: charges `payer_address` as a normal settlement
/// would and additionally sends a receipt for `worker` to the job registry
/// at `job_registry`, so the worker can be compensated.
pub fn execute_work(
    subs: &mut Table<SubscriptionInfo>,
    config: &Config,
    fee: &FeeConfig,
    job_registry: u64,
    worker: u64,
    payer_address: u64,
    now: u64,
) -> (r: Result<Response, ContractError>)
    requires
        old(subs).wf(),
        config.unit_interval > 0,
        old(subs).as_map().contains_key(payer_address) ==> spec_charge_fits(
            *config,
            old(subs).as_map()[payer_address],
            now,
        ),
    ensures
        final(subs).wf(),
        r is Err <==> spec_charge_check(old(subs).as_map(), *config, *fee, payer_address, now)
            is Some,
        r matches Err(e) ==> Some(e) == spec_charge_check(
            old(subs).as_map(),
            *config,
            *fee,
            payer_address,
            now,
        ) && final(subs)@ == old(subs)@,
        r matches Ok(resp) ==> {
            let sub = old(subs).as_map()[payer_address];
            let amount = spec_chargeable_amount(*config, sub, now) as u128;
            &&& final(subs).as_map() == old(subs).as_map().insert(
                payer_address,
                spec_charged_sub(*config, sub, now),
            )
            &&& resp.messages@ == spec_charge_msgs(*config, *fee, payer_address, amount).push(
                OutboundMsg::JobsRegistry {
                    registry: job_registry,
                    msg: JobsRegistryExecuteMsg::WorkReceipt { worker_address: worker },
                },
            )
        },
{
    if config.paused {
        return Err(ContractError::Paused);
    }
    let receipt = OutboundMsg::JobsRegistry {
        registry: job_registry,
        msg: JobsRegistryExecuteMsg::WorkReceipt { worker_address: worker },
    };
    let r = execute_charge(subs, config, fee, payer_address, now, Some(receipt));
    proof {
        if r is Ok {
            let sub = old(subs).as_map()[payer_address];
            let amount = spec_chargeable_amount(*config, sub, now) as u128;
            assert(r->Ok_0.messages@ =~= spec_charge_msgs(*config, *fee, payer_address, amount)
                .push(receipt));
        }
    }
    r
}

/// An existing, still-active subscription that the subscriber has
/// cancelled: re-subscribing only clears the cancellation, with no new
/// period and no new initial charge.
pub open spec fn spec_is_undo(
    m: Map<u64, SubscriptionInfo>,
    config: Config,
    sender: u64,
    now: u64,
) -> bool {
    m.contains_key(sender) && spec_active(config, m[sender], now) && m[sender].is_cancelled
}

/// The record a fresh subscription starts from: paid through one interval
/// from `now`, never charged, not cancelled, no discount.
pub open spec fn spec_new_subscription(config: Config, sender: u64, now: u64) -> SubscriptionInfo {
    SubscriptionInfo {
        owner: sender,
        created_at: now,
        interval_end_at: (now + config.unit_interval) as u64,
        last_charged: 0,
        is_cancelled: false,
        discount_per_interval: None,
    }
}

/// The first reason subscribing fails, if any: the product is paused, the
/// sender already holds a live (active, not cancelled) subscription, or the
/// queried fee rate is out of bounds.
pub open spec fn spec_subscribe_check(
    m: Map<u64, SubscriptionInfo>,
    config: Config,
    fee: FeeConfig,
    sender: u64,
    now: u64,
) -> Option<ContractError> {
    if config.paused {
        Some(ContractError::Paused)
    } else if m.contains_key(sender) && spec_active(config, m[sender], now)
        && !m[sender].is_cancelled {
        Some(ContractError::ExistingSubscriptionFound)
    } else if fee.protocol_fee_bps > MAX_FEE_DECIMAL {
        Some(ContractError::InvalidFee)
    } else {
        None
    }
}

/// The record stored by a successful subscribe: an undone cancellation
/// keeps the old record, only cleared; otherwise a fresh record, with the
/// initial charge stamped when the product takes one.
pub open spec fn spec_subscribed_sub(
    m: Map<u64, SubscriptionInfo>,
    config: Config,
    sender: u64,
    now: u64,
) -> SubscriptionInfo {
    if spec_is_undo(m, config, sender, now) {
        SubscriptionInfo { is_cancelled: false, ..m[sender] }
    } else if config.initial_amount != 0 {
        SubscriptionInfo { last_charged: now, ..spec_new_subscription(config, sender, now) }
    } else {
        spec_new_subscription(config, sender, now)
    }
}

/// The transfers a successful subscribe emits: the initial amount (fee
/// split off) when one is configured and this is not an undone
/// cancellation; nothing otherwise.
pub open spec fn spec_subscribe_msgs(
    m: Map<u64, SubscriptionInfo>,
    config: Config,
    fee: FeeConfig,
    sender: u64,
    now: u64,
) -> Seq<OutboundMsg> {
    if config.initial_amount != 0 && !spec_is_undo(m, config, sender, now) {
        spec_charge_msgs(config, fee, sender, config.initial_amount)
    } else {
        Seq::<OutboundMsg>::empty()
    }
}

/// Creates (or revives) the sender's subscription.  A live subscription
/// cannot be doubled; a cancelled-but-unexpired one is revived in place
/// with no period reset; a lapsed or absent one is replaced by a fresh
/// record, charging the configured initial amount immediately when there is
/// one.
pub fn execute_subscribe(
    subs: &mut Table<SubscriptionInfo>,
    config: &Config,
    fee: &FeeConfig,
    sender: u64,
    now: u64,
) -> (r: Result<Response, ContractError>)
    requires
        old(subs).wf(),
        now + config.unit_interval <= u64::MAX,
        (config.initial_amount != 0 && !spec_is_undo(old(subs).as_map(), *config, sender, now)
            && 0 < fee.protocol_fee_bps <= MAX_FEE_DECIMAL) ==> fee.min_protocol_fee
            <= config.initial_amount,
    ensures
        final(subs).wf(),
        r is Err <==> spec_subscribe_check(old(subs).as_map(), *config, *fee, sender, now)
            is Some,
        r matches Err(e) ==> Some(e) == spec_subscribe_check(
            old(subs).as_map(),
            *config,
            *fee,
            sender,
            now,
        ) && final(subs)@ == old(subs)@,
        r is Ok ==> final(subs).as_map() == old(subs).as_map().insert(
            sender,
            spec_subscribed_sub(old(subs).as_map(), *config, sender, now),
        ),
        r matches Ok(resp) ==> resp.messages@ == spec_subscribe_msgs(
            old(subs).as_map(),
            *config,
            *fee,
            sender,
            now,
        ),
{
    if config.paused {
        return Err(ContractError::Paused);
    }
    proof {
        subs.lemma_view_map();
    }
    let new_subscription = SubscriptionInfo {
        owner: sender,
        created_at: now,
        interval_end_at: now + config.unit_interval,
        last_charged: 0,
        is_cancelled: false,
        discount_per_interval: None,
    };
    let mut is_undo = false;
    let mut subscription = new_subscription;
    match subs.get(sender) {
        Some(current) => {
            let current_subscription = *current;
            let subscription_active = is_subscription_active(config, &current_subscription, now);
            if subscription_active && !current_subscription.is_cancelled {
                return Err(ContractError::ExistingSubscriptionFound);
            }
            if subscription_active && current_subscription.is_cancelled {
                is_undo = true;
                subscription = current_subscription;
                subscription.is_cancelled = false;
            }
        },
        None => {},
    }
    if fee.protocol_fee_bps > MAX_FEE_DECIMAL {
        return Err(ContractError::InvalidFee);
    }
    let mut msgs: Vec<OutboundMsg> = Vec::new();
    if config.initial_amount != 0 && !is_undo {
        subscription.last_charged = now;
        let protocol_fee = calculate_protocol_fee(
            fee.protocol_fee_bps,
            fee.min_protocol_fee,
            config.initial_amount,
        );
        let mut merchant_amount: u128 = config.initial_amount;
        match protocol_fee {
            Some(f) => {
                proof {
                    crate::fees::lemma_fee_respects_floor(
                        fee.protocol_fee_bps,
                        fee.min_protocol_fee,
                        config.initial_amount,
                    );
                }
                merchant_amount = merchant_amount - f;
                msgs.push(OutboundMsg::SubWallet {
                    wallet: sender,
                    msg: SubWalletExecuteMsg::TransferAToken {
                        recipient: fee.fee_address,
                        amount: f,
                    },
                });
            },
            None => {},
        }
        msgs.push(OutboundMsg::SubWallet {
            wallet: sender,
            msg: SubWalletExecuteMsg::TransferAToken {
                recipient: config.receiver_address,
                amount: merchant_amount,
            },
        });
        proof {
            assert(msgs@ =~= spec_charge_msgs(*config, *fee, sender, config.initial_amount));
        }
    }
    proof {
        assert(subscription == spec_subscribed_sub(old(subs).as_map(), *config, sender, now));
    }
    subs.save(sender, subscription);
    Ok(Response { messages: msgs })
}

/// The first reason cancelling fails, if any: the product is paused, the
/// sender has no subscription, or it is already cancelled.
pub open spec fn spec_cancel_check(
    m: Map<u64, SubscriptionInfo>,
    config: Config,
    sender: u64,
) -> Option<ContractError> {
    if config.paused {
        Some(ContractError::Paused)
    } else if !m.contains_key(sender) {
        Some(ContractError::SubscriptionNotFound)
    } else if m[sender].is_cancelled {
        Some(ContractError::SubscriptionCancelled)
    } else {
        None
    }
}

/// Cancels the sender's own subscription.  The record stays, marked
/// cancelled, and remains valid until the end of the paid period; no
/// further charge can be scheduled on it.
pub fn execute_cancel(
    subs: &mut Table<SubscriptionInfo>,
    config: &Config,
    sender: u64,
) -> (r: Result<Response, ContractError>)
    requires
        old(subs).wf(),
    ensures
        final(subs).wf(),
        r is Err <==> spec_cancel_check(old(subs).as_map(), *config, sender) is Some,
        r matches Err(e) ==> Some(e) == spec_cancel_check(old(subs).as_map(), *config, sender)
            && final(subs)@ == old(subs)@,
        r is Ok ==> final(subs).as_map() == old(subs).as_map().insert(
            sender,
            SubscriptionInfo { is_cancelled: true, ..old(subs).as_map()[sender] },
        ),
        r matches Ok(resp) ==> resp.messages@ == Seq::<OutboundMsg>::empty(),
{
    if config.paused {
        return Err(ContractError::Paused);
    }
    proof {
        subs.lemma_view_map();
    }
    let mut subscription: SubscriptionInfo = match subs.get(sender) {
        Some(s) => *s,
        None => {
            return Err(ContractError::SubscriptionNotFound);
        },
    };
    if subscription.is_cancelled {
        return Err(ContractError::SubscriptionCancelled);
    }
    subscription.is_cancelled = true;
    subs.save(sender, subscription);
    Ok(Response { messages: Vec::new() })
}

/// The caller may administer the product: it is an admin or the owner.
pub open spec fn spec_authorized(config: Config, admin: AdminConfig, sender: u64) -> bool {
    admin.spec_is_admin(sender) || sender == config.owner_address
}

/// Removes a subscriber outright.  Only an owner or admin may do so; the
/// subscriber loses access immediately, with no refund for unused period.
pub fn execute_remove_subscriber(
    subs: &mut Table<SubscriptionInfo>,
    config: &Config,
    admin: &AdminConfig,
    sender: u64,
    subscriber: u64,
) -> (r: Result<Response, ContractError>)
    requires
        old(subs).wf(),
    ensures
        final(subs).wf(),
        r matches Err(e) ==> final(subs)@ == old(subs)@ && Some(e) == (
        if config.paused {
            Some(ContractError::Paused)
        } else if !spec_authorized(*config, *admin, sender) {
            Some(ContractError::Unauthorized)
        } else if !old(subs).as_map().contains_key(subscriber) {
            Some(ContractError::SubscriptionNotFound)
        } else {
            None
        }),
        r is Ok <==> !config.paused && spec_authorized(*config, *admin, sender) && old(subs).as_map().contains_key(subscriber),
        r is Ok ==> final(subs).as_map() == old(subs).as_map().remove(subscriber),
        r matches Ok(resp) ==> resp.messages@ == Seq::<OutboundMsg>::empty(),
{
    if config.paused {
        return Err(ContractError::Paused);
    }
    if !admin.is_admin(sender) && sender != config.owner_address {
        return Err(ContractError::Unauthorized);
    }
    proof {
        subs.lemma_view_map();
    }
    let exists_record = match subs.get(subscriber) {
        Some(_) => true,
        None => false,
    };
    if !exists_record {
        return Err(ContractError::SubscriptionNotFound);
    }
    subs.remove(subscriber);
    Ok(Response { messages: Vec::new() })
}

/// Sets or clears a subscriber's per-period discount.  Only an owner or
/// admin may do so, and a discount above the unit amount is rejected; this
/// is the only operation that touches the discount.
pub fn execute_set_discount(
    subs: &mut Table<SubscriptionInfo>,
    config: &Config,
    admin: &AdminConfig,
    sender: u64,
    discount: Option<Discount>,
    subscriber: u64,
) -> (r: Result<Response, ContractError>)
    requires
        old(subs).wf(),
    ensures
        final(subs).wf(),
        r matches Err(e) ==> final(subs)@ == old(subs)@ && Some(e) == (
        if config.paused {
            Some(ContractError::Paused)
        } else if !spec_authorized(*config, *admin, sender) {
            Some(ContractError::Unauthorized)
        } else if !old(subs).as_map().contains_key(subscriber) {
            Some(ContractError::SubscriptionNotFound)
        } else if discount matches Some(d) && d.amount > config.unit_amount {
            Some(ContractError::InvalidDiscount)
        } else {
            None
        }),
        r is Ok <==> !config.paused && spec_authorized(*config, *admin, sender) && old(subs).as_map().contains_key(subscriber) && (discount matches Some(d) ==> d.amount
            <= config.unit_amount),
        r is Ok ==> final(subs).as_map() == old(subs).as_map().insert(
            subscriber,
            SubscriptionInfo {
                discount_per_interval: discount,
                ..old(subs).as_map()[subscriber]
            },
        ),
        r matches Ok(resp) ==> resp.messages@ == Seq::<OutboundMsg>::empty(),
{
    if config.paused {
        return Err(ContractError::Paused);
    }
    if !admin.is_admin(sender) && sender != config.owner_address {
        return Err(ContractError::Unauthorized);
    }
    proof {
        subs.lemma_view_map();
    }
    let mut subscription: SubscriptionInfo = match subs.get(subscriber) {
        Some(s) => *s,
        None => {
            return Err(ContractError::SubscriptionNotFound);
        },
    };
    if !is_valid_discount(discount, config.unit_amount) {
        return Err(ContractError::InvalidDiscount);
    }
    subscription.discount_per_interval = discount;
    subs.save(subscriber, subscription);
    Ok(Response { messages: Vec::new() })
}

/// The record after an administrator's timestamp adjustment.
pub open spec fn spec_modified_sub(
    sub: SubscriptionInfo,
    new_created_at: Option<u64>,
    new_last_charged: Option<u64>,
    new_interval_end_at: Option<u64>,
) -> SubscriptionInfo {
    SubscriptionInfo {
        created_at: match new_created_at {
            Some(t) => t,
            None => sub.created_at,
        },
        last_charged: match new_last_charged {
            Some(t) => t,
            None => sub.last_charged,
        },
        interval_end_at: match new_interval_end_at {
            Some(t) => t,
            None => sub.interval_end_at,
        },
        ..sub
    }
}

/// Adjusts a subscriber's timestamps.  Only an owner or admin may do so;
/// creation and last-charge times must not lie in the future, the
/// paid-through boundary must lie in the future.  The discount is out of
/// this operation's reach.
pub fn execute_modify_subscriber(
    subs: &mut Table<SubscriptionInfo>,
    config: &Config,
    admin: &AdminConfig,
    sender: u64,
    now: u64,
    new_created_at: Option<u64>,
    new_last_charged: Option<u64>,
    new_interval_end_at: Option<u64>,
    subscriber: u64,
) -> (r: Result<Response, ContractError>)
    requires
        old(subs).wf(),
    ensures
        final(subs).wf(),
        r matches Err(e) ==> final(subs)@ == old(subs)@ && Some(e) == (
        if config.paused {
            Some(ContractError::Paused)
        } else if !spec_authorized(*config, *admin, sender) {
            Some(ContractError::Unauthorized)
        } else if !old(subs).as_map().contains_key(subscriber) {
            Some(ContractError::SubscriptionNotFound)
        } else if new_created_at matches Some(t) && t > now {
            Some(ContractError::InvalidParam)
        } else if new_interval_end_at matches Some(t) && t <= now {
            Some(ContractError::InvalidParam)
        } else if new_last_charged matches Some(t) && t > now {
            Some(ContractError::InvalidParam)
        } else {
            None
        }),
        r is Ok <==> !config.paused && spec_authorized(*config, *admin, sender) && old(subs).as_map().contains_key(subscriber) && (new_created_at matches Some(t) ==> t <= now) && (
        new_interval_end_at matches Some(t) ==> t > now) && (new_last_charged matches Some(t)
            ==> t <= now),
        r is Ok ==> final(subs).as_map() == old(subs).as_map().insert(
            subscriber,
            spec_modified_sub(
                old(subs).as_map()[subscriber],
                new_created_at,
                new_last_charged,
                new_interval_end_at,
            ),
        ),
        r matches Ok(resp) ==> resp.messages@ == Seq::<OutboundMsg>::empty(),
{
    if config.paused {
        return Err(ContractError::Paused);
    }
    if !admin.is_admin(sender) && sender != config.owner_address {
        return Err(ContractError::Unauthorized);
    }
    proof {
        subs.lemma_view_map();
    }
    let mut subscription: SubscriptionInfo = match subs.get(subscriber) {
        Some(s) => *s,
        None => {
            return Err(ContractError::SubscriptionNotFound);
        },
    };
    match new_created_at {
        Some(created_at) => {
            if created_at > now {
                return Err(ContractError::InvalidParam);
            }
            subscription.created_at = created_at;
        },
        None => {},
    }
    match new_interval_end_at {
        Some(interval_end_at) => {
            if interval_end_at <= now {
                return Err(ContractError::InvalidParam);
            }
            subscription.interval_end_at = interval_end_at;
        },
        None => {},
    }
    match new_last_charged {
        Some(last_charged) => {
            if last_charged > now {
                return Err(ContractError::InvalidParam);
            }
            subscription.last_charged = last_charged;
        },
        None => {},
    }
    subs.save(subscriber, subscription);
    Ok(Response { messages: Vec::new() })
}

/// Pauses or unpauses the product.  Only an owner or admin may flip the
/// breaker, and only in the direction that changes it.  While paused, no
/// subscribing, cancelling or charging is possible.
pub fn execute_pause(
    config: &mut Config,
    admin: &AdminConfig,
    sender: u64,
    pause: bool,
) -> (r: Result<Response, ContractError>)
    ensures
        r matches Err(e) ==> *final(config) == *old(config) && Some(e) == (
        if !spec_authorized(*old(config), *admin, sender) {
            Some(ContractError::Unauthorized)
        } else if pause && old(config).paused {
            Some(ContractError::Paused)
        } else if !pause && !old(config).paused {
            Some(ContractError::Unpaused)
        } else {
            None
        }),
        r is Ok <==> spec_authorized(*old(config), *admin, sender) && pause != old(config).paused,
        r is Ok ==> *final(config) == (Config { paused: pause, ..*old(config) }),
        r matches Ok(resp) ==> resp.messages@ == Seq::<OutboundMsg>::empty(),
{
    if !admin.is_admin(sender) && sender != config.owner_address {
        return Err(ContractError::Unauthorized);
    }
    if pause {
        if config.paused {
            return Err(ContractError::Paused);
        }
    } else {
        if !config.paused {
            return Err(ContractError::Unpaused);
        }
    }
    config.paused = !config.paused;
    Ok(Response { messages: Vec::new() })
}

/// Updates the product settings that may change after creation: the
/// receiver, the initial amount, the extra grace period and the metadata
/// link.  Only an owner or admin may do so.
pub fn update_config(
    config: &mut Config,
    admin: &AdminConfig,
    sender: u64,
    receiver_address: Option<u64>,
    initial_amount: Option<u128>,
    additional_grace_period_hour: Option<u64>,
    uri: Option<String>,
) -> (r: Result<Response, ContractError>)
    requires
        additional_grace_period_hour matches Some(h) ==> h * 3600 <= u64::MAX,
    ensures
        r is Err <==> !spec_authorized(*old(config), *admin, sender),
        r matches Err(e) ==> e == ContractError::Unauthorized && *final(config) == *old(config),
        r is Ok ==> {
            &&& final(config).receiver_address == match receiver_address {
                Some(a) => a,
                None => old(config).receiver_address,
            }
            &&& final(config).initial_amount == match initial_amount {
                Some(a) => a,
                None => old(config).initial_amount,
            }
            &&& final(config).additional_grace_period == match additional_grace_period_hour {
                Some(h) => (h * 3600) as u64,
                None => old(config).additional_grace_period,
            }
            &&& final(config).uri@ == match uri {
                Some(u) => u@,
                None => old(config).uri@,
            }
            &&& final(config).owner_address == old(config).owner_address
            &&& final(config).unit_interval == old(config).unit_interval
            &&& final(config).unit_amount == old(config).unit_amount
            &&& final(config).paused == old(config).paused
            &&& final(config).factory_address == old(config).factory_address
        },
        r matches Ok(resp) ==> resp.messages@ == Seq::<OutboundMsg>::empty(),
{
    if !admin.is_admin(sender) && sender != config.owner_address {
        return Err(ContractError::Unauthorized);
    }
    match receiver_address {
        Some(a) => {
            config.receiver_address = a;
        },
        None => {},
    }
    match initial_amount {
        Some(a) => {
            config.initial_amount = a;
        },
        None => {},
    }
    match additional_grace_period_hour {
        Some(h) => {
            config.additional_grace_period = h * 3600;
        },
        None => {},
    }
    match uri {
        Some(u) => {
            config.uri = u;
        },
        None => {},
    }
    Ok(Response { messages: Vec::new() })
}

/// Replaces the product's admin list.  Only the owner may do so.
pub fn execute_update_admins(
    admin: &mut AdminConfig,
    config: &Config,
    sender: u64,
    admins: Vec<u64>,
) -> (r: Result<Response, ContractError>)
    ensures
        r is Err <==> sender != config.owner_address,
        r matches Err(e) ==> e == ContractError::Unauthorized && *final(admin) == *old(admin),
        r is Ok ==> final(admin).owner == old(admin).owner && final(admin).mutable == old(admin).mutable && final(admin).admins@ == admins@,
        r matches Ok(resp) ==> resp.messages@ == Seq::<OutboundMsg>::empty(),
{
    if sender != config.owner_address {
        Err(ContractError::Unauthorized)
    } else {
        admin.admins = admins;
        Ok(Response { messages: Vec::new() })
    }
}

/// What a product needs at creation: the parties, the cadence and amounts,
/// the capability set-up, and the factory it answers to.
#[derive(Clone, Debug)]
pub struct ProductInstantiateMsg {
    pub receiver_address: u64,
    pub unit_amount: u128,
    pub initial_amount: u128,
    pub unit_interval_hour: u64,
    pub additional_grace_period_hour: Option<u64>,
    pub uri: String,
    pub owner: u64,
    pub admins: Vec<u64>,
    pub mutable: bool,
    pub factory_address: u64,
}

/// Creates a product: sets up the capability configuration (rejecting an
/// oversized admin list) and the product settings, converting the interval
/// and grace period from hours to seconds.  The product starts unpaused.
pub fn instantiate(msg: ProductInstantiateMsg) -> (r: Result<
    (Config, AdminConfig),
    ContractError,
>)
    requires
        msg.unit_interval_hour * 3600 <= u64::MAX,
        msg.additional_grace_period_hour matches Some(h) ==> h * 3600 <= u64::MAX,
    ensures
        r is Err <==> msg.admins@.len() > crate::admin::MAXIMUM_ADMIN_LIST_SIZE,
        r matches Err(e) ==> e == ContractError::InvalidParam,
        r matches Ok(pair) ==> {
            let (config, admin) = pair;
            &&& config.owner_address == msg.owner
            &&& config.receiver_address == msg.receiver_address
            &&& config.additional_grace_period == match msg.additional_grace_period_hour {
                Some(h) => (h * 3600) as u64,
                None => 0u64,
            }
            &&& config.unit_interval == msg.unit_interval_hour * 3600
            &&& config.unit_amount == msg.unit_amount
            &&& config.initial_amount == msg.initial_amount
            &&& config.uri@ == msg.uri@
            &&& config.paused == false
            &&& config.factory_address == msg.factory_address
            &&& admin.owner == msg.owner
            &&& admin.admins@ == msg.admins@
            &&& admin.mutable == msg.mutable
        },
{
    let admin = match crate::admin::instantiate(msg.owner, msg.admins, msg.mutable) {
        Ok(a) => a,
        Err(_) => {
            return Err(ContractError::InvalidParam);
        },
    };
    let unit_interval: u64 = msg.unit_interval_hour * 60 * 60;
    let additional_grace_period: u64 = match msg.additional_grace_period_hour {
        Some(v) => v * 60 * 60,
        None => 0,
    };
    let config = Config {
        owner_address: msg.owner,
        receiver_address: msg.receiver_address,
        additional_grace_period,
        unit_interval,
        unit_amount: msg.unit_amount,
        initial_amount: msg.initial_amount,
        uri: msg.uri,
        paused: false,
        factory_address: msg.factory_address,
    };
    Ok((config, admin))
}

/// The product settings as a caller sees them.
#[derive(Clone, Debug)]
pub struct ConfigResponse {
    pub owner_address: u64,
    pub receiver_address: u64,
    pub unit_interval_seconds: u64,
    pub unit_amount: u128,
    pub additional_grace_period: u64,
    pub initial_amount: u128,
    pub paused: bool,
    pub uri: String,
}

/// The product settings, with the interval in seconds.
pub fn query_config(config: &Config) -> (r: ConfigResponse)
    ensures
        r.owner_address == config.owner_address,
        r.receiver_address == config.receiver_address,
        r.unit_interval_seconds == config.unit_interval,
        r.unit_amount == config.unit_amount,
        r.additional_grace_period == config.additional_grace_period,
        r.initial_amount == config.initial_amount,
        r.paused == config.paused,
        r.uri@ == config.uri@,
{
    ConfigResponse {
        owner_address: config.owner_address,
        receiver_address: config.receiver_address,
        unit_interval_seconds: config.unit_interval,
        unit_amount: config.unit_amount,
        additional_grace_period: config.additional_grace_period,
        initial_amount: config.initial_amount,
        paused: config.paused,
        uri: config.uri.clone(),
    }
}

/// One subscriber's state as a caller sees it: the stored record, whether
/// it is currently active, and what a charge would collect right now
/// (zero when inactive).
#[derive(Clone, Copy, Debug, PartialEq, Eq, Structural)]
pub struct SubscriptionInfoResponse {
    pub subscriber: u64,
    pub created_at: u64,
    pub interval_end_at: u64,
    pub last_charged: u64,
    pub is_cancelled: bool,
    pub is_active: bool,
    pub discount_per_interval: Option<Discount>,
    pub amount_chargeable: Option<u128>,
}

/// The subscription status of `subscriber`, or `None` when there is no
/// record.
pub fn query_subscription(
    subs: &Table<SubscriptionInfo>,
    config: &Config,
    now: u64,
    subscriber: u64,
) -> (r: Option<SubscriptionInfoResponse>)
    requires
        subs.wf(),
        config.unit_interval > 0,
        subs.as_map().contains_key(subscriber) && spec_active(
            *config,
            subs.as_map()[subscriber],
            now,
        ) ==> spec_charge_fits(*config, subs.as_map()[subscriber], now),
    ensures
        r is Some <==> subs.as_map().contains_key(subscriber),
        r matches Some(resp) ==> {
            let sub = subs.as_map()[subscriber];
            &&& resp.subscriber == sub.owner
            &&& resp.created_at == sub.created_at
            &&& resp.interval_end_at == sub.interval_end_at
            &&& resp.last_charged == sub.last_charged
            &&& resp.is_cancelled == sub.is_cancelled
            &&& resp.is_active == spec_active(*config, sub, now)
            &&& resp.discount_per_interval == sub.discount_per_interval
            &&& resp.amount_chargeable == Some(
                if spec_active(*config, sub, now) {
                    spec_chargeable_amount(*config, sub, now) as u128
                } else {
                    0u128
                },
            )
        },
{
    proof {
        subs.lemma_view_map();
    }
    let subscription: SubscriptionInfo = match subs.get(subscriber) {
        Some(s) => *s,
        None => {
            return None;
        },
    };
    let sub_active = is_subscription_active(config, &subscription, now);
    let amount_chargeable: u128 = if sub_active {
        compute_amount_chargeable(config, &subscription, now).amount
    } else {
        0
    };
    Some(SubscriptionInfoResponse {
        subscriber: subscription.owner,
        created_at: subscription.created_at,
        interval_end_at: subscription.interval_end_at,
        last_charged: subscription.last_charged,
        is_cancelled: subscription.is_cancelled,
        is_active: sub_active,
        discount_per_interval: subscription.discount_per_interval,
        amount_chargeable: Some(amount_chargeable),
    })
}

/// Whether a worker would find work here: there is a record, a charge
/// would collect a non-zero amount, and the subscription has not lapsed.
pub fn query_can_work(
    subs: &Table<SubscriptionInfo>,
    config: &Config,
    now: u64,
    subscriber: u64,
) -> (can: bool)
    requires
        subs.wf(),
        config.unit_interval > 0,
        subs.as_map().contains_key(subscriber) ==> spec_charge_fits(
            *config,
            subs.as_map()[subscriber],
            now,
        ),
    ensures
        can == (subs.as_map().contains_key(subscriber) && spec_chargeable_amount(
            *config,
            subs.as_map()[subscriber],
            now,
        ) != 0 && spec_active(*config, subs.as_map()[subscriber], now)),
{
    proof {
        subs.lemma_view_map();
    }
    let subscription: SubscriptionInfo = match subs.get(subscriber) {
        Some(s) => *s,
        None => {
            return false;
        },
    };
    let chargeable = compute_amount_chargeable(config, &subscription, now);
    if chargeable.amount == 0 {
        false
    } else {
        is_subscription_active(config, &subscription, now)
    }
}

/// The stored record of one subscriber, or `None` when there is none.
pub fn read_subscription_info(
    subs: &Table<SubscriptionInfo>,
    subscriber: u64,
) -> (r: Option<SubscriptionInfo>)
    requires
        subs.wf(),
    ensures
        r is Some <==> subs.as_map().contains_key(subscriber),
        r matches Some(s) ==> s == subs.as_map()[subscriber],
{
    proof {
        subs.lemma_view_map();
    }
    match subs.get(subscriber) {
        Some(s) => Some(*s),
        None => None,
    }
}

/// Keeps the entries that lie after the exclusive cursor; no cursor keeps
/// them all.
pub open spec fn sub_after_pred(start_after: Option<u64>) -> spec_fn((u64, SubscriptionInfo)) -> bool {
    |e: (u64, SubscriptionInfo)|
        match start_after {
            None => true,
            Some(a) => e.0 > a,
        }
}

/// The subscription entries after the cursor, in ascending key order.
pub open spec fn spec_entries_after(
    s: Seq<(u64, SubscriptionInfo)>,
    start_after: Option<u64>,
) -> Seq<(u64, SubscriptionInfo)> {
    s.filter(sub_after_pred(start_after))
}

/// One page of subscription records.
#[derive(Clone, Debug)]
pub struct SubscriptionsResponse {
    pub subscriptions: Vec<SubscriptionInfo>,
}

/// All subscriptions, cursor-paginated: the records whose key lies after
/// `start_after`, in ascending key order, cut to the requested page size.
pub fn query_subscriptions(
    subs: &Table<SubscriptionInfo>,
    start_after: Option<u64>,
    limit: Option<u32>,
) -> (r: SubscriptionsResponse)
    requires
        subs.wf(),
    ensures
        r.subscriptions@ == crate::pagination::take_at_most(
            spec_entries_after(subs@, start_after),
            crate::pagination::spec_limit(limit),
        ).map_values(|e: (u64, SubscriptionInfo)| e.1),
{
    let lim = crate::pagination::calc_limit(limit);
    let n = subs.len();
    let mut out: Vec<SubscriptionInfo> = Vec::new();
    let mut i: usize = 0;
    while i < n
        invariant
            i <= n,
            n == subs@.len(),
            subs.wf(),
            lim == crate::pagination::spec_limit(limit),
            out@ == crate::pagination::take_at_most(
                spec_entries_after(subs@.take(i as int), start_after),
                lim as int,
            ).map_values(|e: (u64, SubscriptionInfo)| e.1),
            out@.len() <= lim,
        decreases n - i,
    {
        let e = subs.entry_at(i);
        let keep = match start_after {
            Some(a) => e.0 > a,
            None => true,
        };
        let ghost pre = spec_entries_after(subs@.take(i as int), start_after);
        let ghost post = spec_entries_after(subs@.take(i + 1), start_after);
        proof {
            crate::pagination::lemma_filter_take_step(
                subs@,
                sub_after_pred(start_after),
                i as int,
            );
            assert(keep == sub_after_pred(start_after)(subs@[i as int]));
        }
        if keep && out.len() < lim {
            out.push(e.1);
            proof {
                assert(post == pre.push(subs@[i as int]));
                assert(crate::pagination::take_at_most(post, lim as int) =~= post);
                assert(out@ =~= crate::pagination::take_at_most(post, lim as int).map_values(
                    |x: (u64, SubscriptionInfo)| x.1,
                ));
            }
        } else {
            proof {
                if keep {
                    assert(post == pre.push(subs@[i as int]));
                    assert(crate::pagination::take_at_most(post, lim as int)
                        =~= crate::pagination::take_at_most(pre, lim as int));
                } else {
                    assert(post == pre);
                }
            }
        }
        i = i + 1;
    }
    proof {
        assert(subs@.take(n as int) =~= subs@);
    }
    SubscriptionsResponse { subscriptions: out }
}

/// The operations of the subscription product, as one closed set of
/// message variants; new operations extend the set, the dispatch match is
/// exhaustive.
#[derive(Clone, Debug)]
pub enum ExecuteMsg {
    UpdateConfig {
        receiver_address: Option<u64>,
        additional_grace_period_hour: Option<u64>,
        initial_amount: Option<u128>,
        uri: Option<String>,
    },
    UpdateAdmins { admins: Vec<u64> },
    Subscribe {},
    Cancel {},
    Pause {},
    Unpause {},
    ModifySubscriber {
        new_created_at: Option<u64>,
        new_last_charged: Option<u64>,
        new_interval_end_at: Option<u64>,
        subscriber: u64,
    },
    SetDiscount { discount: Option<Discount>, subscriber: u64 },
    RemoveSubscriber { subscriber: u64 },
    Charge { payer_address: u64 },
    Work { payload: WorkPayload },
}

/// The machine bounds the dispatched operation relies on, by variant.
pub open spec fn spec_execute_fits(
    m: Map<u64, SubscriptionInfo>,
    config: Config,
    fee: FeeConfig,
    sender: u64,
    now: u64,
    msg: ExecuteMsg,
) -> bool {
    match msg {
        ExecuteMsg::UpdateConfig { additional_grace_period_hour, .. } => match
            additional_grace_period_hour {
            Some(h) => h * 3600 <= u64::MAX,
            None => true,
        },
        ExecuteMsg::Subscribe {} => now + config.unit_interval <= u64::MAX && ((
        config.initial_amount != 0 && !spec_is_undo(m, config, sender, now) && 0
            < fee.protocol_fee_bps <= MAX_FEE_DECIMAL) ==> fee.min_protocol_fee
            <= config.initial_amount),
        ExecuteMsg::Charge { payer_address } => m.contains_key(payer_address)
            ==> spec_charge_fits(config, m[payer_address], now),
        ExecuteMsg::Work { payload } => m.contains_key(payload.payer_address)
            ==> spec_charge_fits(config, m[payload.payer_address], now),
        _ => true,
    }
}

/// Routes one operation to its handler.  Each arm's outcome is pinned by
/// the named operation's own contract; this dispatcher adds only that the
/// parts of the state the operation does not own are left untouched.
pub fn execute(
    subs: &mut Table<SubscriptionInfo>,
    config: &mut Config,
    admin: &mut AdminConfig,
    fee: &FeeConfig,
    job_registry: u64,
    sender: u64,
    now: u64,
    msg: ExecuteMsg,
) -> (r: Result<Response, ContractError>)
    requires
        old(subs).wf(),
        old(config).unit_interval > 0,
        spec_execute_fits(old(subs).as_map(), *old(config), *fee, sender, now, msg),
    ensures
        final(subs).wf(),
        // the record store moves only under the record operations
        (msg matches ExecuteMsg::UpdateConfig { .. } || msg matches ExecuteMsg::UpdateAdmins {
            ..
        } || msg matches ExecuteMsg::Pause {} || msg matches ExecuteMsg::Unpause {}) ==> final(subs)@ == old(subs)@,
        // the settings move only under the setting operations
        !(msg matches ExecuteMsg::UpdateConfig { .. } || msg matches ExecuteMsg::Pause {}
            || msg matches ExecuteMsg::Unpause {}) ==> *final(config) == *old(config),
        // the capability set moves only when admins are updated
        !(msg matches ExecuteMsg::UpdateAdmins { .. }) ==> final(admin).owner == old(admin).owner && final(admin).admins@ == old(admin).admins@ && final(admin).mutable == old(admin).mutable,
        msg matches ExecuteMsg::Subscribe {} ==> {
            &&& (r is Err <==> spec_subscribe_check(
                old(subs).as_map(),
                *old(config),
                *fee,
                sender,
                now,
            ) is Some)
            &&& (r matches Err(e) ==> Some(e) == spec_subscribe_check(
                old(subs).as_map(),
                *old(config),
                *fee,
                sender,
                now,
            ) && final(subs)@ == old(subs)@)
            &&& (r is Ok ==> final(subs).as_map() == old(subs).as_map().insert(
                sender,
                spec_subscribed_sub(old(subs).as_map(), *old(config), sender, now),
            ))
            &&& (r matches Ok(resp) ==> resp.messages@ == spec_subscribe_msgs(
                old(subs).as_map(),
                *old(config),
                *fee,
                sender,
                now,
            ))
        },
        msg matches ExecuteMsg::Cancel {} ==> {
            &&& (r is Err <==> spec_cancel_check(old(subs).as_map(), *old(config), sender)
                is Some)
            &&& (r matches Err(e) ==> Some(e) == spec_cancel_check(
                old(subs).as_map(),
                *old(config),
                sender,
            ) && final(subs)@ == old(subs)@)
            &&& (r is Ok ==> final(subs).as_map() == old(subs).as_map().insert(
                sender,
                SubscriptionInfo { is_cancelled: true, ..old(subs).as_map()[sender] },
            ))
        },
        msg matches ExecuteMsg::Charge { payer_address } ==> {
            &&& (r is Err <==> spec_charge_check(
                old(subs).as_map(),
                *old(config),
                *fee,
                payer_address,
                now,
            ) is Some)
            &&& (r matches Err(e) ==> Some(e) == spec_charge_check(
                old(subs).as_map(),
                *old(config),
                *fee,
                payer_address,
                now,
            ) && final(subs)@ == old(subs)@)
            &&& (r matches Ok(resp) ==> final(subs).as_map() == old(subs).as_map().insert(
                payer_address,
                spec_charged_sub(*old(config), old(subs).as_map()[payer_address], now),
            ) && resp.messages@ == spec_charge_msgs(
                *old(config),
                *fee,
                payer_address,
                spec_chargeable_amount(
                    *old(config),
                    old(subs).as_map()[payer_address],
                    now,
                ) as u128,
            ))
        },
        msg matches ExecuteMsg::Work { payload } ==> {
            &&& (r is Err <==> spec_charge_check(
                old(subs).as_map(),
                *old(config),
                *fee,
                payload.payer_address,
                now,
            ) is Some)
            &&& (r matches Ok(resp) ==> final(subs).as_map() == old(subs).as_map().insert(
                payload.payer_address,
                spec_charged_sub(*old(config), old(subs).as_map()[payload.payer_address], now),
            ) && resp.messages@ == spec_charge_msgs(
                *old(config),
                *fee,
                payload.payer_address,
                spec_chargeable_amount(
                    *old(config),
                    old(subs).as_map()[payload.payer_address],
                    now,
                ) as u128,
            ).push(
                OutboundMsg::JobsRegistry {
                    registry: job_registry,
                    msg: JobsRegistryExecuteMsg::WorkReceipt { worker_address: sender },
                },
            ))
        },
        msg matches ExecuteMsg::RemoveSubscriber { subscriber } ==> {
            &&& (r is Ok <==> !old(config).paused && spec_authorized(
                *old(config),
                *old(admin),
                sender,
            ) && old(subs).as_map().contains_key(subscriber))
            &&& (r is Ok ==> final(subs).as_map() == old(subs).as_map().remove(subscriber))
            &&& (r is Err ==> final(subs)@ == old(subs)@)
        },
        msg matches ExecuteMsg::SetDiscount { discount, subscriber } ==> {
            &&& (r is Ok <==> !old(config).paused && spec_authorized(
                *old(config),
                *old(admin),
                sender,
            ) && old(subs).as_map().contains_key(subscriber) && (discount matches Some(d) ==> d.amount
                <= old(config).unit_amount))
            &&& (r is Ok ==> final(subs).as_map() == old(subs).as_map().insert(
                subscriber,
                SubscriptionInfo {
                    discount_per_interval: discount,
                    ..old(subs).as_map()[subscriber]
                },
            ))
            &&& (r is Err ==> final(subs)@ == old(subs)@)
        },
        msg matches ExecuteMsg::ModifySubscriber {
            new_created_at,
            new_last_charged,
            new_interval_end_at,
            subscriber,
        } ==> {
            &&& (r is Ok <==> !old(config).paused && spec_authorized(
                *old(config),
                *old(admin),
                sender,
            ) && old(subs).as_map().contains_key(subscriber) && (new_created_at matches Some(t)
                ==> t <= now) && (new_interval_end_at matches Some(t) ==> t > now) && (
            new_last_charged matches Some(t) ==> t <= now))
            &&& (r is Ok ==> final(subs).as_map() == old(subs).as_map().insert(
                subscriber,
                spec_modified_sub(
                    old(subs).as_map()[subscriber],
                    new_created_at,
                    new_last_charged,
                    new_interval_end_at,
                ),
            ))
            &&& (r is Err ==> final(subs)@ == old(subs)@)
        },
        msg matches ExecuteMsg::Pause {} ==> {
            &&& (r is Ok <==> spec_authorized(*old(config), *old(admin), sender) && !old(config).paused)
            &&& (r is Ok ==> *final(config) == (Config { paused: true, ..*old(config) }))
            &&& (r is Err ==> *final(config) == *old(config))
        },
        msg matches ExecuteMsg::Unpause {} ==> {
            &&& (r is Ok <==> spec_authorized(*old(config), *old(admin), sender) && old(config).paused)
            &&& (r is Ok ==> *final(config) == (Config { paused: false, ..*old(config) }))
            &&& (r is Err ==> *final(config) == *old(config))
        },
        msg matches ExecuteMsg::UpdateAdmins { admins } ==> {
            &&& (r is Ok <==> sender == old(config).owner_address)
            &&& (r is Ok ==> final(admin).admins@ == admins@ && final(admin).owner == old(admin).owner && final(admin).mutable == old(admin).mutable)
            &&& (r is Err ==> final(admin).owner == old(admin).owner && final(admin).admins@
                == old(admin).admins@ && final(admin).mutable == old(admin).mutable)
        },
        msg matches ExecuteMsg::UpdateConfig { .. } ==> {
            &&& (r is Err <==> !spec_authorized(*old(config), *old(admin), sender))
            &&& (r is Err ==> *final(config) == *old(config))
        },
{
    match msg {
        ExecuteMsg::UpdateConfig {
            receiver_address,
            additional_grace_period_hour,
            initial_amount,
            uri,
        } => update_config(
            config,
            admin,
            sender,
            receiver_address,
            initial_amount,
            additional_grace_period_hour,
            uri,
        ),
        ExecuteMsg::UpdateAdmins { admins } => execute_update_admins(
            admin,
            config,
            sender,
            admins,
        ),
        ExecuteMsg::Subscribe {} => execute_subscribe(subs, config, fee, sender, now),
        ExecuteMsg::Cancel {} => execute_cancel(subs, config, sender),
        ExecuteMsg::Pause {} => execute_pause(config, admin, sender, true),
        ExecuteMsg::Unpause {} => execute_pause(config, admin, sender, false),
        ExecuteMsg::ModifySubscriber {
            new_created_at,
            new_last_charged,
            new_interval_end_at,
            subscriber,
        } => execute_modify_subscriber(
            subs,
            config,
            admin,
            sender,
            now,
            new_created_at,
            new_last_charged,
            new_interval_end_at,
            subscriber,
        ),
        ExecuteMsg::SetDiscount { discount, subscriber } => execute_set_discount(
            subs,
            config,
            admin,
            sender,
            discount,
            subscriber,
        ),
        ExecuteMsg::RemoveSubscriber { subscriber } => execute_remove_subscriber(
            subs,
            config,
            admin,
            sender,
            subscriber,
        ),
        ExecuteMsg::Charge { payer_address } => execute_charge(
            subs,
            config,
            fee,
            payer_address,
            now,
            None,
        ),
        ExecuteMsg::Work { payload } => execute_work(
            subs,
            config,
            fee,
            job_registry,
            sender,
            payload.payer_address,
            now,
        ),
    }
}

/// Charging is idempotent: immediately after a successful charge at `now`,
/// a second charge at the same `now` finds zero periods and a zero amount,
/// so competing settlement attempts can never double-charge.
pub proof fn lemma_charge_idempotent(config: Config, sub: SubscriptionInfo, now: u64)
    requires
        config.unit_interval > 0,
        spec_charge_fits(config, sub, now),
    ensures
        spec_interval_count(config, spec_charged_sub(config, sub, now), now) == 0,
        spec_chargeable_amount(config, spec_charged_sub(config, sub, now), now) == 0,
{
    let charged = spec_charged_sub(config, sub, now);
    if now >= sub.interval_end_at {
        let i = config.unit_interval as int;
        let p = spec_periods(config.unit_interval, sub.interval_end_at, now);
        let x = now - sub.interval_end_at + i;
        assert(x == i * p + x % i) by {
            vstd::arithmetic::div_mod::lemma_fundamental_div_mod(x, i);
        }
        assert(0 <= x % i < i) by {
            vstd::arithmetic::div_mod::lemma_mod_division_less_than_divisor(x, i);
        }
        assert(i * p == p * i) by (nonlinear_arith);
        assert(sub.interval_end_at + p * i > now);
        assert(charged.interval_end_at > now);
    } else {
        assert(spec_interval_count(config, sub, now) == 0);
        assert(charged.interval_end_at == sub.interval_end_at);
    }
    assert(spec_interval_count(config, charged, now) == 0);
}

/// Checkpoints are monotone: a successful charge advances the paid-through
/// boundary by an exact non-negative whole number of intervals, so it never
/// decreases.
pub proof fn lemma_checkpoint_monotonic(config: Config, sub: SubscriptionInfo, now: u64)
    requires
        config.unit_interval > 0,
        spec_charge_fits(config, sub, now),
    ensures
        spec_interval_count(config, sub, now) >= 0,
        spec_charged_sub(config, sub, now).interval_end_at == sub.interval_end_at
            + spec_interval_count(config, sub, now) * config.unit_interval,
        spec_charged_sub(config, sub, now).interval_end_at >= sub.interval_end_at,
{
    let i = config.unit_interval as int;
    let p = spec_interval_count(config, sub, now);
    if now >= sub.interval_end_at {
        let x = now - sub.interval_end_at + i;
        assert(i / i == 1) by {
            vstd::arithmetic::div_mod::lemma_div_by_self(i);
        }
        assert(i / i <= x / i) by {
            vstd::arithmetic::div_mod::lemma_div_is_ordered(i, x, i);
        }
    }
    assert(p * i >= 0) by (nonlinear_arith)
        requires p >= 0 && i > 0;
}

} // verus!
