//! Peer-to-peer recurring transfer agreements.  A payer agrees to send a
//! fixed amount to a payee every interval between a start and an optional
//! end time.  The agreement's state is a pure function of time: it expires
//! once the end time passes, and it lapses once a whole interval has been
//! missed beyond the due checkpoint — a lapsed or expired agreement can
//! never be charged again, only terminated.  On a successful charge the due
//! checkpoint advances by exactly one interval: unlike subscription
//! billing, P2P agreements lapse rather than accumulate arrears.

use vstd::prelude::*;
use crate::fees::{bps_fee, spec_bps_fee, spec_min_fee, MAX_FEE_BPS, MAX_FEE_DECIMAL};
use crate::pagination::{calc_limit, spec_limit, take_at_most};
use crate::subscriptions::{JobsRegistryExecuteMsg, OutboundMsg, Response, SubWalletExecuteMsg};
use crate::table::Table;

verus! {

/// Every way a P2P transfer operation can fail.
#[derive(Clone, Copy, Debug, PartialEq, Eq, Structural)]
pub enum ContractError {
    Unauthorized,
    CannotTerminateActiveAgreement,
    InvalidParams,
    InvalidEndtime,
    InvalidFee,
    CannotSetOwnAccount,
    AgreementNotFound,
    ZeroTransferableAmount,
    NoJobRegistry,
}

/// The four agreement states.  No others exist; the state is derived fresh
/// from time on every call, never stored.
#[derive(Clone, Copy, Debug, PartialEq, Eq, Structural)]
pub enum AgreementStatus {
    NotStarted,
    Active,
    Expired,
    Lapsed,
}

/// One agreement: payer `from` sends `amount` to payee `to` every
/// `interval` seconds, from `start_at` until `end_at` (if set).
/// `interval_due_at` is the next collectible checkpoint.
#[derive(Clone, Copy, Debug, PartialEq, Eq, Structural)]
pub struct Agreement {
    pub to: u64,
    pub from: u64,
    pub amount: u128,
    pub created_at: u64,
    pub interval: u64,
    pub interval_due_at: u64,
    pub last_charged: u64,
    pub start_at: u64,
    pub end_at: Option<u64>,
}

/// Contract settings: the owner, the optional job registry, the floors a
/// new agreement must respect, and the fee terms (a basis-point rate with
/// an absolute ceiling).
#[derive(Clone, Copy, Debug, PartialEq, Eq, Structural)]
pub struct Config {
    pub owner: u64,
    pub job_registry_contract: Option<u64>,
    pub minimum_interval: u64,
    pub minimum_amount_per_interval: u128,
    pub fee_bps: u64,
    pub fee_address: u64,
    pub max_fee: u128,
}

/// The settings a new contract starts from.
#[derive(Clone, Copy, Debug, PartialEq, Eq, Structural)]
pub struct InstantiateMsg {
    pub minimum_interval: u64,
    pub minimum_amount_per_interval: u128,
    pub job_registry_contract: Option<u64>,
    pub fee_bps: Option<u64>,
    pub fee_address: Option<u64>,
    pub max_fee: Option<u128>,
}

/// The argument a worker passes to the work entry point.
#[derive(Clone, Copy, Debug, PartialEq, Eq, Structural)]
pub struct WorkPayload {
    pub agreement_id: u64,
}

/// A stored configuration always carries a validated fee rate.
pub open spec fn config_wf(config: Config) -> bool {
    config.fee_bps <= MAX_FEE_BPS
}

/// The status of `a` at `now`.  Expiry takes priority; an agreement lapses
/// once a whole interval has passed beyond the due checkpoint (strictly);
/// before its start it has not started; otherwise it is active.
pub open spec fn spec_status(a: Agreement, now: u64) -> AgreementStatus {
    if a.end_at matches Some(e) && e <= now {
        AgreementStatus::Expired
    } else if a.interval_due_at + a.interval < now {
        AgreementStatus::Lapsed
    } else if a.start_at > now {
        AgreementStatus::NotStarted
    } else {
        AgreementStatus::Active
    }
}

/// A charge is collectible exactly while the agreement is active and the
/// due checkpoint has been reached.
pub open spec fn spec_has_charge(a: Agreement, now: u64) -> bool {
    spec_status(a, now) == AgreementStatus::Active && a.interval_due_at <= now
}

/// The fee on one transfer: the basis-point share of the amount, cut to
/// the configured ceiling; zero when no rate is set.
pub open spec fn spec_p2p_fee(config: Config, amount: u128) -> int {
    if config.fee_bps == 0 {
        0
    } else {
        spec_min_fee(spec_bps_fee(amount, config.fee_bps), config.max_fee as int)
    }
}

/// The transfers one charge of `a` emits: the fee (when positive) from the
/// payer's wallet to the fee account, then the remainder to the payee.
pub open spec fn spec_p2p_charge_msgs(config: Config, a: Agreement) -> Seq<OutboundMsg> {
    let f = spec_p2p_fee(config, a.amount);
    if f > 0 {
        seq![
            crate::subscriptions::spec_transfer(a.from, config.fee_address, f as u128),
            crate::subscriptions::spec_transfer(a.from, a.to, (a.amount - f) as u128),
        ]
    } else {
        seq![crate::subscriptions::spec_transfer(a.from, a.to, a.amount)]
    }
}

/// The agreement after a successful charge at `now`: the due checkpoint
/// advances by exactly one interval — never by elapsed time — and the
/// charge time is recorded.
pub open spec fn spec_charged_agreement(a: Agreement, now: u64) -> Agreement {
    Agreement { interval_due_at: (a.interval_due_at + a.interval) as u64, last_charged: now, ..a }
}

/// Derives the status of an agreement at `now`.
pub fn compute_status(agreement: &Agreement, now: u64) -> (status: AgreementStatus)
    ensures
        status == spec_status(*agreement, now),
{
    let is_expired = match agreement.end_at {
        Some(e) => e <= now,
        None => false,
    };
    if is_expired {
        return AgreementStatus::Expired;
    }
    if (agreement.interval_due_at as u128) + (agreement.interval as u128) < (now as u128) {
        return AgreementStatus::Lapsed;
    }
    if agreement.start_at > now {
        return AgreementStatus::NotStarted;
    }
    AgreementStatus::Active
}

/// Whether a charge is collectible: only while active, and only once the
/// due checkpoint has been reached.  Lapsed and expired agreements can
/// never be charged again.
pub fn has_charge(agreement: &Agreement, status: AgreementStatus, now: u64) -> (r: bool)
    requires
        status == spec_status(*agreement, now),
    ensures
        r == spec_has_charge(*agreement, now),
{
    if status != AgreementStatus::Active {
        return false;
    }
    agreement.interval_due_at <= now
}

/// The fee payable on one transfer of `agreement`: the basis-point share
/// of the amount, never above the configured ceiling.
pub fn compute_fees(config: &Config, agreement: &Agreement) -> (fee: u128)
    requires
        config_wf(*config),
    ensures
        fee == spec_p2p_fee(*config, agreement.amount),
        fee <= agreement.amount,
{
    if config.fee_bps == 0 {
        return 0;
    }
    let fee_amount = bps_fee(agreement.amount, config.fee_bps);
    if fee_amount > config.max_fee {
        return config.max_fee;
    }
    fee_amount
}

/// The computed fee never exceeds the configured ceiling while a rate is
/// set, and never exceeds the principal it is taken from.
pub proof fn lemma_fee_respects_cap(config: Config, amount: u128)
    requires
        config_wf(config),
    ensures
        config.fee_bps != 0 ==> spec_p2p_fee(config, amount) <= config.max_fee,
        0 <= spec_p2p_fee(config, amount) <= amount,
{
    if config.fee_bps != 0 {
        crate::fees::lemma_fee_respects_floor(config.fee_bps, 0, amount);
    }
}

/// Charges the agreement if a charge is collectible: advances the due
/// checkpoint by exactly one interval, records the charge time, and
/// appends the fee and payee transfers.  Otherwise fails and touches
/// nothing.
pub fn attempt_charge(
    config: &Config,
    agreement: &mut Agreement,
    now: u64,
    messages: &mut Vec<OutboundMsg>,
) -> (r: Result<(), ContractError>)
    requires
        config_wf(*config),
        spec_has_charge(*old(agreement), now) ==> old(agreement).interval_due_at + old(agreement).interval <= u64::MAX,
    ensures
        r is Ok <==> spec_has_charge(*old(agreement), now),
        r matches Err(e) ==> e == ContractError::ZeroTransferableAmount && *final(agreement)
            == *old(agreement) && final(messages)@ == old(messages)@,
        r is Ok ==> *final(agreement) == spec_charged_agreement(*old(agreement), now)
            && final(messages)@ == old(messages)@ + spec_p2p_charge_msgs(
            *config,
            *old(agreement),
        ),
{
    let status = compute_status(agreement, now);
    if !has_charge(agreement, status, now) {
        return Err(ContractError::ZeroTransferableAmount);
    }
    agreement.interval_due_at = agreement.interval_due_at + agreement.interval;
    agreement.last_charged = now;

    let mut transfer_amount = agreement.amount;
    let fee_amount = compute_fees(config, &*agreement);
    if fee_amount > 0 {
        messages.push(OutboundMsg::SubWallet {
            wallet: agreement.from,
            msg: SubWalletExecuteMsg::TransferAToken {
                recipient: config.fee_address,
                amount: fee_amount,
            },
        });
        transfer_amount = transfer_amount - fee_amount;
    }
    messages.push(OutboundMsg::SubWallet {
        wallet: agreement.from,
        msg: SubWalletExecuteMsg::TransferAToken {
            recipient: agreement.to,
            amount: transfer_amount,
        },
    });
    proof {
        assert(final(messages)@ =~= old(messages)@ + spec_p2p_charge_msgs(
            *config,
            *old(agreement),
        ));
    }
    Ok(())
}

/// Every stored key was issued at or below the id counter, so the next
/// issued id is always fresh.
pub open spec fn spec_ids_bounded(t: Table<Agreement>, last_id: u64) -> bool {
    forall|k: u64| #[trigger] t.spec_contains(k) ==> k <= last_id
}

/// The start an agreement takes effect at: the requested time, but never
/// in the past.
pub open spec fn spec_effective_start(start_at: Option<u64>, now: u64) -> u64 {
    match start_at {
        None => now,
        Some(s) => if s < now {
            now
        } else {
            s
        },
    }
}

/// The first reason creating an agreement fails, if any: paying oneself,
/// an interval or amount below the configured floors, or an end time not
/// after the effective start.
pub open spec fn spec_create_check(
    config: Config,
    sender: u64,
    receiver: u64,
    amount: u128,
    start_at: Option<u64>,
    end_at: Option<u64>,
    interval: u64,
    now: u64,
) -> Option<ContractError> {
    if receiver == sender {
        Some(ContractError::CannotSetOwnAccount)
    } else if interval < config.minimum_interval {
        Some(ContractError::InvalidParams)
    } else if amount < config.minimum_amount_per_interval {
        Some(ContractError::InvalidParams)
    } else if end_at matches Some(e) && e <= spec_effective_start(start_at, now) {
        Some(ContractError::InvalidEndtime)
    } else {
        None
    }
}

/// The agreement a successful creation stores before its best-effort first
/// charge: due at the effective start, never charged beyond creation time.
pub open spec fn spec_new_agreement(
    sender: u64,
    receiver: u64,
    amount: u128,
    start_at: Option<u64>,
    end_at: Option<u64>,
    interval: u64,
    now: u64,
) -> Agreement {
    Agreement {
        to: receiver,
        from: sender,
        amount,
        created_at: now,
        interval,
        start_at: spec_effective_start(start_at, now),
        interval_due_at: spec_effective_start(start_at, now),
        last_charged: now,
        end_at,
    }
}

/// Creates an agreement under the next id, attempting an immediate
/// best-effort charge: if the agreement starts now, the first transfer is
/// emitted and the checkpoint advanced; otherwise it is stored untouched.
pub fn try_create_agreement(
    agreements: &mut Table<Agreement>,
    last_id: &mut u64,
    config: &Config,
    sender: u64,
    receiver: u64,
    amount: u128,
    start_at: Option<u64>,
    end_at: Option<u64>,
    interval: u64,
    now: u64,
) -> (r: Result<Response, ContractError>)
    requires
        old(agreements).wf(),
        config_wf(*config),
        spec_ids_bounded(*old(agreements), *old(last_id)),
        *old(last_id) < u64::MAX,
        spec_effective_start(start_at, now) == now ==> now + interval <= u64::MAX,
    ensures
        final(agreements).wf(),
        spec_ids_bounded(*final(agreements), *final(last_id)),
        r is Err <==> spec_create_check(
            *config,
            sender,
            receiver,
            amount,
            start_at,
            end_at,
            interval,
            now,
        ) is Some,
        r matches Err(e) ==> Some(e) == spec_create_check(
            *config,
            sender,
            receiver,
            amount,
            start_at,
            end_at,
            interval,
            now,
        ) && final(agreements)@ == old(agreements)@ && *final(last_id) == *old(last_id),
        r is Ok ==> {
            let fresh = spec_new_agreement(sender, receiver, amount, start_at, end_at, interval, now);
            let stored = if spec_has_charge(fresh, now) {
                spec_charged_agreement(fresh, now)
            } else {
                fresh
            };
            &&& *final(last_id) == *old(last_id) + 1
            &&& !old(agreements).spec_contains(*final(last_id))
            &&& final(agreements).as_map() == old(agreements).as_map().insert(
                *final(last_id),
                stored,
            )
        },
        r matches Ok(resp) ==> {
            let fresh = spec_new_agreement(sender, receiver, amount, start_at, end_at, interval, now);
            resp.messages@ == if spec_has_charge(fresh, now) {
                spec_p2p_charge_msgs(*config, fresh)
            } else {
                Seq::<OutboundMsg>::empty()
            }
        },
{
    if receiver == sender {
        return Err(ContractError::CannotSetOwnAccount);
    }
    if interval < config.minimum_interval {
        return Err(ContractError::InvalidParams);
    }
    if amount < config.minimum_amount_per_interval {
        return Err(ContractError::InvalidParams);
    }
    let start: u64 = match start_at {
        None => now,
        Some(s) => if s < now {
            now
        } else {
            s
        },
    };
    match end_at {
        Some(e) => {
            if e <= start {
                return Err(ContractError::InvalidEndtime);
            }
        },
        None => {},
    }
    let agreement_id = *last_id + 1;
    *last_id = agreement_id;

    let mut agreement = Agreement {
        to: receiver,
        from: sender,
        amount,
        created_at: now,
        interval,
        start_at: start,
        interval_due_at: start,
        last_charged: now,
        end_at,
    };
    let mut messages: Vec<OutboundMsg> = Vec::new();
    let _charged = attempt_charge(config, &mut agreement, now, &mut messages);
    agreements.save(agreement_id, agreement);
    Ok(Response { messages })
}

/// Cancels an agreement.  Only its payer may; nothing is refunded since
/// this primitive holds no escrow.
pub fn try_cancel(
    agreements: &mut Table<Agreement>,
    sender: u64,
    agreement_id: u64,
) -> (r: Result<Response, ContractError>)
    requires
        old(agreements).wf(),
    ensures
        final(agreements).wf(),
        r matches Err(e) ==> final(agreements)@ == old(agreements)@ && Some(e) == (
        if !old(agreements).as_map().contains_key(agreement_id) {
            Some(ContractError::AgreementNotFound)
        } else if old(agreements).as_map()[agreement_id].from != sender {
            Some(ContractError::Unauthorized)
        } else {
            None
        }),
        r is Ok <==> old(agreements).as_map().contains_key(agreement_id) && old(agreements).as_map()[agreement_id].from == sender,
        r is Ok ==> final(agreements).as_map() == old(agreements).as_map().remove(agreement_id),
        r matches Ok(resp) ==> resp.messages@ == Seq::<OutboundMsg>::empty(),
{
    proof {
        agreements.lemma_view_map();
    }
    let agreement: Agreement = match agreements.get(agreement_id) {
        Some(a) => *a,
        None => {
            return Err(ContractError::AgreementNotFound);
        },
    };
    if sender != agreement.from {
        return Err(ContractError::Unauthorized);
    }
    agreements.remove(agreement_id);
    Ok(Response { messages: Vec::new() })
}

/// Terminates a lapsed or expired agreement, removing its record.  Anyone
/// may terminate — it is garbage collection, not a value-moving action —
/// but an active or not-yet-started agreement cannot be terminated.
pub fn try_terminate(
    agreements: &mut Table<Agreement>,
    agreement_id: u64,
    now: u64,
) -> (r: Result<Response, ContractError>)
    requires
        old(agreements).wf(),
    ensures
        final(agreements).wf(),
        r matches Err(e) ==> final(agreements)@ == old(agreements)@ && Some(e) == (
        if !old(agreements).as_map().contains_key(agreement_id) {
            Some(ContractError::AgreementNotFound)
        } else if spec_status(old(agreements).as_map()[agreement_id], now)
            == AgreementStatus::Active || spec_status(
            old(agreements).as_map()[agreement_id],
            now,
        ) == AgreementStatus::NotStarted {
            Some(ContractError::CannotTerminateActiveAgreement)
        } else {
            None
        }),
        r is Ok <==> old(agreements).as_map().contains_key(agreement_id) && (spec_status(
            old(agreements).as_map()[agreement_id],
            now,
        ) == AgreementStatus::Lapsed || spec_status(old(agreements).as_map()[agreement_id], now)
            == AgreementStatus::Expired),
        r is Ok ==> final(agreements).as_map() == old(agreements).as_map().remove(agreement_id),
        r matches Ok(resp) ==> resp.messages@ == Seq::<OutboundMsg>::empty(),
{
    proof {
        agreements.lemma_view_map();
    }
    let agreement: Agreement = match agreements.get(agreement_id) {
        Some(a) => *a,
        None => {
            return Err(ContractError::AgreementNotFound);
        },
    };
    let status = compute_status(&agreement, now);
    if status == AgreementStatus::Active || status == AgreementStatus::NotStarted {
        return Err(ContractError::CannotTerminateActiveAgreement);
    }
    agreements.remove(agreement_id);
    Ok(Response { messages: Vec::new() })
}

/// The first reason a transfer fails, if any: no such agreement, or no
/// charge currently collectible.
pub open spec fn spec_transfer_check(
    m: Map<u64, Agreement>,
    agreement_id: u64,
    now: u64,
) -> Option<ContractError> {
    if !m.contains_key(agreement_id) {
        Some(ContractError::AgreementNotFound)
    } else if !spec_has_charge(m[agreement_id], now) {
        Some(ContractError::ZeroTransferableAmount)
    } else {
        None
    }
}

/// Settles one due transfer on the agreement: advances the due checkpoint
/// by exactly one interval and emits the fee and payee transfers, plus any
/// `additional_message` (used for worker receipts).  Anyone may trigger
/// it; eligibility is derived from the record and the clock alone.
pub fn try_transfer(
    agreements: &mut Table<Agreement>,
    config: &Config,
    agreement_id: u64,
    now: u64,
    additional_message: Option<OutboundMsg>,
) -> (r: Result<Response, ContractError>)
    requires
        old(agreements).wf(),
        config_wf(*config),
        old(agreements).as_map().contains_key(agreement_id) ==> old(agreements).as_map()[agreement_id].interval_due_at + old(agreements).as_map()[agreement_id].interval <= u64::MAX,
    ensures
        final(agreements).wf(),
        r is Err <==> spec_transfer_check(old(agreements).as_map(), agreement_id, now) is Some,
        r matches Err(e) ==> Some(e) == spec_transfer_check(
            old(agreements).as_map(),
            agreement_id,
            now,
        ) && final(agreements)@ == old(agreements)@,
        r is Ok ==> final(agreements).as_map() == old(agreements).as_map().insert(
            agreement_id,
            spec_charged_agreement(old(agreements).as_map()[agreement_id], now),
        ),
        r matches Ok(resp) ==> resp.messages@ == spec_p2p_charge_msgs(
            *config,
            old(agreements).as_map()[agreement_id],
        ) + match additional_message {
            Some(msg) => seq![msg],
            None => Seq::<OutboundMsg>::empty(),
        },
{
    proof {
        agreements.lemma_view_map();
    }
    let mut agreement: Agreement = match agreements.get(agreement_id) {
        Some(a) => *a,
        None => {
            return Err(ContractError::AgreementNotFound);
        },
    };
    let mut messages: Vec<OutboundMsg> = Vec::new();
    match attempt_charge(config, &mut agreement, now, &mut messages) {
        Ok(_) => {},
        Err(e) => {
            return Err(e);
        },
    }
    agreements.save(agreement_id, agreement);
    match additional_message {
        Some(msg) => {
            messages.push(msg);
        },
        None => {},
    }
    proof {
        assert(messages@ =~= spec_p2p_charge_msgs(
            *config,
            old(agreements).as_map()[agreement_id],
        ) + match additional_message {
            Some(msg) => seq![msg],
            None => Seq::<OutboundMsg>::empty(),
        });
    }
    Ok(Response { messages })
}

/// A worker performs upkeep: settles the due transfer and additionally
/// sends a receipt for the worker to the configured job registry.  Fails
/// when no registry is configured.
pub fn try_work(
    agreements: &mut Table<Agreement>,
    config: &Config,
    worker: u64,
    agreement_id: u64,
    now: u64,
) -> (r: Result<Response, ContractError>)
    requires
        old(agreements).wf(),
        config_wf(*config),
        old(agreements).as_map().contains_key(agreement_id) ==> old(agreements).as_map()[agreement_id].interval_due_at + old(agreements).as_map()[agreement_id].interval <= u64::MAX,
    ensures
        final(agreements).wf(),
        config.job_registry_contract is None ==> r == Result::<
            Response,
            ContractError,
        >::Err(ContractError::NoJobRegistry) && final(agreements)@ == old(agreements)@,
        config.job_registry_contract is Some ==> {
            &&& r is Err <==> spec_transfer_check(old(agreements).as_map(), agreement_id, now)
                is Some
            &&& (r matches Err(e) ==> Some(e) == spec_transfer_check(
                old(agreements).as_map(),
                agreement_id,
                now,
            ) && final(agreements)@ == old(agreements)@)
            &&& (r is Ok ==> final(agreements).as_map() == old(agreements).as_map().insert(
                agreement_id,
                spec_charged_agreement(old(agreements).as_map()[agreement_id], now),
            ))
            &&& (r matches Ok(resp) ==> resp.messages@ == spec_p2p_charge_msgs(
                *config,
                old(agreements).as_map()[agreement_id],
            ).push(
                OutboundMsg::JobsRegistry {
                    registry: config.job_registry_contract->0,
                    msg: JobsRegistryExecuteMsg::WorkReceipt { worker_address: worker },
                },
            ))
        },
{
    let registry: u64 = match config.job_registry_contract {
        Some(reg) => reg,
        None => {
            return Err(ContractError::NoJobRegistry);
        },
    };
    let receipt = OutboundMsg::JobsRegistry {
        registry,
        msg: JobsRegistryExecuteMsg::WorkReceipt { worker_address: worker },
    };
    let r = try_transfer(agreements, config, agreement_id, now, Some(receipt));
    proof {
        if r is Ok {
            assert(r->Ok_0.messages@ =~= spec_p2p_charge_msgs(
                *config,
                old(agreements).as_map()[agreement_id],
            ).push(receipt));
        }
    }
    r
}

/// Sets up the contract configuration.  The sender becomes the owner; the
/// fee address defaults to the owner, the rate and ceiling to zero; a rate
/// above the allowed maximum is rejected.
pub fn instantiate(msg: InstantiateMsg, sender: u64) -> (r: Result<Config, ContractError>)
    ensures
        r is Err <==> (msg.fee_bps matches Some(b) && b > MAX_FEE_BPS),
        r matches Err(e) ==> e == ContractError::InvalidFee,
        r matches Ok(config) ==> {
            &&& config_wf(config)
            &&& config.owner == sender
            &&& config.minimum_interval == msg.minimum_interval
            &&& config.minimum_amount_per_interval == msg.minimum_amount_per_interval
            &&& config.job_registry_contract == msg.job_registry_contract
            &&& config.fee_bps == match msg.fee_bps {
                Some(b) => b,
                None => 0u64,
            }
            &&& config.fee_address == match msg.fee_address {
                Some(a) => a,
                None => sender,
            }
            &&& config.max_fee == match msg.max_fee {
                Some(f) => f,
                None => 0u128,
            }
        },
{
    let fee_bps: u64 = match msg.fee_bps {
        Some(b) => b,
        None => 0,
    };
    if !crate::fees::validate_protocol_fee(fee_bps) {
        return Err(ContractError::InvalidFee);
    }
    let fee_address: u64 = match msg.fee_address {
        Some(a) => a,
        None => sender,
    };
    let max_fee: u128 = match msg.max_fee {
        Some(f) => f,
        None => 0,
    };
    Ok(Config {
        owner: sender,
        job_registry_contract: msg.job_registry_contract,
        minimum_interval: msg.minimum_interval,
        minimum_amount_per_interval: msg.minimum_amount_per_interval,
        fee_bps,
        fee_address,
        max_fee,
    })
}

/// Updates contract settings.  Only the owner may; a fee rate above the
/// allowed maximum is rejected and nothing changes.
pub fn update_config(
    config: &mut Config,
    sender: u64,
    job_registry_contract: Option<u64>,
    new_minimum_interval: Option<u64>,
    new_minimum_amount_per_interval: Option<u128>,
    new_owner: Option<u64>,
    new_fee_bps: Option<u64>,
    new_fee_address: Option<u64>,
    new_max_fee: Option<u128>,
) -> (r: Result<Response, ContractError>)
    requires
        config_wf(*old(config)),
    ensures
        config_wf(*final(config)),
        r matches Err(e) ==> *final(config) == *old(config) && Some(e) == (
        if sender != old(config).owner {
            Some(ContractError::Unauthorized)
        } else if new_fee_bps matches Some(b) && b > MAX_FEE_BPS {
            Some(ContractError::InvalidFee)
        } else {
            None
        }),
        r is Ok <==> sender == old(config).owner && (new_fee_bps matches Some(b) ==> b
            <= MAX_FEE_BPS),
        r is Ok ==> *final(config) == (Config {
            minimum_interval: match new_minimum_interval {
                Some(v) => v,
                None => old(config).minimum_interval,
            },
            minimum_amount_per_interval: match new_minimum_amount_per_interval {
                Some(v) => v,
                None => old(config).minimum_amount_per_interval,
            },
            job_registry_contract: match job_registry_contract {
                Some(v) => Some(v),
                None => old(config).job_registry_contract,
            },
            owner: match new_owner {
                Some(v) => v,
                None => old(config).owner,
            },
            fee_bps: match new_fee_bps {
                Some(v) => v,
                None => old(config).fee_bps,
            },
            max_fee: match new_max_fee {
                Some(v) => v,
                None => old(config).max_fee,
            },
            fee_address: match new_fee_address {
                Some(v) => v,
                None => old(config).fee_address,
            },
        }),
        r matches Ok(resp) ==> resp.messages@ == Seq::<OutboundMsg>::empty(),
{
    if sender != config.owner {
        return Err(ContractError::Unauthorized);
    }
    match new_fee_bps {
        Some(b) => {
            if !crate::fees::validate_protocol_fee(b) {
                return Err(ContractError::InvalidFee);
            }
            config.fee_bps = b;
        },
        None => {},
    }
    match new_minimum_interval {
        Some(v) => {
            config.minimum_interval = v;
        },
        None => {},
    }
    match new_minimum_amount_per_interval {
        Some(v) => {
            config.minimum_amount_per_interval = v;
        },
        None => {},
    }
    match job_registry_contract {
        Some(v) => {
            config.job_registry_contract = Some(v);
        },
        None => {},
    }
    match new_owner {
        Some(v) => {
            config.owner = v;
        },
        None => {},
    }
    match new_max_fee {
        Some(v) => {
            config.max_fee = v;
        },
        None => {},
    }
    match new_fee_address {
        Some(v) => {
            config.fee_address = v;
        },
        None => {},
    }
    Ok(Response { messages: Vec::new() })
}

/// An agreement as a caller sees it, with its derived status and the
/// amount a charge would currently collect.
#[derive(Clone, Copy, Debug, PartialEq, Eq, Structural)]
pub struct AgreementResponse {
    pub to: u64,
    pub from: u64,
    pub amount: u128,
    pub created_at: u64,
    pub interval: u64,
    pub interval_due_at: u64,
    pub last_charged: u64,
    pub start_at: u64,
    pub end_at: Option<u64>,
    pub status: AgreementStatus,
    pub pending_charge: u128,
}

impl AgreementResponse {
    /// Assembles the response from a stored agreement, its status, and the
    /// pending charge amount.
    pub fn new(agreement: &Agreement, status: &AgreementStatus, pending_charge: &u128) -> (r:
        AgreementResponse)
        ensures
            r.to == agreement.to,
            r.from == agreement.from,
            r.amount == agreement.amount,
            r.created_at == agreement.created_at,
            r.interval == agreement.interval,
            r.interval_due_at == agreement.interval_due_at,
            r.last_charged == agreement.last_charged,
            r.start_at == agreement.start_at,
            r.end_at == agreement.end_at,
            r.status == *status,
            r.pending_charge == *pending_charge,
    {
        AgreementResponse {
            to: agreement.to,
            from: agreement.from,
            amount: agreement.amount,
            created_at: agreement.created_at,
            interval: agreement.interval,
            interval_due_at: agreement.interval_due_at,
            last_charged: agreement.last_charged,
            start_at: agreement.start_at,
            end_at: agreement.end_at,
            status: *status,
            pending_charge: *pending_charge,
        }
    }
}

/// The agreement under `agreement_id` with its derived status; the pending
/// charge is the agreement amount exactly while a charge is collectible.
pub fn query_agreement(
    agreements: &Table<Agreement>,
    agreement_id: u64,
    now: u64,
) -> (r: Result<AgreementResponse, ContractError>)
    requires
        agreements.wf(),
    ensures
        r is Ok <==> agreements.as_map().contains_key(agreement_id),
        r matches Err(e) ==> e == ContractError::AgreementNotFound,
        r matches Ok(resp) ==> {
            let a = agreements.as_map()[agreement_id];
            &&& resp == (AgreementResponse {
                to: a.to,
                from: a.from,
                amount: a.amount,
                created_at: a.created_at,
                interval: a.interval,
                interval_due_at: a.interval_due_at,
                last_charged: a.last_charged,
                start_at: a.start_at,
                end_at: a.end_at,
                status: spec_status(a, now),
                pending_charge: if spec_has_charge(a, now) {
                    a.amount
                } else {
                    0u128
                },
            })
        },
{
    proof {
        agreements.lemma_view_map();
    }
    let agreement: Agreement = match agreements.get(agreement_id) {
        Some(a) => *a,
        None => {
            return Err(ContractError::AgreementNotFound);
        },
    };
    let status = compute_status(&agreement, now);
    let charge = has_charge(&agreement, status, now);
    let charge_amount: u128 = if charge {
        agreement.amount
    } else {
        0
    };
    Ok(AgreementResponse::new(&agreement, &status, &charge_amount))
}

/// Whether a worker would find work on this agreement: it exists and a
/// charge is collectible.
pub fn query_can_work(agreements: &Table<Agreement>, agreement_id: u64, now: u64) -> (can: bool)
    requires
        agreements.wf(),
    ensures
        can == (agreements.as_map().contains_key(agreement_id) && spec_has_charge(
            agreements.as_map()[agreement_id],
            now,
        )),
{
    proof {
        agreements.lemma_view_map();
    }
    let agreement: Agreement = match agreements.get(agreement_id) {
        Some(a) => *a,
        None => {
            return false;
        },
    };
    let status = compute_status(&agreement, now);
    has_charge(&agreement, status, now)
}

/// The contract settings.
pub fn query_config(config: &Config) -> (r: Config)
    ensures
        r == *config,
{
    *config
}

/// One page of agreement ids, with the last key seen for the next cursor.
#[derive(Clone, Debug)]
pub struct AgreementsResponse {
    pub agreement_ids: Vec<u64>,
    pub last_key: Option<u64>,
}

/// Keeps the entries that pass the optional payer and payee filters and
/// lie after the exclusive cursor.
pub open spec fn list_pred(
    owner_filter: Option<u64>,
    receiver_filter: Option<u64>,
    start_after: Option<u64>,
) -> spec_fn((u64, Agreement)) -> bool {
    |e: (u64, Agreement)|
        (match owner_filter {
            None => true,
            Some(o) => e.1.from == o,
        }) && (match receiver_filter {
            None => true,
            Some(t) => e.1.to == t,
        }) && (match start_after {
            None => true,
            Some(a) => e.0 > a,
        })
}

/// One page of the ids whose entries match `pred`, in ascending id order.
pub open spec fn spec_id_page(
    s: Seq<(u64, Agreement)>,
    pred: spec_fn((u64, Agreement)) -> bool,
    limit: int,
) -> Seq<u64> {
    take_at_most(s.filter(pred).map_values(|e: (u64, Agreement)| e.0), limit)
}

/// Walks the table in ascending id order and collects one page of the ids
/// whose entries pass the filters and lie after the cursor.
fn page_ids(
    agreements: &Table<Agreement>,
    owner_filter: Option<u64>,
    receiver_filter: Option<u64>,
    start_after: Option<u64>,
    limit: usize,
) -> (page: Vec<u64>)
    requires
        agreements.wf(),
    ensures
        page@ == spec_id_page(
            agreements@,
            list_pred(owner_filter, receiver_filter, start_after),
            limit as int,
        ),
        page@.len() <= limit,
{
    let ghost pred = list_pred(owner_filter, receiver_filter, start_after);
    let n = agreements.len();
    let mut out: Vec<u64> = Vec::new();
    let mut i: usize = 0;
    while i < n
        invariant
            i <= n,
            n == agreements@.len(),
            agreements.wf(),
            pred == list_pred(owner_filter, receiver_filter, start_after),
            out@ == spec_id_page(agreements@.take(i as int), pred, limit as int),
            out@.len() <= limit,
        decreases n - i,
    {
        let e = agreements.entry_at(i);
        let keep = (match owner_filter {
            None => true,
            Some(o) => e.1.from == o,
        }) && (match receiver_filter {
            None => true,
            Some(t) => e.1.to == t,
        }) && (match start_after {
            None => true,
            Some(a) => e.0 > a,
        });
        let ghost pre = agreements@.take(i as int).filter(pred);
        let ghost post = agreements@.take(i + 1).filter(pred);
        proof {
            crate::pagination::lemma_filter_take_step(agreements@, pred, i as int);
            assert(keep == pred(agreements@[i as int]));
        }
        if keep && out.len() < limit {
            out.push(e.0);
            proof {
                assert(post == pre.push(agreements@[i as int]));
                assert(take_at_most(post, limit as int) =~= post);
                assert(out@ =~= take_at_most(post, limit as int).map_values(
                    |x: (u64, Agreement)| x.0,
                ));
            }
        } else {
            proof {
                if keep {
                    assert(post == pre.push(agreements@[i as int]));
                    assert(take_at_most(post, limit as int).map_values(
                        |x: (u64, Agreement)| x.0,
                    ) =~= take_at_most(pre, limit as int).map_values(|x: (u64, Agreement)| x.0));
                } else {
                    assert(post == pre);
                }
            }
        }
        i = i + 1;
    }
    proof {
        assert(agreements@.take(n as int) =~= agreements@);
    }
    out
}

/// The page's ids with the last id seen, for the next cursor.
fn ids_response(page: Vec<u64>) -> (r: AgreementsResponse)
    ensures
        r.agreement_ids@ == page@,
        r.last_key == (if page@.len() > 0 {
            Some(page@.last())
        } else {
            None::<u64>
        }),
{
    let last_key: Option<u64> = if page.len() > 0 {
        Some(page[page.len() - 1])
    } else {
        None
    };
    AgreementsResponse { agreement_ids: page, last_key }
}

/// The agreements paid by `owner`: one page of ids in ascending order
/// after the exclusive cursor, and the last id seen.
pub fn query_all_agreements_by_owner(
    agreements: &Table<Agreement>,
    owner: u64,
    start_after: Option<u64>,
    limit: Option<u32>,
) -> (r: AgreementsResponse)
    requires
        agreements.wf(),
    ensures
        r.agreement_ids@ == spec_id_page(
            agreements@,
            list_pred(Some(owner), None, start_after),
            spec_limit(limit),
        ),
        r.last_key == (if r.agreement_ids@.len() > 0 {
            Some(r.agreement_ids@.last())
        } else {
            None::<u64>
        }),
{
    let lim = calc_limit(limit);
    ids_response(page_ids(agreements, Some(owner), None, start_after, lim))
}

/// The agreements received by `receiver`: one page of ids in ascending
/// order after the exclusive cursor, and the last id seen.
pub fn query_all_agreements_by_receiver(
    agreements: &Table<Agreement>,
    receiver: u64,
    start_after: Option<u64>,
    limit: Option<u32>,
) -> (r: AgreementsResponse)
    requires
        agreements.wf(),
    ensures
        r.agreement_ids@ == spec_id_page(
            agreements@,
            list_pred(None, Some(receiver), start_after),
            spec_limit(limit),
        ),
        r.last_key == (if r.agreement_ids@.len() > 0 {
            Some(r.agreement_ids@.last())
        } else {
            None::<u64>
        }),
{
    let lim = calc_limit(limit);
    ids_response(page_ids(agreements, None, Some(receiver), start_after, lim))
}

/// All agreements: one page of ids in ascending order after the exclusive
/// cursor, and the last id seen.
pub fn query_all_agreements(
    agreements: &Table<Agreement>,
    start_after: Option<u64>,
    limit: Option<u32>,
) -> (r: AgreementsResponse)
    requires
        agreements.wf(),
    ensures
        r.agreement_ids@ == spec_id_page(
            agreements@,
            list_pred(None, None, start_after),
            spec_limit(limit),
        ),
        r.last_key == (if r.agreement_ids@.len() > 0 {
            Some(r.agreement_ids@.last())
        } else {
            None::<u64>
        }),
{
    let lim = calc_limit(limit);
    ids_response(page_ids(agreements, None, None, start_after, lim))
}

/// Lexicographic order on (due time, id) pairs: the order of the due-time
/// index.
pub open spec fn pair_lt(a: (u64, u64), b: (u64, u64)) -> bool {
    a.0 < b.0 || (a.0 == b.0 && a.1 < b.1)
}

/// The due-time index key of an entry: due checkpoint first, then id.
pub open spec fn due_pair(e: (u64, Agreement)) -> (u64, u64) {
    (e.1.interval_due_at, e.0)
}

/// An entry the overdue scan reports at `now` past the exclusive due-time
/// cursor: a charge is collectible on it (it is active with its checkpoint
/// reached), and its due time lies after the cursor.  Lapsed and expired
/// agreements are excluded even though their records still exist.
pub open spec fn spec_overdue_match(e: (u64, Agreement), now: u64, start_after: Option<u64>) -> bool {
    spec_has_charge(e.1, now) && (match start_after {
        None => true,
        Some(a) => e.1.interval_due_at > a,
    })
}

/// The ids the overdue scan returned, read back as due-time index keys.
pub open spec fn spec_overdue_pairs(m: Map<u64, Agreement>, ids: Seq<u64>) -> Seq<(u64, u64)> {
    ids.map_values(|k: u64| (m[k].interval_due_at, k))
}

/// The currently chargeable agreements, ordered by the due-time index:
/// one page of ids whose due checkpoint is at or before `now` (and past
/// the exclusive `start_after` due-time cursor), restricted to active
/// agreements, in ascending (due time, id) order.  The page is an exact
/// cut of that ordering: every matching agreement at or below the last
/// returned key is in it, and a page shorter than the limit holds every
/// matching agreement.  The last key reported is the due time of the last
/// id, the cursor for the next page.
pub fn query_overdue_agreements(
    agreements: &Table<Agreement>,
    now: u64,
    start_after: Option<u64>,
    limit: Option<u32>,
) -> (r: AgreementsResponse)
    requires
        agreements.wf(),
    ensures
        r.agreement_ids@.len() <= spec_limit(limit),
        forall|i: int| 0 <= i < r.agreement_ids@.len() ==> {
            let k = #[trigger] r.agreement_ids@[i];
            agreements.as_map().contains_key(k) && spec_overdue_match(
                (k, agreements.as_map()[k]),
                now,
                start_after,
            )
        },
        forall|i: int, j: int| 0 <= i < j < r.agreement_ids@.len() ==> pair_lt(
            spec_overdue_pairs(agreements.as_map(), r.agreement_ids@)[i],
            spec_overdue_pairs(agreements.as_map(), r.agreement_ids@)[j],
        ),
        forall|k: u64| #[trigger] agreements.as_map().contains_key(k) && spec_overdue_match(
            (k, agreements.as_map()[k]),
            now,
            start_after,
        ) && r.agreement_ids@.len() < spec_limit(limit) ==> r.agreement_ids@.contains(k),
        forall|k: u64| #[trigger] agreements.as_map().contains_key(k) && spec_overdue_match(
            (k, agreements.as_map()[k]),
            now,
            start_after,
        ) && r.agreement_ids@.len() > 0 && !pair_lt(
            due_pair((r.agreement_ids@.last(), agreements.as_map()[r.agreement_ids@.last()])),
            due_pair((k, agreements.as_map()[k])),
        ) ==> r.agreement_ids@.contains(k),
        r.last_key == (if r.agreement_ids@.len() > 0 {
            Some(agreements.as_map()[r.agreement_ids@.last()].interval_due_at)
        } else {
            None::<u64>
        }),
{
    proof {
        agreements.lemma_view_map();
    }
    let lim = calc_limit(limit);
    let n = agreements.len();
    let mut out: Vec<u64> = Vec::new();
    let mut cursor: Option<(u64, u64)> = None;
    let mut last_due: u64 = 0;
    let mut done = false;
    while !done && out.len() < lim
        invariant
            agreements.wf(),
            n == agreements@.len(),
            lim == spec_limit(limit),
            out@.len() <= lim,
            forall|i: int| 0 <= i < out@.len() ==> {
                let k = #[trigger] out@[i];
                agreements.as_map().contains_key(k) && spec_overdue_match(
                    (k, agreements.as_map()[k]),
                    now,
                    start_after,
                )
            },
            forall|i: int, j: int| 0 <= i < j < out@.len() ==> pair_lt(
                spec_overdue_pairs(agreements.as_map(), out@)[i],
                spec_overdue_pairs(agreements.as_map(), out@)[j],
            ),
            cursor is Some <==> out@.len() > 0,
            cursor matches Some(c) ==> out@.len() > 0 && c == due_pair(
                (out@.last(), agreements.as_map()[out@.last()]),
            ) && last_due == c.0,
            forall|k: u64| #[trigger] agreements.as_map().contains_key(k) && spec_overdue_match(
                (k, agreements.as_map()[k]),
                now,
                start_after,
            ) && (match cursor {
                None => false,
                Some(c) => !pair_lt(c, due_pair((k, agreements.as_map()[k]))),
            }) ==> out@.contains(k),
            done ==> (forall|k: u64| #[trigger] agreements.as_map().contains_key(k)
                && spec_overdue_match((k, agreements.as_map()[k]), now, start_after)
                ==> out@.contains(k)),
        decreases (if done { 0int } else { 1int }) + lim - out@.len(),
    {
        let mut best: Option<(u64, u64)> = None;
        let ghost mut best_idx: int = 0;
        let mut i: usize = 0;
        while i < n
            invariant
                agreements.wf(),
                n == agreements@.len(),
                i <= n,
                best matches Some(b) ==> 0 <= best_idx < n && due_pair(
                    agreements@[best_idx],
                ) == b && spec_overdue_match(agreements@[best_idx], now, start_after) && (
                match cursor {
                    None => true,
                    Some(c) => pair_lt(c, b),
                }),
                forall|j: int| 0 <= j < i && spec_overdue_match(
                    #[trigger] agreements@[j],
                    now,
                    start_after,
                ) && (match cursor {
                    None => true,
                    Some(c) => pair_lt(c, due_pair(agreements@[j])),
                }) ==> (best matches Some(b) && !pair_lt(due_pair(agreements@[j]), b)),
            decreases n - i,
        {
            let e = agreements.entry_at(i);
            let status = compute_status(&e.1, now);
            let is_match = status == AgreementStatus::Active && e.1.interval_due_at <= now
                && (match start_after {
                None => true,
                Some(a) => e.1.interval_due_at > a,
            });
            if is_match {
                let pr = (e.1.interval_due_at, e.0);
                let beyond_cursor = match cursor {
                    None => true,
                    Some(c) => c.0 < pr.0 || (c.0 == pr.0 && c.1 < pr.1),
                };
                if beyond_cursor {
                    let better = match best {
                        None => true,
                        Some(b) => pr.0 < b.0 || (pr.0 == b.0 && pr.1 < b.1),
                    };
                    if better {
                        best = Some(pr);
                        proof {
                            best_idx = i as int;
                        }
                    }
                }
            }
            i = i + 1;
        }
        match best {
            Some(b) => {
                let ghost prev = out@;
                out.push(b.1);
                last_due = b.0;
                cursor = Some(b);
                proof {
                    agreements.lemma_view_map();
                    assert(agreements@[best_idx].0 == b.1);
                    assert(agreements.as_map()[b.1] == agreements@[best_idx].1);
                    assert forall|x: int, y: int| 0 <= x < y < out@.len() implies pair_lt(
                        spec_overdue_pairs(agreements.as_map(), out@)[x],
                        spec_overdue_pairs(agreements.as_map(), out@)[y],
                    ) by {
                        if y < out@.len() - 1 {
                            assert(pair_lt(
                                spec_overdue_pairs(agreements.as_map(), prev)[x],
                                spec_overdue_pairs(agreements.as_map(), prev)[y],
                            ));
                        } else {
                            if x < prev.len() - 1 {
                                assert(pair_lt(
                                    spec_overdue_pairs(agreements.as_map(), prev)[x],
                                    spec_overdue_pairs(agreements.as_map(), prev)[prev.len() - 1],
                                ));
                            }
                        }
                    }
                    assert forall|k: u64| #[trigger] agreements.as_map().contains_key(k)
                        && spec_overdue_match((k, agreements.as_map()[k]), now, start_after)
                        && !pair_lt(b, due_pair((k, agreements.as_map()[k])))
                        implies out@.contains(k) by {
                        let kp = due_pair((k, agreements.as_map()[k]));
                        assert(agreements.spec_contains(k));
                        let j = choose|j: int|
                            0 <= j < agreements@.len() && #[trigger] agreements@[j].0 == k;
                        assert(agreements.as_map()[k] == agreements@[j].1);
                        assert(due_pair(agreements@[j]) == kp);
                        if prev.len() > 0 && !pair_lt(
                            due_pair((prev.last(), agreements.as_map()[prev.last()])),
                            kp,
                        ) {
                            assert(prev.contains(k));
                            let x = choose|x: int| 0 <= x < prev.len() && prev[x] == k;
                            assert(out@[x] == k);
                        } else {
                            assert(spec_overdue_match(agreements@[j], now, start_after));
                            assert(best matches Some(bb) && !pair_lt(due_pair(agreements@[j]), b));
                            assert(!pair_lt(kp, b) && !pair_lt(b, kp));
                            assert(kp == b);
                            assert(k == b.1);
                            assert(out@[out@.len() - 1] == k);
                        }
                    }
                }
            },
            None => {
                done = true;
                proof {
                    agreements.lemma_view_map();
                    assert forall|k: u64| #[trigger] agreements.as_map().contains_key(k)
                        && spec_overdue_match((k, agreements.as_map()[k]), now, start_after)
                        implies out@.contains(k) by {
                        let kp = due_pair((k, agreements.as_map()[k]));
                        assert(agreements.spec_contains(k));
                        let j = choose|j: int|
                            0 <= j < agreements@.len() && #[trigger] agreements@[j].0 == k;
                        assert(agreements.as_map()[k] == agreements@[j].1);
                        match cursor {
                            None => {
                                assert(spec_overdue_match(agreements@[j], now, start_after));
                                assert(false);
                            },
                            Some(c) => {
                                if pair_lt(c, kp) {
                                    assert(spec_overdue_match(agreements@[j], now, start_after));
                                    assert(false);
                                } else {
                                    assert(out@.contains(k));
                                }
                            },
                        }
                    }
                }
            },
        }
    }
    let last_key: Option<u64> = if out.len() > 0 {
        Some(last_due)
    } else {
        None
    };
    proof {
        if out@.len() > 0 {
            assert(last_due == agreements.as_map()[out@.last()].interval_due_at);
        }
        if out@.len() < lim {
            assert(done);
        }
    }
    AgreementsResponse { agreement_ids: out, last_key }
}

/// The operations of the transfer contract, as one closed set of message
/// variants; new operations extend the set, the dispatch match is
/// exhaustive.
#[derive(Clone, Copy, Debug, PartialEq, Eq, Structural)]
pub enum ExecuteMsg {
    CreateAgreement {
        receiver: u64,
        amount: u128,
        start_at: Option<u64>,
        end_at: Option<u64>,
        interval: u64,
    },
    Transfer { agreement_id: u64 },
    Work { payload: WorkPayload },
    CancelAgreement { agreement_id: u64 },
    TerminateAgreement { agreement_id: u64 },
    UpdateConfig {
        job_registry_contract: Option<u64>,
        minimum_interval: Option<u64>,
        minimum_amount_per_interval: Option<u128>,
        new_owner: Option<u64>,
        fee_bps: Option<u64>,
        fee_address: Option<u64>,
        max_fee: Option<u128>,
    },
}

/// The machine bounds the dispatched operation relies on, by variant.
pub open spec fn spec_execute_fits(
    m: Map<u64, Agreement>,
    last_id: u64,
    now: u64,
    msg: ExecuteMsg,
) -> bool {
    match msg {
        ExecuteMsg::CreateAgreement { start_at, interval, .. } => last_id < u64::MAX && (
        spec_effective_start(start_at, now) == now ==> now + interval <= u64::MAX),
        ExecuteMsg::Transfer { agreement_id } => m.contains_key(agreement_id)
            ==> m[agreement_id].interval_due_at + m[agreement_id].interval <= u64::MAX,
        ExecuteMsg::Work { payload } => m.contains_key(payload.agreement_id)
            ==> m[payload.agreement_id].interval_due_at + m[payload.agreement_id].interval
            <= u64::MAX,
        _ => true,
    }
}

/// Routes one operation to its handler.  Each arm's outcome is pinned by
/// the named operation's own contract; the dispatcher adds only that the
/// parts of the state the operation does not own are left untouched.
pub fn execute(
    agreements: &mut Table<Agreement>,
    last_id: &mut u64,
    config: &mut Config,
    sender: u64,
    now: u64,
    msg: ExecuteMsg,
) -> (r: Result<Response, ContractError>)
    requires
        old(agreements).wf(),
        config_wf(*old(config)),
        spec_ids_bounded(*old(agreements), *old(last_id)),
        spec_execute_fits(old(agreements).as_map(), *old(last_id), now, msg),
    ensures
        final(agreements).wf(),
        config_wf(*final(config)),
        spec_ids_bounded(*final(agreements), *final(last_id)),
        !(msg matches ExecuteMsg::UpdateConfig { .. }) ==> *final(config) == *old(config),
        !(msg matches ExecuteMsg::CreateAgreement { .. }) ==> *final(last_id) == *old(last_id),
        msg matches ExecuteMsg::UpdateConfig { .. } ==> final(agreements)@ == old(agreements)@,
        msg matches ExecuteMsg::CreateAgreement { receiver, amount, start_at, end_at, interval }
            ==> {
            &&& (r is Err <==> spec_create_check(
                *old(config),
                sender,
                receiver,
                amount,
                start_at,
                end_at,
                interval,
                now,
            ) is Some)
            &&& (r is Err ==> final(agreements)@ == old(agreements)@ && *final(last_id) == *old(last_id))
            &&& (r is Ok ==> {
                let fresh = spec_new_agreement(
                    sender,
                    receiver,
                    amount,
                    start_at,
                    end_at,
                    interval,
                    now,
                );
                let stored = if spec_has_charge(fresh, now) {
                    spec_charged_agreement(fresh, now)
                } else {
                    fresh
                };
                *final(last_id) == *old(last_id) + 1 && final(agreements).as_map() == old(agreements).as_map().insert(*final(last_id), stored)
            })
        },
        msg matches ExecuteMsg::Transfer { agreement_id } ==> {
            &&& (r is Err <==> spec_transfer_check(old(agreements).as_map(), agreement_id, now)
                is Some)
            &&& (r is Err ==> final(agreements)@ == old(agreements)@)
            &&& (r matches Ok(resp) ==> final(agreements).as_map() == old(agreements).as_map().insert(
                agreement_id,
                spec_charged_agreement(old(agreements).as_map()[agreement_id], now),
            ) && resp.messages@ == spec_p2p_charge_msgs(
                *old(config),
                old(agreements).as_map()[agreement_id],
            ))
        },
        msg matches ExecuteMsg::Work { payload } ==> {
            &&& (old(config).job_registry_contract is None ==> r == Result::<
                Response,
                ContractError,
            >::Err(ContractError::NoJobRegistry) && final(agreements)@ == old(agreements)@)
            &&& (old(config).job_registry_contract is Some && r is Ok ==> final(agreements).as_map() == old(agreements).as_map().insert(
                payload.agreement_id,
                spec_charged_agreement(old(agreements).as_map()[payload.agreement_id], now),
            ))
        },
        msg matches ExecuteMsg::CancelAgreement { agreement_id } ==> {
            &&& (r is Ok <==> old(agreements).as_map().contains_key(agreement_id) && old(agreements).as_map()[agreement_id].from == sender)
            &&& (r is Ok ==> final(agreements).as_map() == old(agreements).as_map().remove(
                agreement_id,
            ))
            &&& (r is Err ==> final(agreements)@ == old(agreements)@)
        },
        msg matches ExecuteMsg::TerminateAgreement { agreement_id } ==> {
            &&& (r is Ok <==> old(agreements).as_map().contains_key(agreement_id) && (
            spec_status(old(agreements).as_map()[agreement_id], now) == AgreementStatus::Lapsed
                || spec_status(old(agreements).as_map()[agreement_id], now)
                == AgreementStatus::Expired))
            &&& (r is Ok ==> final(agreements).as_map() == old(agreements).as_map().remove(
                agreement_id,
            ))
            &&& (r is Err ==> final(agreements)@ == old(agreements)@)
        },
{
    let r = match msg {
        ExecuteMsg::CreateAgreement { receiver, amount, start_at, end_at, interval } => {
            try_create_agreement(
                agreements,
                last_id,
                config,
                sender,
                receiver,
                amount,
                start_at,
                end_at,
                interval,
                now,
            )
        },
        ExecuteMsg::Transfer { agreement_id } => {
            try_transfer(agreements, config, agreement_id, now, None)
        },
        ExecuteMsg::Work { payload } => {
            try_work(agreements, config, sender, payload.agreement_id, now)
        },
        ExecuteMsg::CancelAgreement { agreement_id } => {
            try_cancel(agreements, sender, agreement_id)
        },
        ExecuteMsg::TerminateAgreement { agreement_id } => {
            try_terminate(agreements, agreement_id, now)
        },
        ExecuteMsg::UpdateConfig {
            job_registry_contract,
            minimum_interval,
            minimum_amount_per_interval,
            new_owner,
            fee_bps,
            fee_address,
            max_fee,
        } => update_config(
            config,
            sender,
            job_registry_contract,
            minimum_interval,
            minimum_amount_per_interval,
            new_owner,
            fee_bps,
            fee_address,
            max_fee,
        ),
    };
    proof {
        agreements.lemma_view_map();
        old(agreements).lemma_view_map();
        assert forall|k: u64| #[trigger] agreements.spec_contains(k)
            implies k <= *last_id by {
            assert(agreements.as_map().contains_key(k));
            if old(agreements).as_map().contains_key(k) {
                assert(old(agreements).spec_contains(k));
            }
        }
    }
    r
}

/// Pagination of the id listings is complete: a page is an exact
/// contiguous cut, past the cursor, of the unbounded (cursor-free)
/// listing with the same filters; a page shorter than the limit is the
/// whole remainder; and restarting from the page's last id continues at
/// exactly the next element.  Walking pages to exhaustion therefore
/// yields the same ids, in the same order, as one unbounded listing.
pub proof fn lemma_listing_pagination_complete(
    t: Table<Agreement>,
    owner_filter: Option<u64>,
    receiver_filter: Option<u64>,
    start_after: Option<u64>,
    limit: int,
)
    requires
        t.wf(),
        limit >= 0,
    ensures
        ({
            let base = t@.filter(list_pred(owner_filter, receiver_filter, None)).map_values(
                |e: (u64, Agreement)| e.0,
            );
            let page = spec_id_page(
                t@,
                list_pred(owner_filter, receiver_filter, start_after),
                limit,
            );
            &&& page == crate::pagination::page(base, start_after, limit)
            &&& (page.len() < limit ==> page == crate::pagination::after(base, start_after))
            &&& (page.len() > 0 ==> crate::pagination::after(base, Some(page.last()))
                == crate::pagination::after(base, start_after).skip(page.len() as int))
        }),
{
    let vp = list_pred(owner_filter, receiver_filter, None);
    let base = t@.filter(vp).map_values(|e: (u64, Agreement)| e.0);
    match start_after {
        None => {
            assert(t@.filter(list_pred(owner_filter, receiver_filter, None)) == t@.filter(vp));
        },
        Some(a) => {
            let cp = list_pred(owner_filter, receiver_filter, Some(a));
            assert forall|e: (u64, Agreement)| #[trigger] cp(e) == (vp(e) && e.0 > a) by {}
            crate::pagination::lemma_filter_cursor_commutes(t@, vp, cp, a);
        },
    }
    crate::pagination::lemma_filter_keys_sorted(t@, vp);
    crate::pagination::lemma_pagination_complete(base, start_after, limit);
}

/// Expiry is checked first: an agreement whose end time has passed reports
/// `Expired`, never `Lapsed`, even when it has also missed a whole
/// interval beyond its due checkpoint.
pub proof fn lemma_status_priority(a: Agreement, now: u64)
    requires
        a.end_at matches Some(e) && e <= now,
    ensures
        spec_status(a, now) == AgreementStatus::Expired,
        spec_status(a, now) != AgreementStatus::Lapsed,
{
}

/// A successful charge advances the due checkpoint by exactly one whole
/// interval — never by elapsed time — so checkpoints never decrease and
/// always sit a whole number of intervals from where they began.
pub proof fn lemma_due_checkpoint_advances(a: Agreement, now: u64)
    requires
        a.interval_due_at + a.interval <= u64::MAX,
    ensures
        spec_charged_agreement(a, now).interval_due_at == a.interval_due_at + a.interval,
        spec_charged_agreement(a, now).interval_due_at >= a.interval_due_at,
{
}

} // verus!
