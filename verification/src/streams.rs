//! Continuous token streaming: a sender deposits a principal that vests
//! linearly to a receiver between a start and an end time.  The vested
//! ("streamed") amount at any moment is the truncating proportional share
//! of the principal; withdrawal is permissionless and bounded only by the
//! receiver's vested entitlement, and cancellation settles both sides
//! atomically — the vested portion to the receiver, the rest back to the
//! sender — before deleting the stream.

use vstd::prelude::*;
use crate::fees::mul_div_floor;
use crate::pagination::{calc_limit, spec_limit, take_at_most};
use crate::table::Table;

verus! {

/// Every way a streaming operation can fail.
#[derive(Clone, Copy, Debug, PartialEq, Eq, Structural)]
pub enum ContractError {
    Unauthorized,
    InsufficientBalance,
    InvalidParam,
    InvalidReceiver,
    ZeroTransferableAmount,
    StreamNotFound,
    TokenMismatch,
}

/// What is being streamed: a fungible-token contract, or a native coin
/// denomination.
#[derive(Clone, Copy, Debug, PartialEq, Eq, Structural)]
pub enum AssetInfo {
    Token { contract_addr: u64 },
    NativeToken { denom: u64 },
}

/// An amount of one asset.
#[derive(Clone, Copy, Debug, PartialEq, Eq, Structural)]
pub struct Asset {
    pub info: AssetInfo,
    pub amount: u128,
}

/// A native coin attached to a call.
#[derive(Clone, Copy, Debug, PartialEq, Eq, Structural)]
pub struct Coin {
    pub denom: u64,
    pub amount: u128,
}

/// One stream: `token.amount` is the original principal deposited,
/// `remaining_amount` what has not yet been withdrawn, vesting linearly
/// from `start_at` to `end_at`.
#[derive(Clone, Copy, Debug, PartialEq, Eq, Structural)]
pub struct Stream {
    pub sender: u64,
    pub receiver: u64,
    pub token: Asset,
    pub remaining_amount: u128,
    pub start_at: u64,
    pub end_at: u64,
}

/// A transfer of an asset to a recipient, to be executed by the host.
#[derive(Clone, Copy, Debug, PartialEq, Eq, Structural)]
pub struct TransferMsg {
    pub recipient: u64,
    pub asset: Asset,
}

/// What a successful streaming operation hands back: the transfers to
/// execute.
#[derive(Clone, Debug)]
pub struct Response {
    pub messages: Vec<TransferMsg>,
}

/// The message a fungible-token deposit carries to create a stream.
#[derive(Clone, Copy, Debug, PartialEq, Eq, Structural)]
pub enum Cw20HookMsg {
    CreateStream { receiver: u64, token: Asset, start_at: Option<u64>, end_at: u64 },
}

/// A stored stream is internally consistent: the schedule has positive
/// duration, a positive principal, distinct parties, and never more
/// remaining than was deposited.
pub open spec fn stream_wf(s: Stream) -> bool {
    &&& s.start_at < s.end_at
    &&& s.token.amount > 0
    &&& s.remaining_amount <= s.token.amount
    &&& s.sender != s.receiver
}

/// Seconds of vesting elapsed at `now`: zero before the start, capped at
/// the full duration after the end.
pub open spec fn spec_time_delta(s: Stream, now: u64) -> int {
    if now <= s.start_at {
        0
    } else if now < s.end_at {
        now - s.start_at
    } else {
        s.end_at - s.start_at
    }
}

/// The portion of the principal vested by `now`: the truncating
/// proportional share of elapsed time over duration.
pub open spec fn spec_streamed(s: Stream, now: u64) -> int {
    (s.token.amount * spec_time_delta(s, now)) / (s.end_at - s.start_at)
}

/// What has already been withdrawn from the stream.
pub open spec fn spec_withdrawn(s: Stream) -> int {
    s.token.amount - s.remaining_amount
}

/// The balance `address` could take out of the stream at `now`: the
/// receiver holds the vested amount net of prior withdrawals, the sender
/// the unvested remainder, anyone else nothing.
pub open spec fn spec_balance_of(s: Stream, address: u64, now: u64) -> int {
    if address == s.receiver {
        spec_streamed(s, now) - spec_withdrawn(s)
    } else if address == s.sender {
        s.remaining_amount - (spec_streamed(s, now) - spec_withdrawn(s))
    } else {
        0
    }
}

/// Withdrawals never outrun vesting: what has been taken out never
/// exceeds what has vested by `now`.  Every mutating operation preserves
/// this as long as the clock does not run backwards.
pub open spec fn spec_settled(s: Stream, now: u64) -> bool {
    spec_withdrawn(s) <= spec_streamed(s, now)
}

/// Seconds of vesting elapsed at `now`.
pub fn compute_time_delta(stream: &Stream, current_time: u64) -> (delta: u64)
    requires
        stream_wf(*stream),
    ensures
        delta == spec_time_delta(*stream, current_time),
        delta <= stream.end_at - stream.start_at,
{
    if current_time <= stream.start_at {
        return 0;
    }
    if current_time < stream.end_at {
        return current_time - stream.start_at;
    }
    stream.end_at - stream.start_at
}

/// The balance `address` could take out of the stream at `current_time`:
/// the vested share for the receiver, the unvested remainder for the
/// sender, zero for anyone else.  Truncation always favors the sender —
/// the stream never over-vests.
pub fn compute_balance_of(stream: &Stream, address: u64, current_time: u64) -> (balance: u128)
    requires
        stream_wf(*stream),
        spec_settled(*stream, current_time),
    ensures
        balance == spec_balance_of(*stream, address, current_time),
{
    let delta = compute_time_delta(stream, current_time);
    let duration = stream.end_at - stream.start_at;
    let streamed_total = mul_div_floor(stream.token.amount, delta, duration);
    let withdrawn_amount = stream.token.amount - stream.remaining_amount;
    let streamed_amount = streamed_total - withdrawn_amount;
    if address == stream.receiver {
        return streamed_amount;
    }
    if address == stream.sender {
        return stream.remaining_amount - streamed_amount;
    }
    0
}

/// At every point in time the unvested remainder, the receiver's
/// withdrawable balance, and what was already withdrawn add back up to the
/// original principal: streaming conserves value.
pub proof fn lemma_streaming_conservation(s: Stream, now: u64)
    requires
        stream_wf(s),
        spec_settled(s, now),
    ensures
        spec_balance_of(s, s.sender, now) + spec_balance_of(s, s.receiver, now)
            + spec_withdrawn(s) == s.token.amount,
        0 <= spec_balance_of(s, s.receiver, now),
        0 <= spec_balance_of(s, s.sender, now),
        spec_streamed(s, now) <= s.token.amount,
{
    let delta = spec_time_delta(s, now);
    let dur = s.end_at - s.start_at;
    assert(s.token.amount * delta <= s.token.amount * dur) by (nonlinear_arith)
        requires 0 <= delta <= dur && s.token.amount >= 0;
    assert((s.token.amount * delta) / dur <= (s.token.amount * dur) / dur) by {
        vstd::arithmetic::div_mod::lemma_div_is_ordered(
            s.token.amount * delta,
            s.token.amount * dur,
            dur,
        );
    }
    assert((s.token.amount * dur) / dur == s.token.amount) by {
        vstd::arithmetic::div_mod::lemma_div_multiples_vanish(s.token.amount as int, dur);
        assert(s.token.amount * dur == dur * s.token.amount) by (nonlinear_arith);
    }
}

/// Every stored key was issued at or below the id counter.
pub open spec fn spec_ids_bounded(t: Table<Stream>, last_id: u64) -> bool {
    forall|k: u64| #[trigger] t.spec_contains(k) ==> k <= last_id
}

/// The amount of `denom` attached to a call: the first matching coin, or
/// nothing.
pub open spec fn spec_funds_amount(funds: Seq<Coin>, denom: u64) -> Option<u128>
    decreases funds.len(),
{
    if funds.len() == 0 {
        None
    } else if funds[0].denom == denom {
        Some(funds[0].amount)
    } else {
        spec_funds_amount(funds.skip(1), denom)
    }
}

/// The deposit backing the stream was actually attached: for a native
/// asset the call must carry exactly the declared amount of the
/// denomination; a token asset is checked by the token contract instead.
pub open spec fn spec_funds_match(token: Asset, funds: Seq<Coin>) -> bool {
    match token.info {
        AssetInfo::Token { .. } => true,
        AssetInfo::NativeToken { denom } => match spec_funds_amount(funds, denom) {
            Some(a) => a == token.amount,
            None => token.amount == 0,
        },
    }
}

/// The first coin of `denom` attached to the call, if any.
fn find_funds_amount(funds: &Vec<Coin>, denom: u64) -> (r: Option<u128>)
    ensures
        r == spec_funds_amount(funds@, denom),
{
    let n = funds.len();
    let mut i: usize = 0;
    proof {
        assert(funds@.skip(0) =~= funds@);
    }
    while i < n
        invariant
            i <= n,
            n == funds@.len(),
            spec_funds_amount(funds@, denom) == spec_funds_amount(funds@.skip(i as int), denom),
        decreases n - i,
    {
        proof {
            assert(funds@.skip(i as int)[0] == funds@[i as int]);
            assert(funds@.skip(i as int).skip(1) =~= funds@.skip(i + 1));
        }
        if funds[i].denom == denom {
            return Some(funds[i].amount);
        }
        i = i + 1;
    }
    proof {
        assert(funds@.skip(n as int).len() == 0);
    }
    None
}

/// The first reason creating a stream fails, if any, in the order the
/// checks are made: streaming to oneself or to the streaming contract, a
/// start in the past, an end not after the start, a zero principal, or a
/// deposit that does not match the declared asset.
pub open spec fn spec_create_check(
    sender: u64,
    receiver: u64,
    token: Asset,
    may_start_at: Option<u64>,
    end_at: u64,
    now: u64,
    contract_address: u64,
    funds: Seq<Coin>,
) -> Option<ContractError> {
    let start = match may_start_at {
        Some(s) => s,
        None => now,
    };
    if receiver == sender {
        Some(ContractError::InvalidParam)
    } else if receiver == contract_address {
        Some(ContractError::InvalidParam)
    } else if start < now {
        Some(ContractError::InvalidParam)
    } else if end_at <= start {
        Some(ContractError::InvalidParam)
    } else if token.amount == 0 {
        Some(ContractError::InvalidParam)
    } else if !spec_funds_match(token, funds) {
        Some(ContractError::TokenMismatch)
    } else {
        None
    }
}

/// The stream a successful creation stores: the full principal remaining,
/// vesting from the effective start to the end.
pub open spec fn spec_new_stream(
    sender: u64,
    receiver: u64,
    token: Asset,
    may_start_at: Option<u64>,
    end_at: u64,
    now: u64,
) -> Stream {
    Stream {
        sender,
        receiver,
        token,
        remaining_amount: token.amount,
        start_at: match may_start_at {
            Some(s) => s,
            None => now,
        },
        end_at,
    }
}

/// Creates a stream under the next id.  The declared principal must have
/// been attached to the call (for a native asset), the schedule must run
/// forward from no earlier than now, and neither the contract itself nor
/// the sender can be the receiver.
pub fn create_stream(
    streams: &mut Table<Stream>,
    last_id: &mut u64,
    sender: u64,
    receiver: u64,
    token: Asset,
    may_start_at: Option<u64>,
    end_at: u64,
    now: u64,
    contract_address: u64,
    funds: &Vec<Coin>,
) -> (r: Result<u64, ContractError>)
    requires
        old(streams).wf(),
        spec_ids_bounded(*old(streams), *old(last_id)),
        *old(last_id) < u64::MAX,
    ensures
        final(streams).wf(),
        spec_ids_bounded(*final(streams), *final(last_id)),
        r is Err <==> spec_create_check(
            sender,
            receiver,
            token,
            may_start_at,
            end_at,
            now,
            contract_address,
            funds@,
        ) is Some,
        r matches Err(e) ==> Some(e) == spec_create_check(
            sender,
            receiver,
            token,
            may_start_at,
            end_at,
            now,
            contract_address,
            funds@,
        ) && final(streams)@ == old(streams)@ && *final(last_id) == *old(last_id),
        r matches Ok(id) ==> {
            let fresh = spec_new_stream(sender, receiver, token, may_start_at, end_at, now);
            &&& id == *old(last_id) + 1
            &&& *final(last_id) == id
            &&& !old(streams).spec_contains(id)
            &&& final(streams).as_map() == old(streams).as_map().insert(id, fresh)
            &&& stream_wf(fresh)
        },
{
    if receiver == sender {
        return Err(ContractError::InvalidParam);
    }
    if receiver == contract_address {
        return Err(ContractError::InvalidParam);
    }
    let start_at: u64 = match may_start_at {
        Some(s) => s,
        None => now,
    };
    if start_at < now {
        return Err(ContractError::InvalidParam);
    }
    if end_at <= start_at {
        return Err(ContractError::InvalidParam);
    }
    let amount = token.amount;
    if amount == 0 {
        return Err(ContractError::InvalidParam);
    }
    let funds_ok: bool = match token.info {
        AssetInfo::Token { .. } => true,
        AssetInfo::NativeToken { denom } => {
            match find_funds_amount(funds, denom) {
                Some(a) => a == token.amount,
                None => false,
            }
        },
    };
    if !funds_ok {
        return Err(ContractError::TokenMismatch);
    }
    let stream_id = *last_id + 1;
    *last_id = stream_id;
    let stream = Stream {
        receiver,
        sender,
        token,
        remaining_amount: token.amount,
        start_at,
        end_at,
    };
    streams.save(stream_id, stream);
    Ok(stream_id)
}

/// Accepts a fungible-token deposit carrying a stream-creation message:
/// the sending token contract and the transferred amount must both match
/// the declared asset exactly.
pub fn receive_cw20(
    streams: &mut Table<Stream>,
    last_id: &mut u64,
    token_contract: u64,
    cw20_sender: u64,
    cw20_amount: u128,
    msg: Cw20HookMsg,
    now: u64,
    contract_address: u64,
) -> (r: Result<u64, ContractError>)
    requires
        old(streams).wf(),
        spec_ids_bounded(*old(streams), *old(last_id)),
        *old(last_id) < u64::MAX,
    ensures
        final(streams).wf(),
        spec_ids_bounded(*final(streams), *final(last_id)),
        msg matches Cw20HookMsg::CreateStream { receiver, token, start_at, end_at } ==> {
            if token.info != (AssetInfo::Token { contract_addr: token_contract }) || token.amount
                != cw20_amount {
                r == Result::<u64, ContractError>::Err(ContractError::TokenMismatch)
                    && final(streams)@ == old(streams)@ && *final(last_id) == *old(last_id)
            } else {
                &&& (r is Err <==> spec_create_check(
                    cw20_sender,
                    receiver,
                    token,
                    start_at,
                    end_at,
                    now,
                    contract_address,
                    Seq::<Coin>::empty(),
                ) is Some)
                &&& (r matches Err(e) ==> Some(e) == spec_create_check(
                    cw20_sender,
                    receiver,
                    token,
                    start_at,
                    end_at,
                    now,
                    contract_address,
                    Seq::<Coin>::empty(),
                ) && final(streams)@ == old(streams)@ && *final(last_id) == *old(last_id))
                &&& (r matches Ok(id) ==> id == *old(last_id) + 1 && *final(last_id) == id
                    && final(streams).as_map() == old(streams).as_map().insert(
                    id,
                    spec_new_stream(cw20_sender, receiver, token, start_at, end_at, now),
                ))
            }
        },
{
    match msg {
        Cw20HookMsg::CreateStream { receiver, token, start_at, end_at } => {
            let matches_contract = match token.info {
                AssetInfo::Token { contract_addr } => contract_addr == token_contract,
                AssetInfo::NativeToken { .. } => false,
            };
            if !matches_contract {
                return Err(ContractError::TokenMismatch);
            }
            if token.amount != cw20_amount {
                return Err(ContractError::TokenMismatch);
            }
            let no_funds: Vec<Coin> = Vec::new();
            create_stream(
                streams,
                last_id,
                cw20_sender,
                receiver,
                token,
                start_at,
                end_at,
                now,
                contract_address,
                &no_funds,
            )
        },
    }
}

/// The first reason a withdrawal fails, if any: no such stream, a zero
/// request, or a request beyond the receiver's vested balance.
pub open spec fn spec_withdraw_check(
    m: Map<u64, Stream>,
    stream_id: u64,
    amount: Option<u128>,
    now: u64,
) -> Option<ContractError> {
    if !m.contains_key(stream_id) {
        Some(ContractError::StreamNotFound)
    } else {
        let s = m[stream_id];
        let balance = spec_balance_of(s, s.receiver, now);
        let w = match amount {
            Some(a) => a as int,
            None => balance,
        };
        if w == 0 {
            Some(ContractError::ZeroTransferableAmount)
        } else if balance < w {
            Some(ContractError::InsufficientBalance)
        } else {
            None
        }
    }
}

/// Withdraws from the stream to its receiver: the requested amount, or
/// the full vested balance when none is given.  Anyone may trigger it —
/// only the computed entitlement bounds the transfer.  A stream drained to
/// zero remaining principal is deleted.
pub fn withdraw_stream(
    streams: &mut Table<Stream>,
    stream_id: u64,
    amount: Option<u128>,
    now: u64,
) -> (r: Result<Response, ContractError>)
    requires
        old(streams).wf(),
        old(streams).as_map().contains_key(stream_id) ==> stream_wf(
            old(streams).as_map()[stream_id],
        ) && spec_settled(old(streams).as_map()[stream_id], now),
    ensures
        final(streams).wf(),
        r is Err <==> spec_withdraw_check(old(streams).as_map(), stream_id, amount, now)
            is Some,
        r matches Err(e) ==> Some(e) == spec_withdraw_check(
            old(streams).as_map(),
            stream_id,
            amount,
            now,
        ) && final(streams)@ == old(streams)@,
        r matches Ok(resp) ==> {
            let s = old(streams).as_map()[stream_id];
            let w = (match amount {
                Some(a) => a as int,
                None => spec_balance_of(s, s.receiver, now),
            }) as u128;
            &&& resp.messages@ == seq![
                TransferMsg {
                    recipient: s.receiver,
                    asset: Asset { info: s.token.info, amount: w },
                },
            ]
            &&& (s.remaining_amount == w ==> final(streams).as_map() == old(streams).as_map().remove(stream_id))
            &&& (s.remaining_amount != w ==> final(streams).as_map() == old(streams).as_map().insert(
                stream_id,
                Stream { remaining_amount: (s.remaining_amount - w) as u128, ..s },
            ))
            &&& stream_wf(s) && spec_settled(s, now) && w <= spec_balance_of(
                s,
                s.receiver,
                now,
            )
        },
{
    proof {
        streams.lemma_view_map();
    }
    let mut stream: Stream = match streams.get(stream_id) {
        Some(s) => *s,
        None => {
            return Err(ContractError::StreamNotFound);
        },
    };
    let balance = compute_balance_of(&stream, stream.receiver, now);
    let withdrawal_amount: u128 = match amount {
        Some(a) => a,
        None => balance,
    };
    if withdrawal_amount == 0 {
        return Err(ContractError::ZeroTransferableAmount);
    }
    if balance < withdrawal_amount {
        return Err(ContractError::InsufficientBalance);
    }
    proof {
        lemma_streaming_conservation(stream, now);
    }
    stream.remaining_amount = stream.remaining_amount - withdrawal_amount;
    if stream.remaining_amount == 0 {
        streams.remove(stream_id);
    } else {
        streams.save(stream_id, stream);
    }
    let mut messages: Vec<TransferMsg> = Vec::new();
    messages.push(TransferMsg {
        recipient: stream.receiver,
        asset: Asset { info: stream.token.info, amount: withdrawal_amount },
    });
    Ok(Response { messages })
}

/// Cancels the stream, settling both sides atomically: the vested balance
/// to the receiver, the unvested remainder to the sender (each only when
/// positive, receiver first), then deletes the record.  Only the stream's
/// sender or receiver may cancel.
pub fn cancel_stream(
    streams: &mut Table<Stream>,
    sender: u64,
    stream_id: u64,
    now: u64,
) -> (r: Result<Response, ContractError>)
    requires
        old(streams).wf(),
        old(streams).as_map().contains_key(stream_id) ==> stream_wf(
            old(streams).as_map()[stream_id],
        ) && spec_settled(old(streams).as_map()[stream_id], now),
    ensures
        final(streams).wf(),
        r matches Err(e) ==> final(streams)@ == old(streams)@ && Some(e) == (
        if !old(streams).as_map().contains_key(stream_id) {
            Some(ContractError::StreamNotFound)
        } else if sender != old(streams).as_map()[stream_id].sender && sender != old(streams).as_map()[stream_id].receiver {
            Some(ContractError::Unauthorized)
        } else {
            None
        }),
        r is Ok <==> old(streams).as_map().contains_key(stream_id) && (sender == old(streams).as_map()[stream_id].sender || sender == old(streams).as_map()[stream_id].receiver),
        r is Ok ==> final(streams).as_map() == old(streams).as_map().remove(stream_id),
        r matches Ok(resp) ==> {
            let s = old(streams).as_map()[stream_id];
            let receiver_balance = spec_balance_of(s, s.receiver, now);
            let sender_balance = spec_balance_of(s, s.sender, now);
            resp.messages@ == (if receiver_balance > 0 {
                seq![
                    TransferMsg {
                        recipient: s.receiver,
                        asset: Asset { info: s.token.info, amount: receiver_balance as u128 },
                    },
                ]
            } else {
                Seq::<TransferMsg>::empty()
            }) + (if sender_balance > 0 {
                seq![
                    TransferMsg {
                        recipient: s.sender,
                        asset: Asset { info: s.token.info, amount: sender_balance as u128 },
                    },
                ]
            } else {
                Seq::<TransferMsg>::empty()
            })
        },
{
    proof {
        streams.lemma_view_map();
    }
    let stream: Stream = match streams.get(stream_id) {
        Some(s) => *s,
        None => {
            return Err(ContractError::StreamNotFound);
        },
    };
    if sender != stream.sender && sender != stream.receiver {
        return Err(ContractError::Unauthorized);
    }
    let current_time = now;
    let sender_balance = compute_balance_of(&stream, stream.sender, current_time);
    let receiver_balance = compute_balance_of(&stream, stream.receiver, current_time);
    let mut messages: Vec<TransferMsg> = Vec::new();
    if receiver_balance > 0 {
        messages.push(TransferMsg {
            recipient: stream.receiver,
            asset: Asset { info: stream.token.info, amount: receiver_balance },
        });
    }
    if sender_balance > 0 {
        messages.push(TransferMsg {
            recipient: stream.sender,
            asset: Asset { info: stream.token.info, amount: sender_balance },
        });
    }
    streams.remove(stream_id);
    proof {
        let s = old(streams).as_map()[stream_id];
        assert(messages@ =~= (if spec_balance_of(s, s.receiver, now) > 0 {
            seq![
                TransferMsg {
                    recipient: s.receiver,
                    asset: Asset {
                        info: s.token.info,
                        amount: spec_balance_of(s, s.receiver, now) as u128,
                    },
                },
            ]
        } else {
            Seq::<TransferMsg>::empty()
        }) + (if spec_balance_of(s, s.sender, now) > 0 {
            seq![
                TransferMsg {
                    recipient: s.sender,
                    asset: Asset {
                        info: s.token.info,
                        amount: spec_balance_of(s, s.sender, now) as u128,
                    },
                },
            ]
        } else {
            Seq::<TransferMsg>::empty()
        }));
    }
    Ok(Response { messages })
}

/// The stream stored under `stream_id`.
pub fn query_stream(streams: &Table<Stream>, stream_id: u64) -> (r: Result<Stream, ContractError>)
    requires
        streams.wf(),
    ensures
        r is Ok <==> streams.as_map().contains_key(stream_id),
        r matches Ok(s) ==> s == streams.as_map()[stream_id],
        r matches Err(e) ==> e == ContractError::StreamNotFound,
{
    proof {
        streams.lemma_view_map();
    }
    match streams.get(stream_id) {
        Some(s) => Ok(*s),
        None => Err(ContractError::StreamNotFound),
    }
}

/// The balance `address` could take out of the stream right now.
pub fn query_stream_balance_of(
    streams: &Table<Stream>,
    stream_id: u64,
    address: u64,
    now: u64,
) -> (r: Result<u128, ContractError>)
    requires
        streams.wf(),
        streams.as_map().contains_key(stream_id) ==> stream_wf(streams.as_map()[stream_id])
            && spec_settled(streams.as_map()[stream_id], now),
    ensures
        r is Ok <==> streams.as_map().contains_key(stream_id),
        r matches Ok(b) ==> b == spec_balance_of(streams.as_map()[stream_id], address, now),
        r matches Err(e) ==> e == ContractError::StreamNotFound,
{
    proof {
        streams.lemma_view_map();
    }
    let stream: Stream = match streams.get(stream_id) {
        Some(s) => *s,
        None => {
            return Err(ContractError::StreamNotFound);
        },
    };
    proof {
        lemma_streaming_conservation(stream, now);
    }
    Ok(compute_balance_of(&stream, address, now))
}

/// One page of stream ids, with the last key seen for the next cursor.
#[derive(Clone, Debug)]
pub struct StreamsResponse {
    pub stream_ids: Vec<u64>,
    pub last_key: Option<u64>,
}

/// Keeps the entries that pass the optional sender, receiver and asset
/// filters and lie after the exclusive cursor.
pub open spec fn stream_pred(
    sender_filter: Option<u64>,
    receiver_filter: Option<u64>,
    token_filter: Option<AssetInfo>,
    start_after: Option<u64>,
) -> spec_fn((u64, Stream)) -> bool {
    |e: (u64, Stream)|
        (match sender_filter {
            None => true,
            Some(s) => e.1.sender == s,
        }) && (match receiver_filter {
            None => true,
            Some(t) => e.1.receiver == t,
        }) && (match token_filter {
            None => true,
            Some(info) => e.1.token.info == info,
        }) && (match start_after {
            None => true,
            Some(a) => e.0 > a,
        })
}

/// One page of the ids whose entries match `pred`, in ascending id order.
pub open spec fn spec_stream_page(
    s: Seq<(u64, Stream)>,
    pred: spec_fn((u64, Stream)) -> bool,
    limit: int,
) -> Seq<u64> {
    take_at_most(s.filter(pred).map_values(|e: (u64, Stream)| e.0), limit)
}

/// Walks the table in ascending id order and collects one page of the ids
/// whose entries pass the filters and lie after the cursor.
fn stream_page_ids(
    streams: &Table<Stream>,
    sender_filter: Option<u64>,
    receiver_filter: Option<u64>,
    token_filter: Option<AssetInfo>,
    start_after: Option<u64>,
    limit: usize,
) -> (page: Vec<u64>)
    requires
        streams.wf(),
    ensures
        page@ == spec_stream_page(
            streams@,
            stream_pred(sender_filter, receiver_filter, token_filter, start_after),
            limit as int,
        ),
        page@.len() <= limit,
{
    let ghost pred = stream_pred(sender_filter, receiver_filter, token_filter, start_after);
    let n = streams.len();
    let mut out: Vec<u64> = Vec::new();
    let mut i: usize = 0;
    while i < n
        invariant
            i <= n,
            n == streams@.len(),
            streams.wf(),
            pred == stream_pred(sender_filter, receiver_filter, token_filter, start_after),
            out@ == spec_stream_page(streams@.take(i as int), pred, limit as int),
            out@.len() <= limit,
        decreases n - i,
    {
        let e = streams.entry_at(i);
        let keep = (match sender_filter {
            None => true,
            Some(s) => e.1.sender == s,
        }) && (match receiver_filter {
            None => true,
            Some(t) => e.1.receiver == t,
        }) && (match token_filter {
            None => true,
            Some(info) => e.1.token.info == info,
        }) && (match start_after {
            None => true,
            Some(a) => e.0 > a,
        });
        let ghost pre = streams@.take(i as int).filter(pred);
        let ghost post = streams@.take(i + 1).filter(pred);
        proof {
            crate::pagination::lemma_filter_take_step(streams@, pred, i as int);
            assert(keep == pred(streams@[i as int]));
        }
        if keep && out.len() < limit {
            out.push(e.0);
            proof {
                assert(post == pre.push(streams@[i as int]));
                assert(take_at_most(post, limit as int) =~= post);
                assert(out@ =~= take_at_most(post, limit as int).map_values(
                    |x: (u64, Stream)| x.0,
                ));
            }
        } else {
            proof {
                if keep {
                    assert(post == pre.push(streams@[i as int]));
                    assert(take_at_most(post, limit as int).map_values(|x: (u64, Stream)| x.0)
                        =~= take_at_most(pre, limit as int).map_values(|x: (u64, Stream)| x.0));
                } else {
                    assert(post == pre);
                }
            }
        }
        i = i + 1;
    }
    proof {
        assert(streams@.take(n as int) =~= streams@);
    }
    out
}

/// The page's ids with the last id seen, for the next cursor.
fn stream_ids_response(page: Vec<u64>) -> (r: StreamsResponse)
    ensures
        r.stream_ids@ == page@,
        r.last_key == (if page@.len() > 0 {
            Some(page@.last())
        } else {
            None::<u64>
        }),
{
    let last_key: Option<u64> = if page.len() > 0 {
        Some(page[page.len() - 1])
    } else {
        None
    };
    StreamsResponse { stream_ids: page, last_key }
}

/// The streams deposited by `sender`: one page of ids in ascending order
/// after the exclusive cursor, and the last id seen.
pub fn query_all_streams_by_sender(
    streams: &Table<Stream>,
    sender: u64,
    start_after: Option<u64>,
    limit: Option<u32>,
) -> (r: StreamsResponse)
    requires
        streams.wf(),
    ensures
        r.stream_ids@ == spec_stream_page(
            streams@,
            stream_pred(Some(sender), None, None, start_after),
            spec_limit(limit),
        ),
        r.last_key == (if r.stream_ids@.len() > 0 {
            Some(r.stream_ids@.last())
        } else {
            None::<u64>
        }),
{
    let lim = calc_limit(limit);
    stream_ids_response(stream_page_ids(streams, Some(sender), None, None, start_after, lim))
}

/// The streams received by `receiver`: one page of ids in ascending order
/// after the exclusive cursor, and the last id seen.
pub fn query_all_streams_by_receiver(
    streams: &Table<Stream>,
    receiver: u64,
    start_after: Option<u64>,
    limit: Option<u32>,
) -> (r: StreamsResponse)
    requires
        streams.wf(),
    ensures
        r.stream_ids@ == spec_stream_page(
            streams@,
            stream_pred(None, Some(receiver), None, start_after),
            spec_limit(limit),
        ),
        r.last_key == (if r.stream_ids@.len() > 0 {
            Some(r.stream_ids@.last())
        } else {
            None::<u64>
        }),
{
    let lim = calc_limit(limit);
    stream_ids_response(stream_page_ids(streams, None, Some(receiver), None, start_after, lim))
}

/// The streams carrying the given asset: one page of ids in ascending
/// order after the exclusive cursor, and the last id seen.
pub fn query_all_streams_by_token(
    streams: &Table<Stream>,
    token_info: AssetInfo,
    start_after: Option<u64>,
    limit: Option<u32>,
) -> (r: StreamsResponse)
    requires
        streams.wf(),
    ensures
        r.stream_ids@ == spec_stream_page(
            streams@,
            stream_pred(None, None, Some(token_info), start_after),
            spec_limit(limit),
        ),
        r.last_key == (if r.stream_ids@.len() > 0 {
            Some(r.stream_ids@.last())
        } else {
            None::<u64>
        }),
{
    let lim = calc_limit(limit);
    stream_ids_response(stream_page_ids(streams, None, None, Some(token_info), start_after, lim))
}

/// All streams: one page of ids in ascending order after the exclusive
/// cursor, and the last id seen.
pub fn query_all_streams(
    streams: &Table<Stream>,
    start_after: Option<u64>,
    limit: Option<u32>,
) -> (r: StreamsResponse)
    requires
        streams.wf(),
    ensures
        r.stream_ids@ == spec_stream_page(
            streams@,
            stream_pred(None, None, None, start_after),
            spec_limit(limit),
        ),
        r.last_key == (if r.stream_ids@.len() > 0 {
            Some(r.stream_ids@.last())
        } else {
            None::<u64>
        }),
{
    let lim = calc_limit(limit);
    stream_ids_response(stream_page_ids(streams, None, None, None, start_after, lim))
}

/// A fungible-token deposit as the token contract reports it: who sent
/// it, how much arrived, and the embedded creation message.
#[derive(Clone, Copy, Debug, PartialEq, Eq, Structural)]
pub struct Cw20ReceiveMsg {
    pub sender: u64,
    pub amount: u128,
    pub msg: Cw20HookMsg,
}

/// The operations of the streaming contract, as one closed set of message
/// variants; new operations extend the set, the dispatch match is
/// exhaustive.
#[derive(Clone, Copy, Debug, PartialEq, Eq, Structural)]
pub enum ExecuteMsg {
    Receive(Cw20ReceiveMsg),
    CreateStream { receiver: u64, token: Asset, start_at: Option<u64>, end_at: u64 },
    Withdraw { stream_id: u64, amount: Option<u128> },
    CancelStream { stream_id: u64 },
}

/// The machine bounds the dispatched operation relies on, by variant: a
/// fresh id must be available, and settlement must not have outrun
/// vesting on the touched stream.
pub open spec fn spec_execute_fits(
    m: Map<u64, Stream>,
    last_id: u64,
    now: u64,
    msg: ExecuteMsg,
) -> bool {
    match msg {
        ExecuteMsg::Receive(..) => last_id < u64::MAX,
        ExecuteMsg::CreateStream { .. } => last_id < u64::MAX,
        ExecuteMsg::Withdraw { stream_id, .. } => m.contains_key(stream_id) ==> stream_wf(
            m[stream_id],
        ) && spec_settled(m[stream_id], now),
        ExecuteMsg::CancelStream { stream_id } => m.contains_key(stream_id) ==> stream_wf(
            m[stream_id],
        ) && spec_settled(m[stream_id], now),
    }
}

/// Routes one operation to its handler.  `sender` is the calling account —
/// for a token deposit, the token contract itself — and `funds` the native
/// coins attached.  Each arm's outcome is pinned by the named operation's
/// own contract.
pub fn execute(
    streams: &mut Table<Stream>,
    last_id: &mut u64,
    sender: u64,
    now: u64,
    contract_address: u64,
    funds: &Vec<Coin>,
    msg: ExecuteMsg,
) -> (r: Result<Response, ContractError>)
    requires
        old(streams).wf(),
        spec_ids_bounded(*old(streams), *old(last_id)),
        spec_execute_fits(old(streams).as_map(), *old(last_id), now, msg),
    ensures
        final(streams).wf(),
        spec_ids_bounded(*final(streams), *final(last_id)),
        r is Err ==> final(streams)@ == old(streams)@ && *final(last_id) == *old(last_id),
        msg matches ExecuteMsg::CreateStream { receiver, token, start_at, end_at } ==> {
            &&& (r is Err <==> spec_create_check(
                sender,
                receiver,
                token,
                start_at,
                end_at,
                now,
                contract_address,
                funds@,
            ) is Some)
            &&& (r is Ok ==> *final(last_id) == *old(last_id) + 1 && final(streams).as_map()
                == old(streams).as_map().insert(
                *final(last_id),
                spec_new_stream(sender, receiver, token, start_at, end_at, now),
            ))
            &&& (r matches Ok(resp) ==> resp.messages@ == Seq::<TransferMsg>::empty())
        },
        msg matches ExecuteMsg::Receive(receive) ==> {
            let Cw20ReceiveMsg { sender: cw20_sender, amount, msg: hook } = receive;
            let Cw20HookMsg::CreateStream { receiver, token, start_at, end_at } = hook;
            &&& (token.info != (AssetInfo::Token { contract_addr: sender }) || token.amount
                != amount ==> r == Result::<Response, ContractError>::Err(
                ContractError::TokenMismatch,
            ))
            &&& (r is Ok ==> *final(last_id) == *old(last_id) + 1 && final(streams).as_map()
                == old(streams).as_map().insert(
                *final(last_id),
                spec_new_stream(cw20_sender, receiver, token, start_at, end_at, now),
            ))
        },
        msg matches ExecuteMsg::Withdraw { stream_id, amount } ==> {
            &&& (r is Err <==> spec_withdraw_check(
                old(streams).as_map(),
                stream_id,
                amount,
                now,
            ) is Some)
            &&& (r matches Ok(resp) ==> {
                let s = old(streams).as_map()[stream_id];
                let w = (match amount {
                    Some(a) => a as int,
                    None => spec_balance_of(s, s.receiver, now),
                }) as u128;
                resp.messages@ == seq![
                    TransferMsg {
                        recipient: s.receiver,
                        asset: Asset { info: s.token.info, amount: w },
                    },
                ]
            })
        },
        msg matches ExecuteMsg::CancelStream { stream_id } ==> {
            &&& (r is Ok <==> old(streams).as_map().contains_key(stream_id) && (sender == old(
                streams,
            ).as_map()[stream_id].sender || sender == old(streams).as_map()[stream_id].receiver))
            &&& (r is Ok ==> final(streams).as_map() == old(streams).as_map().remove(stream_id))
        },
{
    let r = match msg {
        ExecuteMsg::Receive(receive) => {
            let Cw20ReceiveMsg { sender: cw20_sender, amount, msg: hook } = receive;
            match receive_cw20(
                streams,
                last_id,
                sender,
                cw20_sender,
                amount,
                hook,
                now,
                contract_address,
            ) {
                Ok(_) => Ok(Response { messages: Vec::new() }),
                Err(e) => Err(e),
            }
        },
        ExecuteMsg::CreateStream { receiver, token, start_at, end_at } => {
            match create_stream(
                streams,
                last_id,
                sender,
                receiver,
                token,
                start_at,
                end_at,
                now,
                contract_address,
                funds,
            ) {
                Ok(_) => Ok(Response { messages: Vec::new() }),
                Err(e) => Err(e),
            }
        },
        ExecuteMsg::Withdraw { stream_id, amount } => withdraw_stream(
            streams,
            stream_id,
            amount,
            now,
        ),
        ExecuteMsg::CancelStream { stream_id } => cancel_stream(streams, sender, stream_id, now),
    };
    proof {
        streams.lemma_view_map();
        old(streams).lemma_view_map();
        assert forall|k: u64| #[trigger] streams.spec_contains(k) implies k <= *last_id by {
            assert(streams.as_map().contains_key(k));
            if old(streams).as_map().contains_key(k) {
                assert(old(streams).spec_contains(k));
            }
        }
    }
    r
}

/// Pagination of the stream id listings is complete: a page is an exact
/// contiguous cut, past the cursor, of the unbounded (cursor-free)
/// listing with the same filters, and restarting from the page's last id
/// continues at exactly the next element, so walking pages to exhaustion
/// yields the same ids, in the same order, as one unbounded listing.
pub proof fn lemma_listing_pagination_complete(
    t: Table<Stream>,
    sender_filter: Option<u64>,
    receiver_filter: Option<u64>,
    token_filter: Option<AssetInfo>,
    start_after: Option<u64>,
    limit: int,
)
    requires
        t.wf(),
        limit >= 0,
    ensures
        ({
            let base = t@.filter(
                stream_pred(sender_filter, receiver_filter, token_filter, None),
            ).map_values(|e: (u64, Stream)| e.0);
            let page = spec_stream_page(
                t@,
                stream_pred(sender_filter, receiver_filter, token_filter, start_after),
                limit,
            );
            &&& page == crate::pagination::page(base, start_after, limit)
            &&& (page.len() < limit ==> page == crate::pagination::after(base, start_after))
            &&& (page.len() > 0 ==> crate::pagination::after(base, Some(page.last()))
                == crate::pagination::after(base, start_after).skip(page.len() as int))
        }),
{
    let vp = stream_pred(sender_filter, receiver_filter, token_filter, None);
    let base = t@.filter(vp).map_values(|e: (u64, Stream)| e.0);
    match start_after {
        None => {},
        Some(a) => {
            let cp = stream_pred(sender_filter, receiver_filter, token_filter, Some(a));
            assert forall|e: (u64, Stream)| #[trigger] cp(e) == (vp(e) && e.0 > a) by {}
            crate::pagination::lemma_filter_cursor_commutes(t@, vp, cp, a);
        },
    }
    crate::pagination::lemma_filter_keys_sorted(t@, vp);
    crate::pagination::lemma_pagination_complete(base, start_after, limit);
}

impl Stream {
    /// Only the stream's own parties pass this check.
    pub fn assert_sender_or_receiver(&self, address: u64) -> (r: Result<(), ContractError>)
        ensures
            r is Ok <==> (address == self.sender || address == self.receiver),
            r matches Err(e) ==> e == ContractError::Unauthorized,
    {
        if address != self.sender && address != self.receiver {
            return Err(ContractError::Unauthorized);
        }
        Ok(())
    }
}

} // verus!
