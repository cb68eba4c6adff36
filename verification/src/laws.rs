//! What holds of the engine whatever is asked of it, proved from the
//! contracts of its operations.

use vstd::prelude::*;
use crate::batch::{
    batch_ids_taken, batch_refusal, batch_result, lemma_first_refusal_causes,
    lemma_first_refusal_none, StreamRequest, streams_after_batch,
};
use crate::error::StreamError;
use crate::funds::{Transfer, TransferOutcome};
use crate::identity::Identity;
use crate::ledger::records_valid;
use crate::lifecycle::{
    cancel_plan, cancel_result, create_refusal, create_result, streams_after_cancel,
    streams_after_create, streams_after_withdraw, withdraw_plan, withdraw_result,
};
use crate::stream::{lemma_amounts_in_range, StreamRecord, StreamStatus};
use crate::vesting::{lemma_vested_bounds, lemma_vested_monotonic};

verus! {

/// The vesting schedule of a valid stream: nothing has vested up to its
/// start, the whole deposit from its end on, and in between the vested
/// amount never falls as time goes on.
pub proof fn lemma_vesting_schedule(record: StreamRecord, earlier: u64, later: u64)
    requires
        record.valid(),
        earlier <= later,
    ensures
        earlier <= record.start_time ==> record.vested(earlier) == 0,
        later >= record.end_time ==> record.vested(later) == record.deposit,
        record.vested(record.end_time) == record.deposit,
        0 <= record.vested(earlier) <= record.vested(later) <= record.deposit,
{
    lemma_vested_bounds(
        record.deposit as int,
        record.start_time as int,
        record.end_time as int,
        earlier as int,
    );
    lemma_vested_bounds(
        record.deposit as int,
        record.start_time as int,
        record.end_time as int,
        later as int,
    );
    lemma_vested_monotonic(
        record.deposit as int,
        record.start_time as int,
        record.end_time as int,
        earlier as int,
        later as int,
    );
}

/// Nothing is paid ahead of schedule. Where an active stream has not been
/// paid more than had vested at `now`, a withdrawal at `now` brings what
/// was paid up to exactly the vested amount, and at every later instant it
/// is still within what has vested by then.
pub proof fn lemma_never_ahead_of_schedule(record: StreamRecord, now: u64, later: u64)
    requires
        record.valid(),
        record.status == StreamStatus::Active,
        record.withdrawn <= record.vested(now),
        now <= later,
    ensures
        record.withdrawable(now) == record.vested(now) - record.withdrawn,
        record.after_withdrawal(now).withdrawn == record.vested(now),
        record.after_withdrawal(now).withdrawn <= record.after_withdrawal(now).vested(later)
            <= record.deposit,
{
    lemma_vesting_schedule(record, now, later);
}

/// `after` continues `before`: every stream of `before` is still there,
/// on the terms it was opened with, with no less paid than before, and
/// unchanged if it had reached a final status.
pub open spec fn continues(before: Map<u64, StreamRecord>, after: Map<u64, StreamRecord>) -> bool {
    forall|id: u64| #[trigger]
        before.contains_key(id) ==> {
            &&& after.contains_key(id)
            &&& after[id].same_terms(before[id])
            &&& after[id].withdrawn >= before[id].withdrawn
            &&& (before[id].is_terminal() ==> after[id] == before[id])
        }
}

/// Opening a stream keeps every record valid and continues the ledger.
pub proof fn lemma_create_continues(
    streams: Map<u64, StreamRecord>,
    last_issued: u64,
    caller: Identity,
    sender: Identity,
    receiver: Identity,
    token: Identity,
    deposit: i128,
    start_time: u64,
    end_time: u64,
    funding: TransferOutcome,
)
    requires
        records_valid(streams),
        last_issued < u64::MAX,
    ensures
        records_valid(
            streams_after_create(
                streams,
                last_issued,
                caller,
                sender,
                receiver,
                token,
                deposit,
                start_time,
                end_time,
                funding,
            ),
        ),
        continues(
            streams,
            streams_after_create(
                streams,
                last_issued,
                caller,
                sender,
                receiver,
                token,
                deposit,
                start_time,
                end_time,
                funding,
            ),
        ),
{
}

/// A withdrawal keeps every record valid and continues the ledger.
pub proof fn lemma_withdraw_continues(
    streams: Map<u64, StreamRecord>,
    id: u64,
    caller: Identity,
    now: u64,
    payment: TransferOutcome,
)
    requires
        records_valid(streams),
    ensures
        records_valid(streams_after_withdraw(streams, id, caller, now, payment)),
        continues(streams, streams_after_withdraw(streams, id, caller, now, payment)),
{
    if streams.contains_key(id) {
        lemma_amounts_in_range(streams[id], now);
    }
}

/// A cancellation keeps every record valid and continues the ledger.
pub proof fn lemma_cancel_continues(
    streams: Map<u64, StreamRecord>,
    id: u64,
    caller: Identity,
    now: u64,
    settlement: TransferOutcome,
)
    requires
        records_valid(streams),
    ensures
        records_valid(streams_after_cancel(streams, id, caller, now, settlement)),
        continues(streams, streams_after_cancel(streams, id, caller, now, settlement)),
{
    if streams.contains_key(id) {
        lemma_amounts_in_range(streams[id], now);
    }
}

/// A batch keeps every record valid and continues the ledger.
pub proof fn lemma_batch_continues(
    streams: Map<u64, StreamRecord>,
    last_issued: u64,
    caller: Identity,
    sender: Identity,
    token: Identity,
    requests: Seq<StreamRequest>,
    funding: TransferOutcome,
)
    requires
        records_valid(streams),
        last_issued + requests.len() <= u64::MAX,
    ensures
        records_valid(
            streams_after_batch(streams, last_issued, caller, sender, token, requests, funding),
        ),
        continues(
            streams,
            streams_after_batch(streams, last_issued, caller, sender, token, requests, funding),
        ),
{
    let after = streams_after_batch(streams, last_issued, caller, sender, token, requests, funding);
    if batch_result(streams, last_issued, caller, sender, requests, funding) is Ok {
        assert forall|id: u64| #[trigger] streams.contains_key(id) implies after[id]
            == streams[id] by {
            if last_issued < id <= last_issued + requests.len() {
                assert(batch_ids_taken(streams, last_issued, requests.len()));
            }
        }
        assert forall|id: u64| #[trigger] after.contains_key(id) implies after[id].valid()
            && after[id].id == id by {
            if last_issued < id <= last_issued + requests.len() {
                lemma_first_refusal_none(requests, id - last_issued - 1);
            } else {
                assert(streams.contains_key(id));
            }
        }
    }
}

/// Only the receiver withdraws. Whoever else asks is refused as
/// `Unauthorized`, whatever the stream's state and the instant: no transfer
/// is asked for and no record changes.
pub proof fn lemma_only_the_receiver_withdraws(
    streams: Map<u64, StreamRecord>,
    custodian: Identity,
    id: u64,
    caller: Identity,
    now: u64,
    payment: TransferOutcome,
)
    requires
        streams.contains_key(id),
        caller != streams[id].receiver,
    ensures
        withdraw_plan(streams, custodian, id, caller, now) == Err::<
            Option<Transfer>,
            StreamError,
        >(StreamError::Unauthorized),
        withdraw_result(streams, id, caller, now, payment) == Err::<i128, StreamError>(
            StreamError::Unauthorized,
        ),
        streams_after_withdraw(streams, id, caller, now, payment) == streams,
{
}

/// Only the sender cancels. Whoever else asks is refused as
/// `Unauthorized`: no transfer is asked for and no record changes.
pub proof fn lemma_only_the_sender_cancels(
    streams: Map<u64, StreamRecord>,
    custodian: Identity,
    id: u64,
    caller: Identity,
    now: u64,
    settlement: TransferOutcome,
)
    requires
        streams.contains_key(id),
        caller != streams[id].sender,
    ensures
        cancel_plan(streams, custodian, id, caller, now) == Err::<
            (Transfer, Transfer),
            StreamError,
        >(StreamError::Unauthorized),
        cancel_result(streams, id, caller, settlement) == Err::<(), StreamError>(
            StreamError::Unauthorized,
        ),
        streams_after_cancel(streams, id, caller, now, settlement) == streams,
{
}

/// A stream that was cancelled or fully withdrawn is closed. Its receiver
/// can withdraw no more and its sender cannot cancel it: both are refused
/// with `StreamTerminal`. Whoever asks, no transfer is asked for and no
/// record changes.
pub proof fn lemma_final_streams_are_closed(
    streams: Map<u64, StreamRecord>,
    custodian: Identity,
    id: u64,
    caller: Identity,
    now: u64,
    outcome: TransferOutcome,
)
    requires
        streams.contains_key(id),
        streams[id].is_terminal(),
    ensures
        caller == streams[id].receiver ==> withdraw_result(streams, id, caller, now, outcome)
            == Err::<i128, StreamError>(StreamError::StreamTerminal),
        caller == streams[id].sender ==> cancel_result(streams, id, caller, outcome) == Err::<
            (),
            StreamError,
        >(StreamError::StreamTerminal),
        withdraw_plan(streams, custodian, id, caller, now) is Err,
        withdraw_result(streams, id, caller, now, outcome) is Err,
        streams_after_withdraw(streams, id, caller, now, outcome) == streams,
        cancel_plan(streams, custodian, id, caller, now) is Err,
        cancel_result(streams, id, caller, outcome) is Err,
        streams_after_cancel(streams, id, caller, now, outcome) == streams,
{
}

/// A withdrawal that follows another with nothing vested in between pays
/// nothing. Where the first succeeded without paying the stream out in
/// full, the second succeeds too, returns 0, asks for no transfer and
/// changes no record.
pub proof fn lemma_repeated_withdrawal_pays_nothing(
    streams: Map<u64, StreamRecord>,
    custodian: Identity,
    id: u64,
    caller: Identity,
    now: u64,
    again: u64,
    first: TransferOutcome,
    second: TransferOutcome,
)
    requires
        records_valid(streams),
        withdraw_result(streams, id, caller, now, first) is Ok,
        streams[id].released(now) < streams[id].deposit,
        streams[id].vested(again) <= streams[id].vested(now),
    ensures
        ({
            let between = streams_after_withdraw(streams, id, caller, now, first);
            &&& withdraw_plan(between, custodian, id, caller, again) == Ok::<
                Option<Transfer>,
                StreamError,
            >(None)
            &&& withdraw_result(between, id, caller, again, second) == Ok::<i128, StreamError>(0)
            &&& streams_after_withdraw(between, id, caller, again, second) == between
        }),
{
    lemma_amounts_in_range(streams[id], now);
    lemma_amounts_in_range(streams[id], again);
}

/// Every stream of `streams` is kept under an identifier that was handed
/// out: one from 1 to `last_issued`.
pub open spec fn all_issued(streams: Map<u64, StreamRecord>, last_issued: u64) -> bool {
    forall|id: u64| #[trigger] streams.contains_key(id) ==> 0 < id <= last_issued
}

/// Identifiers are never used twice. In a ledger that holds streams only
/// under identifiers it handed out, opening a stream or a batch is never
/// refused with `DuplicateId`, and the ledger stays such a ledger.
pub proof fn lemma_identifiers_stay_fresh(
    streams: Map<u64, StreamRecord>,
    last_issued: u64,
    caller: Identity,
    sender: Identity,
    receiver: Identity,
    token: Identity,
    deposit: i128,
    start_time: u64,
    end_time: u64,
    requests: Seq<StreamRequest>,
    funding: TransferOutcome,
)
    requires
        all_issued(streams, last_issued),
        last_issued + requests.len() <= u64::MAX,
        last_issued < u64::MAX,
    ensures
        create_refusal(streams, last_issued, caller, sender, deposit, start_time, end_time)
            != Some(StreamError::DuplicateId),
        batch_refusal(streams, last_issued, caller, sender, requests) != Some(
            StreamError::DuplicateId,
        ),
        create_result(
            streams,
            last_issued,
            caller,
            sender,
            deposit,
            start_time,
            end_time,
            funding,
        ) matches Ok(id) ==> all_issued(
            streams_after_create(
                streams,
                last_issued,
                caller,
                sender,
                receiver,
                token,
                deposit,
                start_time,
                end_time,
                funding,
            ),
            id,
        ),
        batch_result(streams, last_issued, caller, sender, requests, funding) is Ok ==> all_issued(
            streams_after_batch(streams, last_issued, caller, sender, token, requests, funding),
            (last_issued + requests.len()) as u64,
        ),
{
    lemma_first_refusal_causes(requests);
    if batch_ids_taken(streams, last_issued, requests.len()) {
        let taken = choose|taken: u64|
            last_issued < taken <= last_issued + requests.len() && #[trigger] streams.contains_key(
                taken,
            );
        assert(streams.contains_key(taken));
    }
}

} // verus!
