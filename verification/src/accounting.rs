//! The books of the engine: what its streams hold, have paid and have
//! returned, added up over a ledger, and the proof that these sums always
//! account for every unit that was deposited.

use vstd::prelude::*;
use crate::batch::{
    batch_ids_taken, batch_plan, batch_record, batch_refusal, batch_result, batch_total,
    first_refusal, lemma_batch_total_grows, lemma_first_refusal_none, StreamRequest,
    streams_after_batch, with_batch,
};
use crate::funds::{inflow, TransferOutcome};
use crate::identity::Identity;
use crate::ledger::records_valid;
use crate::lifecycle::{
    cancel_plan, cancel_result, create_plan, create_result, opened, streams_after_cancel,
    streams_after_create, streams_after_withdraw, withdraw_plan, withdraw_result,
};
use crate::stream::{lemma_amounts_in_range, StreamRecord, StreamStatus};

verus! {

/// The amounts that the books keep for each stream.
pub enum Measure {
    /// What was locked when the stream was opened.
    Deposited,
    /// What is still in custody for the stream: the unpaid rest of the
    /// deposit while it is active, nothing once it is final.
    Held,
    /// What was paid to the receiver.
    Paid,
    /// What went back to the sender when the stream was cancelled.
    Refunded,
}

/// Which streams a sum runs over: those of one token, or all.
pub enum Scope {
    /// The streams of this token.
    Token(Identity),
    /// The streams of every token.
    AllTokens,
}

impl Scope {
    /// Whether a sum over this scope counts the streams of `token`.
    pub open spec fn includes(self, token: Identity) -> bool {
        match self {
            Scope::Token(only) => token == only,
            Scope::AllTokens => true,
        }
    }

    /// Whether a sum over this scope counts `record`.
    pub open spec fn covers(self, record: StreamRecord) -> bool {
        self.includes(record.token)
    }
}

/// The amount that the books keep for `record` under `measure`.
pub open spec fn amount_of(measure: Measure, record: StreamRecord) -> int {
    match measure {
        Measure::Deposited => record.deposit as int,
        Measure::Held => if record.status == StreamStatus::Active {
            record.deposit - record.withdrawn
        } else {
            0
        },
        Measure::Paid => record.withdrawn as int,
        Measure::Refunded => if record.status == StreamStatus::Cancelled {
            record.deposit - record.withdrawn
        } else {
            0
        },
    }
}

/// What `record` adds to a sum over `scope`.
pub open spec fn share(scope: Scope, measure: Measure, record: StreamRecord) -> int {
    if scope.covers(record) {
        amount_of(measure, record)
    } else {
        0
    }
}

/// What the stream under `id` adds to a sum over `scope`; nothing where
/// there is none.
pub open spec fn share_at(
    streams: Map<u64, StreamRecord>,
    scope: Scope,
    measure: Measure,
    id: u64,
) -> int {
    if streams.contains_key(id) {
        share(scope, measure, streams[id])
    } else {
        0
    }
}

/// The sum of `measure` over the streams of `scope` whose identifier is
/// below `bound`.
pub open spec fn total_below(
    streams: Map<u64, StreamRecord>,
    scope: Scope,
    measure: Measure,
    bound: nat,
) -> int
    decreases bound,
{
    if bound == 0 {
        0
    } else {
        total_below(streams, scope, measure, (bound - 1) as nat) + share_at(
            streams,
            scope,
            measure,
            (bound - 1) as u64,
        )
    }
}

/// The number of identifiers there are.
pub open spec fn id_space() -> nat {
    0x1_0000_0000_0000_0000
}

/// The sum of `measure` over all streams of `scope`.
pub open spec fn total(streams: Map<u64, StreamRecord>, scope: Scope, measure: Measure) -> int {
    total_below(streams, scope, measure, id_space())
}

/// For every valid record the books balance: what is held, what was paid
/// and what was refunded make up the deposit.
pub proof fn lemma_record_balances(record: StreamRecord)
    requires
        record.valid(),
    ensures
        amount_of(Measure::Held, record) + amount_of(Measure::Paid, record) + amount_of(
            Measure::Refunded,
            record,
        ) == amount_of(Measure::Deposited, record),
        amount_of(Measure::Held, record) >= 0,
        amount_of(Measure::Paid, record) >= 0,
        amount_of(Measure::Refunded, record) >= 0,
{
}

proof fn lemma_balance_below(streams: Map<u64, StreamRecord>, scope: Scope, bound: nat)
    requires
        records_valid(streams),
        bound <= id_space(),
    ensures
        total_below(streams, scope, Measure::Held, bound) + total_below(
            streams,
            scope,
            Measure::Paid,
            bound,
        ) + total_below(streams, scope, Measure::Refunded, bound) == total_below(
            streams,
            scope,
            Measure::Deposited,
            bound,
        ),
        total_below(streams, scope, Measure::Refunded, bound) >= 0,
    decreases bound,
{
    if bound > 0 {
        lemma_balance_below(streams, scope, (bound - 1) as nat);
        let id = (bound - 1) as u64;
        if streams.contains_key(id) {
            lemma_record_balances(streams[id]);
        }
    }
}

/// Funds are conserved: over every ledger, for one token or for all, what
/// is still held for active streams, what was paid to receivers and what
/// was returned to senders add up to everything that was ever deposited.
pub proof fn lemma_funds_conserved(streams: Map<u64, StreamRecord>, scope: Scope)
    requires
        records_valid(streams),
    ensures
        total(streams, scope, Measure::Held) + total(streams, scope, Measure::Paid) + total(
            streams,
            scope,
            Measure::Refunded,
        ) == total(streams, scope, Measure::Deposited),
{
    lemma_balance_below(streams, scope, id_space());
}

proof fn lemma_nothing_refunded_below(streams: Map<u64, StreamRecord>, scope: Scope, bound: nat)
    requires
        bound <= id_space(),
        forall|id: u64| #[trigger]
            streams.contains_key(id) && streams[id].status == StreamStatus::Cancelled
                ==> streams[id].withdrawn == streams[id].deposit,
    ensures
        total_below(streams, scope, Measure::Refunded, bound) == 0,
    decreases bound,
{
    if bound > 0 {
        lemma_nothing_refunded_below(streams, scope, (bound - 1) as nat);
    }
}

/// As long as no cancellation has returned anything to a sender, what is
/// held for the streams that are not final and what was paid on all
/// streams add up to everything that was ever deposited.
pub proof fn lemma_funds_conserved_without_refunds(streams: Map<u64, StreamRecord>, scope: Scope)
    requires
        records_valid(streams),
        forall|id: u64| #[trigger]
            streams.contains_key(id) && streams[id].status == StreamStatus::Cancelled
                ==> streams[id].withdrawn == streams[id].deposit,
    ensures
        total(streams, scope, Measure::Held) + total(streams, scope, Measure::Paid) == total(
            streams,
            scope,
            Measure::Deposited,
        ),
{
    lemma_funds_conserved(streams, scope);
    lemma_nothing_refunded_below(streams, scope, id_space());
}

proof fn lemma_total_below_insert(
    streams: Map<u64, StreamRecord>,
    scope: Scope,
    measure: Measure,
    id: u64,
    record: StreamRecord,
    bound: nat,
)
    requires
        bound <= id_space(),
    ensures
        total_below(streams.insert(id, record), scope, measure, bound) == total_below(
            streams,
            scope,
            measure,
            bound,
        ) + if id < bound {
            share(scope, measure, record) - share_at(streams, scope, measure, id)
        } else {
            0
        },
    decreases bound,
{
    if bound > 0 {
        lemma_total_below_insert(streams, scope, measure, id, record, (bound - 1) as nat);
    }
}

/// Writing a record changes a sum by what the new record adds to it, less
/// what the record in its place added before.
pub proof fn lemma_total_insert(
    streams: Map<u64, StreamRecord>,
    scope: Scope,
    measure: Measure,
    id: u64,
    record: StreamRecord,
)
    ensures
        total(streams.insert(id, record), scope, measure) == total(streams, scope, measure)
            + share(scope, measure, record) - share_at(streams, scope, measure, id),
{
    lemma_total_below_insert(streams, scope, measure, id, record, id_space());
}

/// Opening a stream books its deposit: where it succeeds, the deposit is
/// added to what is held and to what was deposited, and nothing to what
/// was paid or refunded; where it does not, the books stay as they are.
pub proof fn lemma_create_books_the_deposit(
    streams: Map<u64, StreamRecord>,
    last_issued: u64,
    caller: Identity,
    sender: Identity,
    receiver: Identity,
    token: Identity,
    deposit: i128,
    start_time: u64,
    end_time: u64,
    funding: TransferOutcome,
    scope: Scope,
)
    requires
        last_issued < u64::MAX,
    ensures
        ({
            let after = streams_after_create(
                streams,
                last_issued,
                caller,
                sender,
                receiver,
                token,
                deposit,
                start_time,
                end_time,
                funding,
            );
            let added = if create_result(
                streams,
                last_issued,
                caller,
                sender,
                deposit,
                start_time,
                end_time,
                funding,
            ) is Ok && scope.includes(token) {
                deposit as int
            } else {
                0
            };
            &&& total(after, scope, Measure::Held) == total(streams, scope, Measure::Held) + added
            &&& total(after, scope, Measure::Deposited) == total(
                streams,
                scope,
                Measure::Deposited,
            ) + added
            &&& total(after, scope, Measure::Paid) == total(streams, scope, Measure::Paid)
            &&& total(after, scope, Measure::Refunded) == total(streams, scope, Measure::Refunded)
        }),
{
    let id = (last_issued + 1) as u64;
    let record = opened(id, sender, receiver, token, deposit, start_time, end_time);
    lemma_opening_books_the_deposit(streams, scope, record);
}

/// A withdrawal books what it pays: the amount it returns moves from what
/// is held to what was paid, and nothing else changes in the books.
pub proof fn lemma_withdraw_books_the_payment(
    streams: Map<u64, StreamRecord>,
    id: u64,
    caller: Identity,
    now: u64,
    payment: TransferOutcome,
    scope: Scope,
)
    requires
        records_valid(streams),
    ensures
        ({
            let after = streams_after_withdraw(streams, id, caller, now, payment);
            let moved = match withdraw_result(streams, id, caller, now, payment) {
                Ok(paid) => if scope.covers(streams[id]) {
                    paid as int
                } else {
                    0
                },
                Err(_) => 0,
            };
            &&& total(after, scope, Measure::Held) == total(streams, scope, Measure::Held) - moved
            &&& total(after, scope, Measure::Paid) == total(streams, scope, Measure::Paid) + moved
            &&& total(after, scope, Measure::Deposited) == total(
                streams,
                scope,
                Measure::Deposited,
            )
            &&& total(after, scope, Measure::Refunded) == total(streams, scope, Measure::Refunded)
        }),
{
    if streams.contains_key(id) {
        let next = streams[id].after_withdrawal(now);
        lemma_amounts_in_range(streams[id], now);
        lemma_total_insert(streams, scope, Measure::Held, id, next);
        lemma_total_insert(streams, scope, Measure::Deposited, id, next);
        lemma_total_insert(streams, scope, Measure::Paid, id, next);
        lemma_total_insert(streams, scope, Measure::Refunded, id, next);
    }
}

/// A cancellation books the split: what was held for the stream goes to
/// what was paid, as far as the receiver has a claim to it, and to what was
/// refunded for the rest. The two parts are exactly what the stream still
/// held, so nothing is left over and nothing is made up.
pub proof fn lemma_cancel_books_the_split(
    streams: Map<u64, StreamRecord>,
    id: u64,
    caller: Identity,
    now: u64,
    settlement: TransferOutcome,
    scope: Scope,
)
    requires
        records_valid(streams),
    ensures
        streams.contains_key(id) ==> streams[id].withdrawable(now) + streams[id].refundable(now)
            == streams[id].deposit - streams[id].withdrawn,
        ({
            let after = streams_after_cancel(streams, id, caller, now, settlement);
            let counted = cancel_result(streams, id, caller, settlement) is Ok && scope.covers(
                streams[id],
            );
            let to_receiver = if counted {
                streams[id].withdrawable(now)
            } else {
                0
            };
            let to_sender = if counted {
                streams[id].refundable(now)
            } else {
                0
            };
            &&& total(after, scope, Measure::Held) == total(streams, scope, Measure::Held)
                - to_receiver - to_sender
            &&& total(after, scope, Measure::Paid) == total(streams, scope, Measure::Paid)
                + to_receiver
            &&& total(after, scope, Measure::Refunded) == total(streams, scope, Measure::Refunded)
                + to_sender
            &&& total(after, scope, Measure::Deposited) == total(
                streams,
                scope,
                Measure::Deposited,
            )
        }),
{
    if streams.contains_key(id) {
        let next = streams[id].after_cancellation(now);
        lemma_amounts_in_range(streams[id], now);
        lemma_total_insert(streams, scope, Measure::Held, id, next);
        lemma_total_insert(streams, scope, Measure::Deposited, id, next);
        lemma_total_insert(streams, scope, Measure::Paid, id, next);
        lemma_total_insert(streams, scope, Measure::Refunded, id, next);
    }
}

/// A batch books its total: where it succeeds, the sum of its requests is
/// added to what is held and to what was deposited, and nothing to what
/// was paid or refunded; where it does not, the books stay as they are.
pub proof fn lemma_batch_books_the_total(
    streams: Map<u64, StreamRecord>,
    last_issued: u64,
    caller: Identity,
    sender: Identity,
    token: Identity,
    requests: Seq<StreamRequest>,
    funding: TransferOutcome,
    scope: Scope,
)
    requires
        last_issued + requests.len() <= u64::MAX,
    ensures
        ({
            let after = streams_after_batch(
                streams,
                last_issued,
                caller,
                sender,
                token,
                requests,
                funding,
            );
            let added = if batch_result(streams, last_issued, caller, sender, requests, funding)
                is Ok && scope.includes(token) {
                batch_total(requests)
            } else {
                0
            };
            &&& total(after, scope, Measure::Held) == total(streams, scope, Measure::Held) + added
            &&& total(after, scope, Measure::Deposited) == total(
                streams,
                scope,
                Measure::Deposited,
            ) + added
            &&& total(after, scope, Measure::Paid) == total(streams, scope, Measure::Paid)
            &&& total(after, scope, Measure::Refunded) == total(streams, scope, Measure::Refunded)
        }),
{
    if batch_result(streams, last_issued, caller, sender, requests, funding) is Ok {
        lemma_batch_adds_its_total(streams, last_issued, sender, token, requests, scope);
    }
}

/// Custody follows the books when a stream is opened: the funding transfer
/// brings into custody exactly what the books then hold more. The sender
/// must not be the custodial account itself, which would only pay itself.
pub proof fn lemma_create_fills_custody(
    streams: Map<u64, StreamRecord>,
    last_issued: u64,
    custodian: Identity,
    caller: Identity,
    sender: Identity,
    receiver: Identity,
    token: Identity,
    deposit: i128,
    start_time: u64,
    end_time: u64,
    of: Identity,
)
    requires
        last_issued < u64::MAX,
        sender != custodian,
    ensures
        ({
            let after = streams_after_create(
                streams,
                last_issued,
                caller,
                sender,
                receiver,
                token,
                deposit,
                start_time,
                end_time,
                TransferOutcome::Completed,
            );
            let gained = match create_plan(
                streams,
                last_issued,
                custodian,
                caller,
                sender,
                token,
                deposit,
                start_time,
                end_time,
            ) {
                Ok(funding) => inflow(funding, custodian, of),
                Err(_) => 0,
            };
            total(after, Scope::Token(of), Measure::Held) == total(
                streams,
                Scope::Token(of),
                Measure::Held,
            ) + gained
        }),
{
    lemma_create_books_the_deposit(
        streams,
        last_issued,
        caller,
        sender,
        receiver,
        token,
        deposit,
        start_time,
        end_time,
        TransferOutcome::Completed,
        Scope::Token(of),
    );
}

/// Custody follows the books when a receiver withdraws: the payment takes
/// out of custody exactly what the books then hold less. The receiver must
/// not be the custodial account itself.
pub proof fn lemma_withdraw_draws_on_custody(
    streams: Map<u64, StreamRecord>,
    custodian: Identity,
    id: u64,
    caller: Identity,
    now: u64,
    of: Identity,
)
    requires
        records_valid(streams),
        streams.contains_key(id) ==> streams[id].receiver != custodian,
    ensures
        ({
            let after = streams_after_withdraw(
                streams,
                id,
                caller,
                now,
                TransferOutcome::Completed,
            );
            let gained = match withdraw_plan(streams, custodian, id, caller, now) {
                Ok(Some(payment)) => inflow(payment, custodian, of),
                _ => 0,
            };
            total(after, Scope::Token(of), Measure::Held) == total(
                streams,
                Scope::Token(of),
                Measure::Held,
            ) + gained
        }),
{
    lemma_withdraw_books_the_payment(
        streams,
        id,
        caller,
        now,
        TransferOutcome::Completed,
        Scope::Token(of),
    );
    if streams.contains_key(id) {
        lemma_amounts_in_range(streams[id], now);
    }
}

/// Custody follows the books when a stream is cancelled: the two transfers
/// of the settlement take out of custody exactly what the books then hold
/// less, which is all that was held for the stream. Neither party may be
/// the custodial account itself.
pub proof fn lemma_cancel_empties_custody(
    streams: Map<u64, StreamRecord>,
    custodian: Identity,
    id: u64,
    caller: Identity,
    now: u64,
    of: Identity,
)
    requires
        records_valid(streams),
        streams.contains_key(id) ==> streams[id].receiver != custodian && streams[id].sender
            != custodian,
    ensures
        ({
            let after = streams_after_cancel(streams, id, caller, now, TransferOutcome::Completed);
            let gained = match cancel_plan(streams, custodian, id, caller, now) {
                Ok((to_receiver, to_sender)) => inflow(to_receiver, custodian, of) + inflow(
                    to_sender,
                    custodian,
                    of,
                ),
                Err(_) => 0,
            };
            &&& total(after, Scope::Token(of), Measure::Held) == total(
                streams,
                Scope::Token(of),
                Measure::Held,
            ) + gained
            &&& cancel_plan(streams, custodian, id, caller, now) is Ok ==> amount_of(
                Measure::Held,
                after[id],
            ) == 0
        }),
{
    lemma_cancel_books_the_split(
        streams,
        id,
        caller,
        now,
        TransferOutcome::Completed,
        Scope::Token(of),
    );
    if streams.contains_key(id) {
        lemma_amounts_in_range(streams[id], now);
    }
}

/// Custody follows the books when a batch is opened: its one funding
/// transfer brings into custody exactly what the books then hold more. The
/// sender must not be the custodial account itself.
pub proof fn lemma_batch_fills_custody(
    streams: Map<u64, StreamRecord>,
    last_issued: u64,
    custodian: Identity,
    caller: Identity,
    sender: Identity,
    token: Identity,
    requests: Seq<StreamRequest>,
    of: Identity,
)
    requires
        last_issued + requests.len() <= u64::MAX,
        sender != custodian,
    ensures
        ({
            let after = streams_after_batch(
                streams,
                last_issued,
                caller,
                sender,
                token,
                requests,
                TransferOutcome::Completed,
            );
            let gained = match batch_plan(
                streams,
                last_issued,
                custodian,
                caller,
                sender,
                token,
                requests,
            ) {
                Ok(Some(funding)) => inflow(funding, custodian, of),
                _ => 0,
            };
            total(after, Scope::Token(of), Measure::Held) == total(
                streams,
                Scope::Token(of),
                Measure::Held,
            ) + gained
        }),
{
    lemma_batch_books_the_total(
        streams,
        last_issued,
        caller,
        sender,
        token,
        requests,
        TransferOutcome::Completed,
        Scope::Token(of),
    );
    if batch_refusal(streams, last_issued, caller, sender, requests) is None {
        assert forall|j: int| 0 <= j < requests.len() implies (#[trigger] requests[j]).amount
            > 0 by {
            lemma_first_refusal_none(requests, j);
        }
        lemma_batch_total_grows(requests, 0);
    }
}

/// Recording a newly opened stream adds its deposit to what is held and to
/// what was deposited, and nothing to what was paid or refunded.
proof fn lemma_opening_books_the_deposit(
    streams: Map<u64, StreamRecord>,
    scope: Scope,
    record: StreamRecord,
)
    requires
        record.status == StreamStatus::Active,
        record.withdrawn == 0,
    ensures
        ({
            let after = streams.insert(record.id, record);
            let added = if !streams.contains_key(record.id) && scope.covers(record) {
                record.deposit as int
            } else {
                0
            };
            !streams.contains_key(record.id) ==> {
                &&& total(after, scope, Measure::Held) == total(streams, scope, Measure::Held)
                    + added
                &&& total(after, scope, Measure::Deposited) == total(
                    streams,
                    scope,
                    Measure::Deposited,
                ) + added
                &&& total(after, scope, Measure::Paid) == total(streams, scope, Measure::Paid)
                &&& total(after, scope, Measure::Refunded) == total(
                    streams,
                    scope,
                    Measure::Refunded,
                )
            }
        }),
{
    lemma_total_insert(streams, scope, Measure::Held, record.id, record);
    lemma_total_insert(streams, scope, Measure::Deposited, record.id, record);
    lemma_total_insert(streams, scope, Measure::Paid, record.id, record);
    lemma_total_insert(streams, scope, Measure::Refunded, record.id, record);
}

/// The streams that a batch records add the total of its requests to what
/// is held and to what was deposited.
proof fn lemma_batch_adds_its_total(
    streams: Map<u64, StreamRecord>,
    last_issued: u64,
    sender: Identity,
    token: Identity,
    requests: Seq<StreamRequest>,
    scope: Scope,
)
    requires
        last_issued + requests.len() <= u64::MAX,
        first_refusal(requests) is None,
        !batch_ids_taken(streams, last_issued, requests.len()),
    ensures
        ({
            let after = with_batch(streams, last_issued, sender, token, requests);
            let added = if scope.includes(token) {
                batch_total(requests)
            } else {
                0
            };
            &&& total(after, scope, Measure::Held) == total(streams, scope, Measure::Held) + added
            &&& total(after, scope, Measure::Deposited) == total(
                streams,
                scope,
                Measure::Deposited,
            ) + added
            &&& total(after, scope, Measure::Paid) == total(streams, scope, Measure::Paid)
            &&& total(after, scope, Measure::Refunded) == total(streams, scope, Measure::Refunded)
        }),
    decreases requests.len(),
{
    let after = with_batch(streams, last_issued, sender, token, requests);
    if requests.len() == 0 {
        assert(after =~= streams);
    } else {
        let shorter = requests.drop_last();
        let id = (last_issued + requests.len()) as u64;
        let record = batch_record(last_issued, sender, token, requests, id);
        let earlier = with_batch(streams, last_issued, sender, token, shorter);
        assert(first_refusal(shorter) is None) by {
            lemma_prefix_well_formed(requests);
        }
        assert(!batch_ids_taken(streams, last_issued, shorter.len())) by {
            if batch_ids_taken(streams, last_issued, shorter.len()) {
                let taken = choose|taken: u64|
                    last_issued < taken <= last_issued + shorter.len()
                        && #[trigger] streams.contains_key(taken);
                assert(streams.contains_key(taken));
            }
        }
        lemma_batch_adds_its_total(streams, last_issued, sender, token, shorter, scope);
        assert forall|other: u64| last_issued < other <= last_issued + shorter.len() implies batch_record(
            last_issued,
            sender,
            token,
            shorter,
            other,
        ) == batch_record(last_issued, sender, token, requests, other) by {
            assert(shorter[other - last_issued - 1] == requests[other - last_issued - 1]);
        }
        assert(after =~= earlier.insert(id, record));
        assert(!earlier.contains_key(id)) by {
            if streams.contains_key(id) {
                assert(batch_ids_taken(streams, last_issued, requests.len()));
            }
        }
        lemma_opening_books_the_deposit(earlier, scope, record);
    }
}

/// Where no request of a batch is malformed, none of the batch without its
/// last request is.
proof fn lemma_prefix_well_formed(requests: Seq<StreamRequest>)
    requires
        requests.len() > 0,
        first_refusal(requests) is None,
    ensures
        first_refusal(requests.drop_last()) is None,
    decreases requests.len(),
{
    if requests.len() > 1 {
        lemma_prefix_well_formed(requests.drop_first());
        assert(requests.drop_last().drop_first() =~= requests.drop_first().drop_last());
        assert(requests.drop_last()[0] == requests[0]);
    }
}

} // verus!
