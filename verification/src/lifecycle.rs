//! The lifecycle of a single stream: opening it, paying out what has
//! vested, and cancelling it.
//!
//! Every operation comes in two parts. The `plan_` function decides, without
//! changing anything, whether the operation is admissible and which
//! transfers the token service has to carry out for it. The operation
//! itself takes the same arguments and the service's answer to exactly
//! those transfers, and only then writes to the ledger.

use vstd::prelude::*;
use crate::error::StreamError;
use crate::funds::{refusal_of, Transfer, TransferOutcome};
use crate::identity::Identity;
use crate::ledger::StreamLedger;
use crate::stream::{lemma_amounts_in_range, Stream, StreamRecord, StreamStatus, terms_refusal};

verus! {

/// The streaming engine: the ledger of its streams and the account in which
/// the token service holds, on the engine's behalf, what is locked in them.
pub struct StreamEngine {
    pub ledger: StreamLedger,
    pub custodian: Identity,
}

/// The record of a stream as it is opened: active, with nothing withdrawn.
pub open spec fn opened(
    id: u64,
    sender: Identity,
    receiver: Identity,
    token: Identity,
    deposit: i128,
    start_time: u64,
    end_time: u64,
) -> StreamRecord {
    StreamRecord {
        id,
        sender,
        receiver,
        token,
        deposit,
        start_time,
        end_time,
        withdrawn: 0,
        status: StreamStatus::Active,
    }
}

/// Why opening a stream is refused before any transfer is asked for, if it
/// is: the terms are checked first, then the caller, who has to be the
/// sender, then that the next identifier is free.
pub open spec fn create_refusal(
    streams: Map<u64, StreamRecord>,
    last_issued: u64,
    caller: Identity,
    sender: Identity,
    deposit: i128,
    start_time: u64,
    end_time: u64,
) -> Option<StreamError> {
    if terms_refusal(deposit, start_time, end_time) is Some {
        terms_refusal(deposit, start_time, end_time)
    } else if caller != sender {
        Some(StreamError::Unauthorized)
    } else if streams.contains_key((last_issued + 1) as u64) {
        Some(StreamError::DuplicateId)
    } else {
        None
    }
}

/// Why a withdrawal is refused before any transfer is asked for, if it is:
/// the stream has to exist, the caller has to be its receiver, and it must
/// not have reached a final status, checked in this order.
pub open spec fn withdraw_refusal(
    streams: Map<u64, StreamRecord>,
    id: u64,
    caller: Identity,
) -> Option<StreamError> {
    if !streams.contains_key(id) {
        Some(StreamError::StreamNotFound)
    } else if caller != streams[id].receiver {
        Some(StreamError::Unauthorized)
    } else if streams[id].is_terminal() {
        Some(StreamError::StreamTerminal)
    } else {
        None
    }
}

/// Why a cancellation is refused before any transfer is asked for, if it
/// is: the stream has to exist, the caller has to be its sender, and it
/// must not have reached a final status, checked in this order.
pub open spec fn cancel_refusal(
    streams: Map<u64, StreamRecord>,
    id: u64,
    caller: Identity,
) -> Option<StreamError> {
    if !streams.contains_key(id) {
        Some(StreamError::StreamNotFound)
    } else if caller != streams[id].sender {
        Some(StreamError::Unauthorized)
    } else if streams[id].is_terminal() {
        Some(StreamError::StreamTerminal)
    } else {
        None
    }
}

/// The transfer that funds a new stream: the whole deposit, from the sender
/// into custody.
pub open spec fn funding_transfer(
    custodian: Identity,
    sender: Identity,
    token: Identity,
    amount: i128,
) -> Transfer {
    Transfer { token, from: sender, to: custodian, amount }
}

/// The transfer that pays the receiver of `record` at `now`: what is
/// withdrawable, out of custody.
pub open spec fn receiver_transfer(custodian: Identity, record: StreamRecord, now: u64) -> Transfer {
    Transfer {
        token: record.token,
        from: custodian,
        to: record.receiver,
        amount: record.withdrawable(now) as i128,
    }
}

/// The transfer that returns to the sender of `record` what a cancellation
/// at `now` leaves unvested, out of custody.
pub open spec fn sender_transfer(custodian: Identity, record: StreamRecord, now: u64) -> Transfer {
    Transfer {
        token: record.token,
        from: custodian,
        to: record.sender,
        amount: record.refundable(now) as i128,
    }
}

/// What opening a stream returns: the refusal, if it is refused or the
/// funding transfer failed, and else the identifier that follows the last
/// one handed out.
pub open spec fn create_result(
    streams: Map<u64, StreamRecord>,
    last_issued: u64,
    caller: Identity,
    sender: Identity,
    deposit: i128,
    start_time: u64,
    end_time: u64,
    funding: TransferOutcome,
) -> Result<u64, StreamError> {
    match create_refusal(streams, last_issued, caller, sender, deposit, start_time, end_time) {
        Some(cause) => Err(cause),
        None => match refusal_of(funding) {
            Some(cause) => Err(cause),
            None => Ok((last_issued + 1) as u64),
        },
    }
}

/// The streams after opening one: as before, unless it succeeded.
pub open spec fn streams_after_create(
    streams: Map<u64, StreamRecord>,
    last_issued: u64,
    caller: Identity,
    sender: Identity,
    receiver: Identity,
    token: Identity,
    deposit: i128,
    start_time: u64,
    end_time: u64,
    funding: TransferOutcome,
) -> Map<u64, StreamRecord> {
    match create_result(
        streams,
        last_issued,
        caller,
        sender,
        deposit,
        start_time,
        end_time,
        funding,
    ) {
        Ok(id) => streams.insert(
            id,
            opened(id, sender, receiver, token, deposit, start_time, end_time),
        ),
        Err(_) => streams,
    }
}

/// What opening a stream asks of the token service: the funding transfer,
/// unless it is refused.
pub open spec fn create_plan(
    streams: Map<u64, StreamRecord>,
    last_issued: u64,
    custodian: Identity,
    caller: Identity,
    sender: Identity,
    token: Identity,
    deposit: i128,
    start_time: u64,
    end_time: u64,
) -> Result<Transfer, StreamError> {
    match create_refusal(streams, last_issued, caller, sender, deposit, start_time, end_time) {
        Some(cause) => Err(cause),
        None => Ok(funding_transfer(custodian, sender, token, deposit)),
    }
}

/// What a withdrawal asks of the token service: nothing where it is refused
/// or nothing is outstanding, and else the receiver's transfer.
pub open spec fn withdraw_plan(
    streams: Map<u64, StreamRecord>,
    custodian: Identity,
    id: u64,
    caller: Identity,
    now: u64,
) -> Result<Option<Transfer>, StreamError> {
    match withdraw_refusal(streams, id, caller) {
        Some(cause) => Err(cause),
        None => Ok(
            if streams[id].withdrawable(now) > 0 {
                Some(receiver_transfer(custodian, streams[id], now))
            } else {
                None
            },
        ),
    }
}

/// What a withdrawal returns: the refusal, if it is refused; 0 where
/// nothing is outstanding; and else the amount paid, unless the transfer
/// failed.
pub open spec fn withdraw_result(
    streams: Map<u64, StreamRecord>,
    id: u64,
    caller: Identity,
    now: u64,
    payment: TransferOutcome,
) -> Result<i128, StreamError> {
    match withdraw_refusal(streams, id, caller) {
        Some(cause) => Err(cause),
        None => if streams[id].withdrawable(now) <= 0 {
            Ok(0)
        } else {
            match refusal_of(payment) {
                Some(cause) => Err(cause),
                None => Ok(streams[id].withdrawable(now) as i128),
            }
        },
    }
}

/// The streams after a withdrawal: as before, unless an amount was paid.
pub open spec fn streams_after_withdraw(
    streams: Map<u64, StreamRecord>,
    id: u64,
    caller: Identity,
    now: u64,
    payment: TransferOutcome,
) -> Map<u64, StreamRecord> {
    match withdraw_result(streams, id, caller, now, payment) {
        Ok(paid) => if paid > 0 {
            streams.insert(id, streams[id].after_withdrawal(now))
        } else {
            streams
        },
        Err(_) => streams,
    }
}

/// What a cancellation asks of the token service: the receiver's transfer
/// and the sender's, unless it is refused.
pub open spec fn cancel_plan(
    streams: Map<u64, StreamRecord>,
    custodian: Identity,
    id: u64,
    caller: Identity,
    now: u64,
) -> Result<(Transfer, Transfer), StreamError> {
    match cancel_refusal(streams, id, caller) {
        Some(cause) => Err(cause),
        None => Ok(
            (
                receiver_transfer(custodian, streams[id], now),
                sender_transfer(custodian, streams[id], now),
            ),
        ),
    }
}

/// What a cancellation returns: the refusal, if it is refused or the
/// settlement failed.
pub open spec fn cancel_result(
    streams: Map<u64, StreamRecord>,
    id: u64,
    caller: Identity,
    settlement: TransferOutcome,
) -> Result<(), StreamError> {
    match cancel_refusal(streams, id, caller) {
        Some(cause) => Err(cause),
        None => match refusal_of(settlement) {
            Some(cause) => Err(cause),
            None => Ok(()),
        },
    }
}

/// The streams after a cancellation: as before, unless it succeeded.
pub open spec fn streams_after_cancel(
    streams: Map<u64, StreamRecord>,
    id: u64,
    caller: Identity,
    now: u64,
    settlement: TransferOutcome,
) -> Map<u64, StreamRecord> {
    match cancel_result(streams, id, caller, settlement) {
        Ok(_) => streams.insert(id, streams[id].after_cancellation(now)),
        Err(_) => streams,
    }
}

impl StreamEngine {
    /// An engine without streams whose funds are held in `custodian`.
    pub fn new(custodian: Identity) -> (engine: StreamEngine)
        ensures
            engine.ledger@ == Map::<u64, StreamRecord>::empty(),
            engine.ledger.last_issued() == 0,
            engine.custodian == custodian,
    {
        StreamEngine { ledger: StreamLedger::new(), custodian }
    }

    /// Decides whether a stream may be opened on these terms by `caller`,
    /// and names the transfer that funds it.
    pub fn plan_create_stream(
        &self,
        caller: Identity,
        sender: Identity,
        receiver: Identity,
        token: Identity,
        deposit: i128,
        start_time: u64,
        end_time: u64,
    ) -> (plan: Result<Transfer, StreamError>)
        requires
            self.ledger.last_issued() < u64::MAX,
        ensures
            plan == create_plan(
                self.ledger@,
                self.ledger.last_issued(),
                self.custodian,
                caller,
                sender,
                token,
                deposit,
                start_time,
                end_time,
            ),
    {
        if deposit <= 0 {
            return Err(StreamError::InvalidAmount);
        }
        if end_time <= start_time {
            return Err(StreamError::InvalidWindow);
        }
        if !caller.is(&sender) {
            return Err(StreamError::Unauthorized);
        }
        if self.ledger.contains(self.ledger.issued() + 1) {
            return Err(StreamError::DuplicateId);
        }
        Ok(Transfer { token, from: sender, to: self.custodian, amount: deposit })
    }

    /// Opens a stream from `sender` to `receiver`, given the token
    /// service's answer to the funding transfer that `plan_create_stream`
    /// names for the same arguments. The stream is recorded, under the next
    /// identifier, only if the operation is admissible and the transfer was
    /// carried out; otherwise nothing changes and no identifier is used up.
    pub fn create_stream(
        &mut self,
        caller: Identity,
        sender: Identity,
        receiver: Identity,
        token: Identity,
        deposit: i128,
        start_time: u64,
        end_time: u64,
        funding: TransferOutcome,
    ) -> (created: Result<u64, StreamError>)
        requires
            old(self).ledger.last_issued() < u64::MAX,
        ensures
            final(self).custodian == old(self).custodian,
            created == create_result(
                old(self).ledger@,
                old(self).ledger.last_issued(),
                caller,
                sender,
                deposit,
                start_time,
                end_time,
                funding,
            ),
            final(self).ledger@ == streams_after_create(
                old(self).ledger@,
                old(self).ledger.last_issued(),
                caller,
                sender,
                receiver,
                token,
                deposit,
                start_time,
                end_time,
                funding,
            ),
            final(self).ledger.last_issued() == match created {
                Ok(id) => id,
                Err(_) => old(self).ledger.last_issued(),
            },
    {
        match self.plan_create_stream(
            caller,
            sender,
            receiver,
            token,
            deposit,
            start_time,
            end_time,
        ) {
            Err(cause) => {
                return Err(cause);
            },
            Ok(_) => {},
        }
        match funding.refusal() {
            Some(cause) => {
                return Err(cause);
            },
            None => {},
        }
        let id = self.ledger.issued() + 1;
        let stream = match Stream::open(
            id,
            sender,
            receiver,
            token,
            deposit,
            start_time,
            end_time,
        ) {
            Err(cause) => {
                return Err(cause);
            },
            Ok(stream) => stream,
        };
        match self.ledger.insert(stream) {
            Err(cause) => Err(cause),
            Ok(()) => Ok(self.ledger.next_id()),
        }
    }

    /// Decides whether `caller` may withdraw from the stream `id`, and
    /// names the transfer that pays what has vested at `now` and is not
    /// paid yet. Where nothing is outstanding the withdrawal is admissible
    /// and asks for no transfer.
    pub fn plan_withdraw(&self, id: u64, caller: Identity, now: u64) -> (plan: Result<
        Option<Transfer>,
        StreamError,
    >)
        ensures
            plan == withdraw_plan(self.ledger@, self.custodian, id, caller, now),
    {
        let stream = match self.ledger.get(id) {
            Err(cause) => {
                return Err(cause);
            },
            Ok(stream) => stream,
        };
        let record = stream.record();
        if !caller.is(&record.receiver) {
            return Err(StreamError::Unauthorized);
        }
        match record.status {
            StreamStatus::Active => {},
            _ => {
                return Err(StreamError::StreamTerminal);
            },
        }
        let payout = stream.withdrawable(now);
        if payout > 0 {
            Ok(
                Some(
                    Transfer {
                        token: record.token,
                        from: self.custodian,
                        to: record.receiver,
                        amount: payout,
                    },
                ),
            )
        } else {
            Ok(None)
        }
    }

    /// Pays the receiver of the stream `id` what has vested at `now` and is
    /// not paid yet, given the token service's answer to the transfer that
    /// `plan_withdraw` names for the same arguments, and returns the amount
    /// paid by this call. Where nothing is outstanding it returns 0, asks
    /// for no transfer and changes nothing, whatever `payment` says.
    pub fn withdraw(&mut self, id: u64, caller: Identity, now: u64, payment: TransferOutcome) -> (paid:
        Result<i128, StreamError>)
        ensures
            final(self).custodian == old(self).custodian,
            final(self).ledger.last_issued() == old(self).ledger.last_issued(),
            paid == withdraw_result(old(self).ledger@, id, caller, now, payment),
            final(self).ledger@ == streams_after_withdraw(
                old(self).ledger@,
                id,
                caller,
                now,
                payment,
            ),
    {
        let transfer = match self.plan_withdraw(id, caller, now) {
            Err(cause) => {
                return Err(cause);
            },
            Ok(None) => {
                proof {
                    use_type_invariant(&self.ledger);
                    lemma_amounts_in_range(self.ledger@[id], now);
                }
                return Ok(0);
            },
            Ok(Some(transfer)) => transfer,
        };
        match payment.refusal() {
            Some(cause) => {
                return Err(cause);
            },
            None => {},
        }
        match self.ledger.get(id) {
            Err(cause) => Err(cause),
            Ok(stream) => {
                proof {
                    use_type_invariant(&self.ledger);
                    lemma_amounts_in_range(self.ledger@[id], now);
                }
                match self.ledger.update(id, stream.after_withdrawal(now)) {
                    Err(cause) => Err(cause),
                    Ok(()) => Ok(transfer.amount),
                }
            },
        }
    }

    /// Decides whether `caller` may cancel the stream `id`, and names the
    /// two transfers that settle it at `now`: first the receiver's, of what
    /// has vested and is not paid yet, then the sender's, of what has not
    /// vested. Together they move exactly what the stream still held.
    pub fn plan_cancel_stream(&self, id: u64, caller: Identity, now: u64) -> (plan: Result<
        (Transfer, Transfer),
        StreamError,
    >)
        ensures
            plan == cancel_plan(self.ledger@, self.custodian, id, caller, now),
    {
        let stream = match self.ledger.get(id) {
            Err(cause) => {
                return Err(cause);
            },
            Ok(stream) => stream,
        };
        let record = stream.record();
        if !caller.is(&record.sender) {
            return Err(StreamError::Unauthorized);
        }
        match record.status {
            StreamStatus::Active => {},
            _ => {
                return Err(StreamError::StreamTerminal);
            },
        }
        let to_receiver = Transfer {
            token: record.token,
            from: self.custodian,
            to: record.receiver,
            amount: stream.withdrawable(now),
        };
        let to_sender = Transfer {
            token: record.token,
            from: self.custodian,
            to: record.sender,
            amount: stream.refundable(now),
        };
        Ok((to_receiver, to_sender))
    }

    /// Cancels the stream `id` at `now`, given the token service's answer
    /// to the two transfers that `plan_cancel_stream` names for the same
    /// arguments. The stream becomes `Cancelled`, with everything released
    /// to the receiver counted as withdrawn, only if the cancellation is
    /// admissible and both transfers were carried out; otherwise nothing
    /// changes.
    pub fn cancel_stream(
        &mut self,
        id: u64,
        caller: Identity,
        now: u64,
        settlement: TransferOutcome,
    ) -> (cancelled: Result<(), StreamError>)
        ensures
            final(self).custodian == old(self).custodian,
            final(self).ledger.last_issued() == old(self).ledger.last_issued(),
            cancelled == cancel_result(old(self).ledger@, id, caller, settlement),
            final(self).ledger@ == streams_after_cancel(
                old(self).ledger@,
                id,
                caller,
                now,
                settlement,
            ),
    {
        match self.plan_cancel_stream(id, caller, now) {
            Err(cause) => {
                return Err(cause);
            },
            Ok(_) => {},
        }
        match settlement.refusal() {
            Some(cause) => {
                return Err(cause);
            },
            None => {},
        }
        match self.ledger.get(id) {
            Err(cause) => Err(cause),
            Ok(stream) => self.ledger.update(id, stream.after_cancellation(now)),
        }
    }
}

} // verus!
