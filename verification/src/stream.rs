//! The stream record: what was agreed when the stream was opened, and how
//! much of it has been paid.

use vstd::prelude::*;
use crate::error::StreamError;
use crate::identity::Identity;
use crate::vesting::{compute_vested, lemma_vested_bounds, vested_amount};

verus! {

/// Where a stream stands in its life. `Cancelled` and `FullyWithdrawn` are
/// final: a stream that has reached one of them never changes again.
#[derive(Clone, Copy, Debug, PartialEq, Eq, Structural)]
pub enum StreamStatus {
    /// The stream is open: it vests, pays out and can be cancelled.
    Active,
    /// The sender has cancelled the stream and it was settled.
    Cancelled,
    /// The receiver has been paid the whole deposit.
    FullyWithdrawn,
}

/// The contents of a stream record as plain data. Everything but
/// `withdrawn` and `status` is fixed when the stream is opened.
#[derive(Clone, Copy, Debug, PartialEq, Eq, Structural)]
pub struct StreamRecord {
    pub id: u64,
    pub sender: Identity,
    pub receiver: Identity,
    pub token: Identity,
    pub deposit: i128,
    pub start_time: u64,
    pub end_time: u64,
    pub withdrawn: i128,
    pub status: StreamStatus,
}

impl StreamRecord {
    /// What holds of every record the engine keeps: a positive deposit, a
    /// window that ends after it starts, and a paid amount within the
    /// deposit that has reached it exactly when the stream is fully
    /// withdrawn and not while it is active.
    pub open spec fn valid(self) -> bool {
        &&& self.deposit > 0
        &&& self.start_time < self.end_time
        &&& 0 <= self.withdrawn <= self.deposit
        &&& (self.status == StreamStatus::Active ==> self.withdrawn < self.deposit)
        &&& (self.status == StreamStatus::FullyWithdrawn ==> self.withdrawn == self.deposit)
    }

    /// Whether the stream has reached a final status.
    pub open spec fn is_terminal(self) -> bool {
        self.status != StreamStatus::Active
    }

    /// Whether `self` and `other` agree in everything that is fixed when a
    /// stream is opened.
    pub open spec fn same_terms(self, other: StreamRecord) -> bool {
        &&& self.id == other.id
        &&& self.sender == other.sender
        &&& self.receiver == other.receiver
        &&& self.token == other.token
        &&& self.deposit == other.deposit
        &&& self.start_time == other.start_time
        &&& self.end_time == other.end_time
    }

    /// The part of the deposit that has vested at `now`.
    pub open spec fn vested(self, now: u64) -> int {
        vested_amount(
            self.deposit as int,
            self.start_time as int,
            self.end_time as int,
            now as int,
        )
    }

    /// What the receiver has a claim to at `now`, paid or not: the vested
    /// amount, and never less than what was paid already.
    pub open spec fn released(self, now: u64) -> int {
        if self.vested(now) > self.withdrawn {
            self.vested(now)
        } else {
            self.withdrawn as int
        }
    }

    /// What a withdrawal at `now` pays: the vested amount that has not been
    /// paid yet, and nothing where none is outstanding.
    pub open spec fn withdrawable(self, now: u64) -> int {
        self.released(now) - self.withdrawn
    }

    /// What a cancellation at `now` returns to the sender: the part of the
    /// deposit that the receiver has no claim to.
    pub open spec fn refundable(self, now: u64) -> int {
        self.deposit - self.released(now)
    }

    /// The record after a withdrawal at `now` was paid: everything released
    /// counts as withdrawn, and a stream paid in full is fully withdrawn. A
    /// stream that has reached a final status stays as it is.
    pub open spec fn after_withdrawal(self, now: u64) -> StreamRecord {
        if self.is_terminal() {
            self
        } else {
            StreamRecord {
                withdrawn: self.released(now) as i128,
                status: if self.released(now) == self.deposit {
                    StreamStatus::FullyWithdrawn
                } else {
                    StreamStatus::Active
                },
                ..self
            }
        }
    }

    /// The record after a cancellation at `now` was settled: everything
    /// released counts as withdrawn, and the stream is cancelled. A stream
    /// that has reached a final status stays as it is.
    pub open spec fn after_cancellation(self, now: u64) -> StreamRecord {
        if self.is_terminal() {
            self
        } else {
            StreamRecord {
                withdrawn: self.released(now) as i128,
                status: StreamStatus::Cancelled,
                ..self
            }
        }
    }

    /// The record with the paid amount and the status replaced.
    fn paid_up(&self, withdrawn: i128, status: StreamStatus) -> (next: StreamRecord)
        ensures
            next == (StreamRecord { withdrawn, status, ..*self }),
    {
        StreamRecord {
            id: self.id,
            sender: self.sender,
            receiver: self.receiver,
            token: self.token,
            deposit: self.deposit,
            start_time: self.start_time,
            end_time: self.end_time,
            withdrawn,
            status,
        }
    }

    /// Checks `valid`.
    pub fn is_valid(&self) -> (valid: bool)
        ensures
            valid == self.valid(),
    {
        if self.deposit <= 0 || self.start_time >= self.end_time {
            return false;
        }
        if self.withdrawn < 0 || self.withdrawn > self.deposit {
            return false;
        }
        match self.status {
            StreamStatus::Active => self.withdrawn < self.deposit,
            StreamStatus::FullyWithdrawn => self.withdrawn == self.deposit,
            StreamStatus::Cancelled => true,
        }
    }
}

/// The amounts of a valid record stay within its deposit, at every instant.
pub proof fn lemma_amounts_in_range(record: StreamRecord, now: u64)
    requires
        record.valid(),
    ensures
        0 <= record.vested(now) <= record.deposit,
        record.withdrawn <= record.released(now) <= record.deposit,
        0 <= record.withdrawable(now) <= record.deposit - record.withdrawn,
        0 <= record.refundable(now) <= record.deposit - record.withdrawn,
        record.withdrawable(now) + record.refundable(now) == record.deposit - record.withdrawn,
{
    lemma_vested_bounds(
        record.deposit as int,
        record.start_time as int,
        record.end_time as int,
        now as int,
    );
}

/// The opening terms that `Stream::open` refuses, with the cause: a deposit
/// that is not positive, then a window that does not end after it starts.
pub open spec fn terms_refusal(deposit: i128, start_time: u64, end_time: u64) -> Option<
    StreamError,
> {
    if deposit <= 0 {
        Some(StreamError::InvalidAmount)
    } else if end_time <= start_time {
        Some(StreamError::InvalidWindow)
    } else {
        None
    }
}

/// A stream record that is known to be valid.
#[derive(Clone, Copy, Debug)]
pub struct Stream {
    record: StreamRecord,
}

impl View for Stream {
    type V = StreamRecord;

    closed spec fn view(&self) -> StreamRecord {
        self.record
    }
}

impl Stream {
    /// What holds of every `Stream` there is: its record is valid.
    #[verifier::type_invariant]
    pub open spec fn well_formed(self) -> bool {
        self@.valid()
    }

    /// Opens a stream under `id`: active, with nothing withdrawn. Refuses a
    /// deposit that is not positive with `InvalidAmount`, and otherwise a
    /// window that does not end after it starts with `InvalidWindow`.
    pub fn open(
        id: u64,
        sender: Identity,
        receiver: Identity,
        token: Identity,
        deposit: i128,
        start_time: u64,
        end_time: u64,
    ) -> (opened: Result<Stream, StreamError>)
        ensures
            match terms_refusal(deposit, start_time, end_time) {
                Some(cause) => opened == Err::<Stream, StreamError>(cause),
                None => opened is Ok && opened->Ok_0@ == (StreamRecord {
                    id,
                    sender,
                    receiver,
                    token,
                    deposit,
                    start_time,
                    end_time,
                    withdrawn: 0,
                    status: StreamStatus::Active,
                }),
            },
    {
        if deposit <= 0 {
            return Err(StreamError::InvalidAmount);
        }
        if end_time <= start_time {
            return Err(StreamError::InvalidWindow);
        }
        Ok(
            Stream {
                record: StreamRecord {
                    id,
                    sender,
                    receiver,
                    token,
                    deposit,
                    start_time,
                    end_time,
                    withdrawn: 0,
                    status: StreamStatus::Active,
                },
            },
        )
    }

    /// Takes a record that was stored elsewhere back in, if it is valid.
    pub fn restore(record: StreamRecord) -> (restored: Option<Stream>)
        ensures
            record.valid() ==> restored is Some && restored->Some_0@ == record,
            !record.valid() ==> restored is None,
    {
        if record.is_valid() {
            Some(Stream { record })
        } else {
            None
        }
    }

    /// The record as plain data.
    pub fn record(&self) -> (record: StreamRecord)
        ensures
            record == self@,
            record.valid(),
    {
        proof {
            use_type_invariant(self);
        }
        self.record
    }

    /// The part of the deposit that has vested at `now`.
    pub fn vested(&self, now: u64) -> (amount: i128)
        ensures
            amount == self@.vested(now),
    {
        proof {
            use_type_invariant(self);
        }
        compute_vested(self.record.deposit, self.record.start_time, self.record.end_time, now)
    }

    /// What the receiver has a claim to at `now`, paid or not.
    pub fn released(&self, now: u64) -> (amount: i128)
        ensures
            amount == self@.released(now),
    {
        let vested = self.vested(now);
        if vested > self.record.withdrawn {
            vested
        } else {
            self.record.withdrawn
        }
    }

    /// What a withdrawal at `now` would pay.
    pub fn withdrawable(&self, now: u64) -> (amount: i128)
        ensures
            amount == self@.withdrawable(now),
    {
        proof {
            use_type_invariant(self);
            lemma_amounts_in_range(self@, now);
        }
        self.released(now) - self.record.withdrawn
    }

    /// What a cancellation at `now` would return to the sender.
    pub fn refundable(&self, now: u64) -> (amount: i128)
        ensures
            amount == self@.refundable(now),
    {
        proof {
            use_type_invariant(self);
            lemma_amounts_in_range(self@, now);
        }
        self.record.deposit - self.released(now)
    }

    /// The stream after a withdrawal at `now` was paid. A stream that has
    /// reached a final status stays as it is.
    pub fn after_withdrawal(&self, now: u64) -> (next: Stream)
        ensures
            next@ == self@.after_withdrawal(now),
    {
        proof {
            use_type_invariant(self);
            lemma_amounts_in_range(self@, now);
        }
        match self.record.status {
            StreamStatus::Active => {
                let released = self.released(now);
                let status = if released == self.record.deposit {
                    StreamStatus::FullyWithdrawn
                } else {
                    StreamStatus::Active
                };
                Stream { record: self.record.paid_up(released, status) }
            },
            _ => *self,
        }
    }

    /// The stream after a cancellation at `now` was settled. A stream that
    /// has reached a final status stays as it is.
    pub fn after_cancellation(&self, now: u64) -> (next: Stream)
        ensures
            next@ == self@.after_cancellation(now),
    {
        proof {
            use_type_invariant(self);
            lemma_amounts_in_range(self@, now);
        }
        match self.record.status {
            StreamStatus::Active => {
                let released = self.released(now);
                Stream { record: self.record.paid_up(released, StreamStatus::Cancelled) }
            },
            _ => *self,
        }
    }
}

} // verus!
