//! The batch coordinator: one sender opens many streams at once, funded by
//! a single transfer, and either all of them are opened or none.

use vstd::prelude::*;
use crate::error::StreamError;
use crate::funds::{refusal_of, Transfer, TransferOutcome};
use crate::identity::Identity;
use crate::lifecycle::{funding_transfer, opened, StreamEngine};
use crate::stream::{Stream, StreamRecord, terms_refusal};

verus! {

/// One stream of a batch: who receives it, how much, and over which window.
/// Sender and token are those of the batch.
#[derive(Clone, Copy, Debug, PartialEq, Eq, Structural)]
pub struct StreamRequest {
    pub receiver: Identity,
    pub amount: i128,
    pub start_time: u64,
    pub end_time: u64,
}

impl StreamRequest {
    /// Why this request could not be opened as a stream, if it could not.
    pub open spec fn refusal(self) -> Option<StreamError> {
        terms_refusal(self.amount, self.start_time, self.end_time)
    }
}

/// The refusal of the first request that has one, if any has.
pub open spec fn first_refusal(requests: Seq<StreamRequest>) -> Option<StreamError>
    decreases requests.len(),
{
    if requests.len() == 0 {
        None
    } else if requests[0].refusal() is Some {
        requests[0].refusal()
    } else {
        first_refusal(requests.drop_first())
    }
}

/// The sum of the amounts of `requests`.
pub open spec fn batch_total(requests: Seq<StreamRequest>) -> int
    decreases requests.len(),
{
    if requests.len() == 0 {
        0
    } else {
        batch_total(requests.drop_last()) + requests.last().amount
    }
}

/// Whether a stream is recorded under one of the `count` identifiers that
/// follow `last_issued`.
pub open spec fn batch_ids_taken(streams: Map<u64, StreamRecord>, last_issued: u64, count: nat) -> bool {
    exists|id: u64| last_issued < id <= last_issued + count && #[trigger] streams.contains_key(id)
}

/// The identifiers that a batch of `count` streams gets: the `count` that
/// follow `last_issued`, in ascending order.
pub open spec fn batch_ids(last_issued: u64, count: nat) -> Seq<u64> {
    Seq::new(count, |i: int| (last_issued + 1 + i) as u64)
}

/// The record that the batch opens under `id`: the request in the place
/// that `id` has among the identifiers of the batch.
pub open spec fn batch_record(
    last_issued: u64,
    sender: Identity,
    token: Identity,
    requests: Seq<StreamRequest>,
    id: u64,
) -> StreamRecord {
    let request = requests[id - last_issued - 1];
    opened(id, sender, request.receiver, token, request.amount, request.start_time, request.end_time)
}

/// The streams of a ledger after a batch was opened in it: those it had,
/// and one for each request under the identifiers that follow
/// `last_issued`, in the order of the requests.
pub open spec fn with_batch(
    streams: Map<u64, StreamRecord>,
    last_issued: u64,
    sender: Identity,
    token: Identity,
    requests: Seq<StreamRequest>,
) -> Map<u64, StreamRecord> {
    Map::new(
        |id: u64| streams.contains_key(id) || last_issued < id <= last_issued + requests.len(),
        |id: u64|
            if last_issued < id <= last_issued + requests.len() {
                batch_record(last_issued, sender, token, requests, id)
            } else {
                streams[id]
            },
    )
}

/// Why a batch is refused before any transfer is asked for, if it is: the
/// first malformed request decides, then the caller, who has to be the
/// sender, then that the identifiers of the batch are free, then that the
/// total is an amount that a transfer can carry at all.
pub open spec fn batch_refusal(
    streams: Map<u64, StreamRecord>,
    last_issued: u64,
    caller: Identity,
    sender: Identity,
    requests: Seq<StreamRequest>,
) -> Option<StreamError> {
    if first_refusal(requests) is Some {
        first_refusal(requests)
    } else if caller != sender {
        Some(StreamError::Unauthorized)
    } else if batch_ids_taken(streams, last_issued, requests.len()) {
        Some(StreamError::DuplicateId)
    } else if batch_total(requests) > i128::MAX {
        Some(StreamError::InsufficientFunds)
    } else {
        None
    }
}

/// What a batch asks of the token service: nothing where it is refused or
/// empty, and else the one transfer of its total from the sender into
/// custody.
pub open spec fn batch_plan(
    streams: Map<u64, StreamRecord>,
    last_issued: u64,
    custodian: Identity,
    caller: Identity,
    sender: Identity,
    token: Identity,
    requests: Seq<StreamRequest>,
) -> Result<Option<Transfer>, StreamError> {
    match batch_refusal(streams, last_issued, caller, sender, requests) {
        Some(cause) => Err(cause),
        None => Ok(
            if requests.len() == 0 {
                None
            } else {
                Some(funding_transfer(custodian, sender, token, batch_total(requests) as i128))
            },
        ),
    }
}

/// What a batch returns: the refusal, if it is refused or its funding
/// transfer failed, and else the identifiers of its streams in the order
/// of the requests.
pub open spec fn batch_result(
    streams: Map<u64, StreamRecord>,
    last_issued: u64,
    caller: Identity,
    sender: Identity,
    requests: Seq<StreamRequest>,
    funding: TransferOutcome,
) -> Result<Seq<u64>, StreamError> {
    match batch_refusal(streams, last_issued, caller, sender, requests) {
        Some(cause) => Err(cause),
        None => if requests.len() == 0 {
            Ok(Seq::empty())
        } else {
            match refusal_of(funding) {
                Some(cause) => Err(cause),
                None => Ok(batch_ids(last_issued, requests.len())),
            }
        },
    }
}

/// The streams after a batch: as before, unless it succeeded.
pub open spec fn streams_after_batch(
    streams: Map<u64, StreamRecord>,
    last_issued: u64,
    caller: Identity,
    sender: Identity,
    token: Identity,
    requests: Seq<StreamRequest>,
    funding: TransferOutcome,
) -> Map<u64, StreamRecord> {
    match batch_result(streams, last_issued, caller, sender, requests, funding) {
        Ok(_) => with_batch(streams, last_issued, sender, token, requests),
        Err(_) => streams,
    }
}

/// A batch without malformed requests has none in any of its prefixes, and
/// each of its requests has a positive amount and a proper window.
pub proof fn lemma_first_refusal_none(requests: Seq<StreamRequest>, i: int)
    requires
        first_refusal(requests) is None,
        0 <= i < requests.len(),
    ensures
        requests[i].refusal() is None,
    decreases requests.len(),
{
    if i > 0 {
        lemma_first_refusal_none(requests.drop_first(), i - 1);
    }
}

/// A batch is found malformed only for an amount or for a window.
pub proof fn lemma_first_refusal_causes(requests: Seq<StreamRequest>)
    ensures
        first_refusal(requests) is None || first_refusal(requests) == Some(
            StreamError::InvalidAmount,
        ) || first_refusal(requests) == Some(StreamError::InvalidWindow),
    decreases requests.len(),
{
    if requests.len() > 0 {
        lemma_first_refusal_causes(requests.drop_first());
    }
}

/// Where the requests before `i` are well-formed, the first refusal of the
/// batch is the first refusal from `i` on.
proof fn lemma_first_refusal_skips(requests: Seq<StreamRequest>, i: int)
    requires
        0 <= i <= requests.len(),
        forall|j: int| 0 <= j < i ==> (#[trigger] requests[j]).refusal() is None,
    ensures
        first_refusal(requests) == first_refusal(requests.skip(i)),
    decreases i,
{
    if i == 0 {
        assert(requests.skip(0) =~= requests);
    } else {
        assert(requests[0].refusal() is None);
        let rest = requests.drop_first();
        assert forall|j: int| 0 <= j < i - 1 implies (#[trigger] rest[j]).refusal() is None by {
            assert(rest[j] == requests[j + 1]);
        }
        lemma_first_refusal_skips(rest, i - 1);
        assert(rest.skip(i - 1) =~= requests.skip(i));
    }
}

/// The total of well-formed requests grows with every request: the total
/// of a prefix is at most the total of the whole, and never negative.
pub proof fn lemma_batch_total_grows(requests: Seq<StreamRequest>, i: int)
    requires
        0 <= i <= requests.len(),
        forall|j: int| 0 <= j < requests.len() ==> (#[trigger] requests[j]).amount > 0,
    ensures
        0 <= batch_total(requests.take(i)) <= batch_total(requests),
        i < requests.len() ==> batch_total(requests.take(i)) < batch_total(requests),
        requests.len() > 0 ==> batch_total(requests) > 0,
    decreases requests.len() - i,
{
    if i == requests.len() {
        assert(requests.take(i) =~= requests);
        lemma_batch_total_nonnegative(requests);
    } else {
        lemma_batch_total_grows(requests, i + 1);
        let longer = requests.take(i + 1);
        assert(longer.drop_last() =~= requests.take(i));
        assert(longer.last() == requests[i]);
        lemma_batch_total_nonnegative(requests.take(i));
    }
}

/// The total of requests with positive amounts is not negative.
proof fn lemma_batch_total_nonnegative(requests: Seq<StreamRequest>)
    requires
        forall|j: int| 0 <= j < requests.len() ==> (#[trigger] requests[j]).amount > 0,
    ensures
        0 <= batch_total(requests),
        requests.len() > 0 ==> 0 < batch_total(requests),
    decreases requests.len(),
{
    if requests.len() > 0 {
        lemma_batch_total_nonnegative(requests.drop_last());
    }
}

impl StreamEngine {
    /// Decides whether `caller` may open the streams of `requests`, all
    /// from `sender` and in `token`, and names the one transfer that funds
    /// them: their total, from the sender into custody. An empty batch is
    /// admissible and asks for no transfer.
    #[verifier::loop_isolation(false)]
    pub fn plan_create_batch_streams(
        &self,
        caller: Identity,
        sender: Identity,
        token: Identity,
        requests: &Vec<StreamRequest>,
    ) -> (plan: Result<Option<Transfer>, StreamError>)
        requires
            self.ledger.last_issued() + requests.len() <= u64::MAX,
        ensures
            plan == batch_plan(
                self.ledger@,
                self.ledger.last_issued(),
                self.custodian,
                caller,
                sender,
                token,
                requests@,
            ),
    {
        let count = requests.len();
        let mut i: usize = 0;
        while i < count
            invariant
                count == requests.len(),
                0 <= i <= count,
                forall|j: int| 0 <= j < i ==> (#[trigger] requests@[j]).refusal() is None,
            decreases count - i,
        {
            let request = requests[i];
            if request.amount <= 0 || request.end_time <= request.start_time {
                proof {
                    lemma_first_refusal_skips(requests@, i as int);
                    assert(requests@.skip(i as int)[0] == requests@[i as int]);
                }
                if request.amount <= 0 {
                    return Err(StreamError::InvalidAmount);
                }
                return Err(StreamError::InvalidWindow);
            }
            i = i + 1;
        }
        proof {
            lemma_first_refusal_skips(requests@, count as int);
            assert(requests@.skip(count as int).len() == 0);
            assert(first_refusal(requests@) is None);
        }
        if !caller.is(&sender) {
            return Err(StreamError::Unauthorized);
        }
        let last = self.ledger.issued();
        let mut k: usize = 0;
        while k < count
            invariant
                count == requests.len(),
                0 <= k <= count,
                last == self.ledger.last_issued(),
                last + count <= u64::MAX,
                !batch_ids_taken(self.ledger@, last, k as nat),
            decreases count - k,
        {
            let id = last + 1 + k as u64;
            if self.ledger.contains(id) {
                assert(batch_ids_taken(self.ledger@, last, count as nat));
                return Err(StreamError::DuplicateId);
            }
            k = k + 1;
        }
        let mut total: i128 = 0;
        let mut n: usize = 0;
        while n < count
            invariant
                count == requests.len(),
                0 <= n <= count,
                total == batch_total(requests@.take(n as int)),
            decreases count - n,
        {
            proof {
                lemma_batch_total_grows(requests@, n as int);
                lemma_batch_total_grows(requests@, n + 1);
                let longer = requests@.take(n + 1);
                assert(longer.drop_last() =~= requests@.take(n as int));
                assert(longer.last() == requests@[n as int]);
            }
            match total.checked_add(requests[n].amount) {
                Some(sum) => {
                    total = sum;
                },
                None => {
                    return Err(StreamError::InsufficientFunds);
                },
            }
            n = n + 1;
        }
        proof {
            assert(requests@.take(count as int) =~= requests@);
        }
        if count == 0 {
            Ok(None)
        } else {
            Ok(Some(Transfer { token, from: sender, to: self.custodian, amount: total }))
        }
    }

    /// Opens one stream for each of `requests`, all from `sender` and in
    /// `token`, given the token service's answer to the transfer that
    /// `plan_create_batch_streams` names for the same arguments. Returns
    /// the identifiers of the new streams in the order of the requests:
    /// the ones that follow the last identifier handed out, ascending and
    /// without gaps. Either every stream of the batch is recorded or, where
    /// the batch is refused or the transfer failed, nothing changes. An
    /// empty batch opens nothing, whatever `funding` says.
    pub fn create_batch_streams(
        &mut self,
        caller: Identity,
        sender: Identity,
        token: Identity,
        requests: &Vec<StreamRequest>,
        funding: TransferOutcome,
    ) -> (created: Result<Vec<u64>, StreamError>)
        requires
            old(self).ledger.last_issued() + requests.len() <= u64::MAX,
        ensures
            final(self).custodian == old(self).custodian,
            match batch_result(
                old(self).ledger@,
                old(self).ledger.last_issued(),
                caller,
                sender,
                requests@,
                funding,
            ) {
                Ok(ids) => created is Ok && created->Ok_0@ == ids && final(self).ledger.last_issued()
                    == old(self).ledger.last_issued() + requests.len(),
                Err(cause) => created == Err::<Vec<u64>, StreamError>(cause) && final(self).ledger.last_issued() == old(self).ledger.last_issued(),
            },
            final(self).ledger@ == streams_after_batch(
                old(self).ledger@,
                old(self).ledger.last_issued(),
                caller,
                sender,
                token,
                requests@,
                funding,
            ),
    {
        let ghost before = self.ledger@;
        let ghost last = self.ledger.last_issued();
        let mut ids: Vec<u64> = Vec::new();
        match self.plan_create_batch_streams(caller, sender, token, requests) {
            Err(cause) => {
                return Err(cause);
            },
            Ok(None) => {
                proof {
                    assert(ids@ =~= batch_ids(last, 0));
                    assert(before =~= with_batch(before, last, sender, token, requests@));
                }
                return Ok(ids);
            },
            Ok(Some(_)) => {},
        }
        match funding.refusal() {
            Some(cause) => {
                return Err(cause);
            },
            None => {},
        }
        let count = requests.len();
        let mut i: usize = 0;
        while i < count
            invariant
                count == requests.len(),
                0 <= i <= count,
                last + count <= u64::MAX,
                first_refusal(requests@) is None,
                !batch_ids_taken(before, last, count as nat),
                self.custodian == old(self).custodian,
                self.ledger.last_issued() == last + i,
                self.ledger@ == with_batch(before, last, sender, token, requests@.take(i as int)),
                ids@ == batch_ids(last, i as nat),
            decreases count - i,
        {
            let request = requests[i];
            proof {
                lemma_first_refusal_none(requests@, i as int);
            }
            let ghost earlier = self.ledger@;
            let id = self.ledger.issued() + 1;
            assert(!earlier.contains_key(id)) by {
                if before.contains_key(id) {
                    assert(batch_ids_taken(before, last, count as nat));
                }
            }
            // The plan has ruled out every refusal below: none of them is
            // met once the first stream of the batch is recorded.
            let stream = match Stream::open(
                id,
                sender,
                request.receiver,
                token,
                request.amount,
                request.start_time,
                request.end_time,
            ) {
                Err(cause) => {
                    return Err(cause);
                },
                Ok(stream) => stream,
            };
            match self.ledger.insert(stream) {
                Err(cause) => {
                    return Err(cause);
                },
                Ok(()) => {},
            }
            ids.push(self.ledger.next_id());
            proof {
                let shorter = requests@.take(i as int);
                let longer = requests@.take(i + 1);
                assert(longer[i as int] == requests@[i as int]);
                assert forall|other: u64| last < other <= last + i implies batch_record(
                    last,
                    sender,
                    token,
                    shorter,
                    other,
                ) == batch_record(last, sender, token, longer, other) by {
                    assert(shorter[other - last - 1] == longer[other - last - 1]);
                }
                assert(self.ledger@ =~= with_batch(before, last, sender, token, longer));
                assert(ids@ =~= batch_ids(last, (i + 1) as nat));
            }
            i = i + 1;
        }
        proof {
            assert(requests@.take(count as int) =~= requests@);
        }
        Ok(ids)
    }
}

} // verus!
