//! The engine over time: what holds after any sequence of operations,
//! whatever was asked and whatever the token service answered.

use vstd::prelude::*;
use crate::accounting::{
    id_space, lemma_batch_books_the_total, lemma_batch_fills_custody,
    lemma_cancel_books_the_split, lemma_cancel_empties_custody, lemma_create_books_the_deposit,
    lemma_create_fills_custody, lemma_funds_conserved, lemma_withdraw_books_the_payment,
    lemma_withdraw_draws_on_custody, Measure, Scope, total, total_below,
};
use crate::batch::{batch_plan, batch_result, StreamRequest, streams_after_batch};
use crate::funds::{inflow, TransferOutcome};
use crate::identity::Identity;
use crate::laws::{
    all_issued, lemma_batch_continues, lemma_cancel_continues, lemma_create_continues,
    lemma_identifiers_stay_fresh, lemma_withdraw_continues,
};
use crate::ledger::records_valid;
use crate::lifecycle::{
    cancel_plan, create_plan, create_result, streams_after_cancel, streams_after_create,
    streams_after_withdraw, withdraw_plan,
};
use crate::stream::StreamRecord;

verus! {

/// One call of an operation of the engine, with its arguments and with
/// what the token service answered to the transfers it asked for.
pub enum Operation {
    /// A call of `create_stream`.
    Create {
        caller: Identity,
        sender: Identity,
        receiver: Identity,
        token: Identity,
        deposit: i128,
        start_time: u64,
        end_time: u64,
        funding: TransferOutcome,
    },
    /// A call of `withdraw`.
    Withdraw { id: u64, caller: Identity, now: u64, payment: TransferOutcome },
    /// A call of `cancel_stream`.
    Cancel { id: u64, caller: Identity, now: u64, settlement: TransferOutcome },
    /// A call of `create_batch_streams`.
    Batch {
        caller: Identity,
        sender: Identity,
        token: Identity,
        requests: Seq<StreamRequest>,
        funding: TransferOutcome,
    },
}

/// What a ledger holds: its streams and the last identifier it handed out.
pub struct Books {
    pub streams: Map<u64, StreamRecord>,
    pub last_issued: u64,
}

impl Books {
    /// The books of an engine before its first operation.
    pub open spec fn blank() -> Books {
        Books { streams: Map::empty(), last_issued: 0 }
    }

    /// Whether the identifiers that `operation` may hand out exist.
    pub open spec fn admits(self, operation: Operation) -> bool {
        match operation {
            Operation::Create { .. } => self.last_issued < u64::MAX,
            Operation::Batch { requests, .. } => self.last_issued + requests.len() <= u64::MAX,
            _ => true,
        }
    }

    /// The books after `operation`, as the contract of the operation gives
    /// them.
    pub open spec fn after(self, operation: Operation) -> Books {
        match operation {
            Operation::Create {
                caller,
                sender,
                receiver,
                token,
                deposit,
                start_time,
                end_time,
                funding,
            } => Books {
                streams: streams_after_create(
                    self.streams,
                    self.last_issued,
                    caller,
                    sender,
                    receiver,
                    token,
                    deposit,
                    start_time,
                    end_time,
                    funding,
                ),
                last_issued: match create_result(
                    self.streams,
                    self.last_issued,
                    caller,
                    sender,
                    deposit,
                    start_time,
                    end_time,
                    funding,
                ) {
                    Ok(id) => id,
                    Err(_) => self.last_issued,
                },
            },
            Operation::Withdraw { id, caller, now, payment } => Books {
                streams: streams_after_withdraw(self.streams, id, caller, now, payment),
                last_issued: self.last_issued,
            },
            Operation::Cancel { id, caller, now, settlement } => Books {
                streams: streams_after_cancel(self.streams, id, caller, now, settlement),
                last_issued: self.last_issued,
            },
            Operation::Batch { caller, sender, token, requests, funding } => Books {
                streams: streams_after_batch(
                    self.streams,
                    self.last_issued,
                    caller,
                    sender,
                    token,
                    requests,
                    funding,
                ),
                last_issued: match batch_result(
                    self.streams,
                    self.last_issued,
                    caller,
                    sender,
                    requests,
                    funding,
                ) {
                    Ok(_) => (self.last_issued + requests.len()) as u64,
                    Err(_) => self.last_issued,
                },
            },
        }
    }

    /// What `operation` brings into the account that `custodian` has in
    /// `token`: the inflow of the transfers it asks for, where it asks for
    /// any and the token service carried them out.
    pub open spec fn custody_gain(
        self,
        custodian: Identity,
        operation: Operation,
        token: Identity,
    ) -> int {
        match operation {
            Operation::Create {
                caller,
                sender,
                receiver,
                token: streamed,
                deposit,
                start_time,
                end_time,
                funding,
            } => match create_plan(
                self.streams,
                self.last_issued,
                custodian,
                caller,
                sender,
                streamed,
                deposit,
                start_time,
                end_time,
            ) {
                Ok(transfer) if funding == TransferOutcome::Completed => inflow(
                    transfer,
                    custodian,
                    token,
                ),
                _ => 0,
            },
            Operation::Withdraw { id, caller, now, payment } => match withdraw_plan(
                self.streams,
                custodian,
                id,
                caller,
                now,
            ) {
                Ok(Some(transfer)) if payment == TransferOutcome::Completed => inflow(
                    transfer,
                    custodian,
                    token,
                ),
                _ => 0,
            },
            Operation::Cancel { id, caller, now, settlement } => match cancel_plan(
                self.streams,
                custodian,
                id,
                caller,
                now,
            ) {
                Ok((to_receiver, to_sender)) if settlement == TransferOutcome::Completed => inflow(
                    to_receiver,
                    custodian,
                    token,
                ) + inflow(to_sender, custodian, token),
                _ => 0,
            },
            Operation::Batch { caller, sender, token: streamed, requests, funding } => match batch_plan(
                self.streams,
                self.last_issued,
                custodian,
                caller,
                sender,
                streamed,
                requests,
            ) {
                Ok(Some(transfer)) if funding == TransferOutcome::Completed => inflow(
                    transfer,
                    custodian,
                    token,
                ),
                _ => 0,
            },
        }
    }

    /// Whether `custodian` is no party to any stream of these books.
    pub open spec fn at_arms_length(self, custodian: Identity) -> bool {
        forall|id: u64| #[trigger]
            self.streams.contains_key(id) ==> self.streams[id].sender != custodian
                && self.streams[id].receiver != custodian
    }
}

impl Operation {
    /// Whether `custodian` is no party to any stream that this operation
    /// would open.
    pub open spec fn at_arms_length(self, custodian: Identity) -> bool {
        match self {
            Operation::Create { sender, receiver, .. } => sender != custodian && receiver
                != custodian,
            Operation::Batch { sender, requests, .. } => sender != custodian && forall|i: int|
                0 <= i < requests.len() ==> (#[trigger] requests[i]).receiver != custodian,
            _ => true,
        }
    }
}

/// The books after the operations of `history`, one after the other, on an
/// engine that started blank.
pub open spec fn books_after(history: Seq<Operation>) -> Books
    decreases history.len(),
{
    if history.len() == 0 {
        Books::blank()
    } else {
        books_after(history.drop_last()).after(history.last())
    }
}

/// Whether every operation of `history` could be called when its turn
/// came: the identifiers it might hand out existed.
pub open spec fn possible(history: Seq<Operation>) -> bool
    decreases history.len(),
{
    history.len() == 0 || (possible(history.drop_last()) && books_after(
        history.drop_last(),
    ).admits(history.last()))
}

/// What the operations of `history` together brought into the account
/// that `custodian` has in `token`.
pub open spec fn custody_after(custodian: Identity, history: Seq<Operation>, token: Identity) -> int
    decreases history.len(),
{
    if history.len() == 0 {
        0
    } else {
        custody_after(custodian, history.drop_last(), token) + books_after(
            history.drop_last(),
        ).custody_gain(custodian, history.last(), token)
    }
}

/// Whether `custodian` is no party to any stream that an operation of
/// `history` would open.
pub open spec fn at_arms_length(custodian: Identity, history: Seq<Operation>) -> bool {
    forall|i: int| 0 <= i < history.len() ==> (#[trigger] history[i]).at_arms_length(custodian)
}

/// One operation keeps the books in order: every record stays valid, and
/// streams are kept only under identifiers that were handed out.
pub proof fn lemma_operation_keeps_order(books: Books, operation: Operation)
    requires
        records_valid(books.streams),
        all_issued(books.streams, books.last_issued),
        books.admits(operation),
    ensures
        records_valid(books.after(operation).streams),
        all_issued(books.after(operation).streams, books.after(operation).last_issued),
        books.last_issued <= books.after(operation).last_issued,
{
    match operation {
        Operation::Create {
            caller,
            sender,
            receiver,
            token,
            deposit,
            start_time,
            end_time,
            funding,
        } => {
            lemma_create_continues(
                books.streams,
                books.last_issued,
                caller,
                sender,
                receiver,
                token,
                deposit,
                start_time,
                end_time,
                funding,
            );
            lemma_identifiers_stay_fresh(
                books.streams,
                books.last_issued,
                caller,
                sender,
                receiver,
                token,
                deposit,
                start_time,
                end_time,
                Seq::empty(),
                funding,
            );
        },
        Operation::Withdraw { id, caller, now, payment } => {
            lemma_withdraw_continues(books.streams, id, caller, now, payment);
        },
        Operation::Cancel { id, caller, now, settlement } => {
            lemma_cancel_continues(books.streams, id, caller, now, settlement);
        },
        Operation::Batch { caller, sender, token, requests, funding } => {
            lemma_batch_continues(
                books.streams,
                books.last_issued,
                caller,
                sender,
                token,
                requests,
                funding,
            );
            if requests.len() > 0 {
                lemma_identifiers_stay_fresh(
                    books.streams,
                    books.last_issued,
                    caller,
                    sender,
                    sender,
                    token,
                    1,
                    0,
                    1,
                    requests,
                    funding,
                );
            }
        },
    }
}

/// After any sequence of operations the books are in order: every record
/// is valid, streams are kept only under identifiers that were handed out,
/// and funds are conserved. What is still held for streams that are not
/// final, what was paid to receivers and what was returned to senders add
/// up to everything that was ever deposited, for each token and for all.
pub proof fn lemma_history_keeps_the_books(history: Seq<Operation>, scope: Scope)
    requires
        possible(history),
    ensures
        records_valid(books_after(history).streams),
        all_issued(books_after(history).streams, books_after(history).last_issued),
        total(books_after(history).streams, scope, Measure::Held) + total(
            books_after(history).streams,
            scope,
            Measure::Paid,
        ) + total(books_after(history).streams, scope, Measure::Refunded) == total(
            books_after(history).streams,
            scope,
            Measure::Deposited,
        ),
    decreases history.len(),
{
    if history.len() > 0 {
        lemma_history_keeps_the_books(history.drop_last(), scope);
        lemma_operation_keeps_order(books_after(history.drop_last()), history.last());
    }
    lemma_funds_conserved(books_after(history).streams, scope);
}

/// One operation moves in custody what it moves in the books: where the
/// custodial account is no party to a stream, what the operation brings
/// into custody is what the books then hold more.
pub proof fn lemma_operation_moves_custody_with_the_books(
    books: Books,
    custodian: Identity,
    operation: Operation,
    token: Identity,
)
    requires
        records_valid(books.streams),
        books.admits(operation),
        books.at_arms_length(custodian),
        operation.at_arms_length(custodian),
    ensures
        books.after(operation).at_arms_length(custodian),
        total(books.after(operation).streams, Scope::Token(token), Measure::Held) == total(
            books.streams,
            Scope::Token(token),
            Measure::Held,
        ) + books.custody_gain(custodian, operation, token),
{
    let scope = Scope::Token(token);
    match operation {
        Operation::Create {
            caller,
            sender,
            receiver,
            token: streamed,
            deposit,
            start_time,
            end_time,
            funding,
        } => {
            lemma_create_fills_custody(
                books.streams,
                books.last_issued,
                custodian,
                caller,
                sender,
                receiver,
                streamed,
                deposit,
                start_time,
                end_time,
                token,
            );
            lemma_create_books_the_deposit(
                books.streams,
                books.last_issued,
                caller,
                sender,
                receiver,
                streamed,
                deposit,
                start_time,
                end_time,
                funding,
                scope,
            );
        },
        Operation::Withdraw { id, caller, now, payment } => {
            lemma_withdraw_draws_on_custody(books.streams, custodian, id, caller, now, token);
            lemma_withdraw_books_the_payment(books.streams, id, caller, now, payment, scope);
        },
        Operation::Cancel { id, caller, now, settlement } => {
            lemma_cancel_empties_custody(books.streams, custodian, id, caller, now, token);
            lemma_cancel_books_the_split(books.streams, id, caller, now, settlement, scope);
        },
        Operation::Batch { caller, sender, token: streamed, requests, funding } => {
            lemma_batch_fills_custody(
                books.streams,
                books.last_issued,
                custodian,
                caller,
                sender,
                streamed,
                requests,
                token,
            );
            lemma_batch_books_the_total(
                books.streams,
                books.last_issued,
                caller,
                sender,
                streamed,
                requests,
                funding,
                scope,
            );
            let after = books.after(operation).streams;
            assert forall|id: u64| #[trigger] after.contains_key(id) implies after[id].sender
                != custodian && after[id].receiver != custodian by {
                if batch_result(
                    books.streams,
                    books.last_issued,
                    caller,
                    sender,
                    requests,
                    funding,
                ) is Ok && books.last_issued < id <= books.last_issued + requests.len() {
                    assert(requests[id - books.last_issued - 1].receiver != custodian);
                } else {
                    assert(books.streams.contains_key(id));
                }
            }
        },
    }
}

/// Custody matches the books. After any sequence of operations in which
/// the custodial account is no party to a stream, the transfers that the
/// token service carried out for the engine have brought into custody
/// exactly what the books hold for the streams that are not final: no unit
/// is missing from custody and none lies there unaccounted for.
pub proof fn lemma_custody_matches_the_books(
    custodian: Identity,
    history: Seq<Operation>,
    token: Identity,
)
    requires
        possible(history),
        at_arms_length(custodian, history),
    ensures
        books_after(history).at_arms_length(custodian),
        custody_after(custodian, history, token) == total(
            books_after(history).streams,
            Scope::Token(token),
            Measure::Held,
        ),
    decreases history.len(),
{
    if history.len() == 0 {
        lemma_nothing_held_in_blank_books(Scope::Token(token));
    } else {
        let earlier = history.drop_last();
        assert forall|i: int| 0 <= i < earlier.len() implies (#[trigger] earlier[i]).at_arms_length(
            custodian,
        ) by {
            assert(earlier[i] == history[i]);
        }
        assert(history.last() == history[history.len() - 1]);
        lemma_custody_matches_the_books(custodian, earlier, token);
        lemma_history_keeps_the_books(earlier, Scope::Token(token));
        lemma_operation_moves_custody_with_the_books(
            books_after(earlier),
            custodian,
            history.last(),
            token,
        );
    }
}

/// Books without streams hold nothing.
proof fn lemma_nothing_held_in_blank_books(scope: Scope)
    ensures
        total(Books::blank().streams, scope, Measure::Held) == 0,
{
    lemma_nothing_held_below(scope, id_space());
}

proof fn lemma_nothing_held_below(scope: Scope, bound: nat)
    ensures
        total_below(Map::empty(), scope, Measure::Held, bound) == 0,
    decreases bound,
{
    if bound > 0 {
        lemma_nothing_held_below(scope, (bound - 1) as nat);
    }
}

} // verus!
