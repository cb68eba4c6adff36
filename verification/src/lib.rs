//! A token streaming engine: a sender locks a deposit that is released to a
//! receiver linearly between two instants. The receiver may draw what has
//! vested, the sender may cancel and take back what has not, and one sender
//! may open many streams at once.
//!
//! The engine keeps the books and decides; it holds no value and reads no
//! clock. Whoever embeds it authenticates the caller, reads the time once
//! per operation, and passes both in. Value is moved by a token service that
//! the engine never sees: for every operation a `plan_` function names the
//! transfers that the service has to carry out, together or not at all, and
//! the operation itself takes the service's answer and only then writes to
//! the ledger. A refused operation changes nothing.
//!
//! - [`vesting`]: how much of a deposit has vested at an instant.
//! - [`stream`]: the stream record and its validity.
//! - [`ledger`]: the streams of an engine and its identifier counter.
//! - [`lifecycle`]: opening a stream, withdrawing from it, cancelling it.
//! - [`batch`]: opening many streams as one.
//! - [`accounting`]: the sums over a ledger, and that they conserve funds.
//! - [`laws`]: what holds of every single operation.
//! - [`history`]: what holds after every sequence of operations.

pub mod accounting;
pub mod batch;
pub mod error;
pub mod funds;
pub mod history;
pub mod identity;
pub mod laws;
pub mod ledger;
pub mod lifecycle;
pub mod stream;
pub mod vesting;
