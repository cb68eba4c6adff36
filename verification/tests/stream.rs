//! Stream records: which are valid, and how they change.

use stellar_stream::error::StreamError;
use stellar_stream::identity::Identity;
use stellar_stream::stream::{Stream, StreamRecord, StreamStatus};

fn record(deposit: i128, withdrawn: i128, status: StreamStatus) -> StreamRecord {
    StreamRecord {
        id: 4,
        sender: Identity::account(0, 1),
        receiver: Identity::account(0, 2),
        token: Identity::contract(0, 3),
        deposit,
        start_time: 10,
        end_time: 20,
        withdrawn,
        status,
    }
}

#[test]
fn open_gives_an_active_stream_with_nothing_withdrawn() {
    let sender = Identity::account(0, 1);
    let receiver = Identity::account(0, 2);
    let token = Identity::contract(0, 3);
    let stream = Stream::open(4, sender, receiver, token, 100, 10, 20).unwrap();
    assert_eq!(stream.record(), record(100, 0, StreamStatus::Active));
}

#[test]
fn open_refuses_an_amount_that_is_not_positive() {
    let who = Identity::account(0, 1);
    assert_eq!(Stream::open(1, who, who, who, 0, 10, 20).err(), Some(StreamError::InvalidAmount));
    assert_eq!(Stream::open(1, who, who, who, -1, 10, 20).err(), Some(StreamError::InvalidAmount));
    assert_eq!(
        Stream::open(1, who, who, who, i128::MIN, 10, 20).err(),
        Some(StreamError::InvalidAmount)
    );
    // The amount is looked at before the window.
    assert_eq!(Stream::open(1, who, who, who, 0, 20, 10).err(), Some(StreamError::InvalidAmount));
}

#[test]
fn open_refuses_a_window_that_does_not_end_after_it_starts() {
    let who = Identity::account(0, 1);
    assert_eq!(Stream::open(1, who, who, who, 5, 10, 10).err(), Some(StreamError::InvalidWindow));
    assert_eq!(Stream::open(1, who, who, who, 5, 11, 10).err(), Some(StreamError::InvalidWindow));
    assert_eq!(Stream::open(1, who, who, who, 5, 0, 0).err(), Some(StreamError::InvalidWindow));
    assert!(Stream::open(1, who, who, who, 5, 10, 11).is_ok());
    assert!(Stream::open(1, who, who, who, 5, 0, u64::MAX).is_ok());
}

#[test]
fn restore_takes_valid_records_only() {
    for valid in [
        record(100, 0, StreamStatus::Active),
        record(100, 99, StreamStatus::Active),
        record(100, 100, StreamStatus::FullyWithdrawn),
        record(100, 0, StreamStatus::Cancelled),
        record(100, 40, StreamStatus::Cancelled),
        record(100, 100, StreamStatus::Cancelled),
    ] {
        assert!(valid.is_valid());
        assert_eq!(Stream::restore(valid).map(|stream| stream.record()), Some(valid));
    }
    for invalid in [
        record(0, 0, StreamStatus::Active),
        record(-3, -3, StreamStatus::Cancelled),
        record(100, -1, StreamStatus::Active),
        record(100, 101, StreamStatus::Cancelled),
        record(100, 100, StreamStatus::Active),
        record(100, 99, StreamStatus::FullyWithdrawn),
    ] {
        assert!(!invalid.is_valid());
        assert!(Stream::restore(invalid).is_none());
    }
    let mut backwards = record(100, 0, StreamStatus::Active);
    backwards.end_time = backwards.start_time;
    assert!(Stream::restore(backwards).is_none());
}

#[test]
fn withdrawal_moves_the_paid_amount_and_nothing_else() {
    let stream = Stream::restore(record(100, 20, StreamStatus::Active)).unwrap();
    assert_eq!(stream.after_withdrawal(15).record(), record(100, 50, StreamStatus::Active));
    assert_eq!(stream.after_withdrawal(11).record(), record(100, 20, StreamStatus::Active));
    assert_eq!(stream.after_withdrawal(5).record(), record(100, 20, StreamStatus::Active));
    assert_eq!(
        stream.after_withdrawal(20).record(),
        record(100, 100, StreamStatus::FullyWithdrawn)
    );
    assert_eq!(
        stream.after_withdrawal(25).record(),
        record(100, 100, StreamStatus::FullyWithdrawn)
    );
}

#[test]
fn cancellation_fixes_what_the_receiver_got() {
    let stream = Stream::restore(record(100, 20, StreamStatus::Active)).unwrap();
    assert_eq!(stream.after_cancellation(15).record(), record(100, 50, StreamStatus::Cancelled));
    assert_eq!(stream.after_cancellation(5).record(), record(100, 20, StreamStatus::Cancelled));
    assert_eq!(stream.after_cancellation(30).record(), record(100, 100, StreamStatus::Cancelled));
    for now in 0..30u64 {
        assert_eq!(stream.withdrawable(now) + stream.refundable(now), 80);
    }
}

#[test]
fn final_records_stay_as_they_are() {
    for closed in [
        record(100, 100, StreamStatus::FullyWithdrawn),
        record(100, 40, StreamStatus::Cancelled),
        record(100, 0, StreamStatus::Cancelled),
    ] {
        let stream = Stream::restore(closed).unwrap();
        for now in [0u64, 12, 15, 20, 99] {
            assert_eq!(stream.after_withdrawal(now).record(), closed);
            assert_eq!(stream.after_cancellation(now).record(), closed);
        }
    }
}

#[test]
fn identities_are_told_apart_by_kind_and_name() {
    let account = Identity::account(1, 2);
    assert!(account.is(&Identity::account(1, 2)));
    assert!(!account.is(&Identity::contract(1, 2)));
    assert!(!account.is(&Identity::account(2, 1)));
    assert!(!account.is(&Identity::account(1, 3)));
    assert_eq!(Identity::contract(1, 2), Identity::contract(1, 2));
}
