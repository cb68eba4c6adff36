//! The stream ledger: identifiers and records.

use stellar_stream::error::StreamError;
use stellar_stream::identity::Identity;
use stellar_stream::ledger::StreamLedger;
use stellar_stream::stream::{Stream, StreamStatus};

fn stream(id: u64, deposit: i128) -> Stream {
    let sender = Identity::account(0, 1);
    let receiver = Identity::account(0, 2);
    let token = Identity::contract(0, 3);
    Stream::open(id, sender, receiver, token, deposit, 0, 100).unwrap()
}

#[test]
fn identifiers_start_at_one_and_ascend() {
    let mut ledger = StreamLedger::new();
    assert_eq!(ledger.issued(), 0);
    assert_eq!(ledger.next_id(), 1);
    assert_eq!(ledger.next_id(), 2);
    assert_eq!(ledger.next_id(), 3);
    assert_eq!(ledger.issued(), 3);
}

#[test]
fn resumed_ledger_goes_on_where_the_counter_stood() {
    let mut ledger = StreamLedger::resume(41);
    assert_eq!(ledger.issued(), 41);
    assert!(!ledger.contains(41));
    assert_eq!(ledger.next_id(), 42);
    let mut last = StreamLedger::resume(u64::MAX - 1);
    assert_eq!(last.next_id(), u64::MAX);
}

#[test]
fn insert_stores_a_stream_under_its_identifier() {
    let mut ledger = StreamLedger::new();
    assert_eq!(ledger.insert(stream(7, 100)), Ok(()));
    assert!(ledger.contains(7));
    assert!(!ledger.contains(1));
    assert_eq!(ledger.get(7).unwrap().record().deposit, 100);
    assert_eq!(ledger.issued(), 0);
}

#[test]
fn insert_refuses_an_identifier_twice() {
    let mut ledger = StreamLedger::new();
    assert_eq!(ledger.insert(stream(7, 100)), Ok(()));
    assert_eq!(ledger.insert(stream(7, 55)), Err(StreamError::DuplicateId));
    assert_eq!(ledger.get(7).unwrap().record().deposit, 100);
    assert_eq!(ledger.insert(stream(8, 55)), Ok(()));
}

#[test]
fn get_of_an_unknown_identifier_is_not_found() {
    let mut ledger = StreamLedger::new();
    assert_eq!(ledger.get(1).err(), Some(StreamError::StreamNotFound));
    ledger.insert(stream(1, 100)).unwrap();
    assert_eq!(ledger.get(2).err(), Some(StreamError::StreamNotFound));
    assert_eq!(ledger.get(0).err(), Some(StreamError::StreamNotFound));
    assert!(ledger.get(1).is_ok());
}

#[test]
fn update_overwrites_the_stored_record() {
    let mut ledger = StreamLedger::new();
    ledger.insert(stream(1, 100)).unwrap();
    ledger.insert(stream(2, 100)).unwrap();
    let paid = ledger.get(1).unwrap().after_withdrawal(30);
    assert_eq!(ledger.update(1, paid), Ok(()));
    assert_eq!(ledger.get(1).unwrap().record().withdrawn, 30);
    assert_eq!(ledger.get(2).unwrap().record().withdrawn, 0);
    let cancelled = ledger.get(1).unwrap().after_cancellation(50);
    assert_eq!(ledger.update(1, cancelled), Ok(()));
    assert_eq!(ledger.get(1).unwrap().record().status, StreamStatus::Cancelled);
    assert_eq!(ledger.get(1).unwrap().record().withdrawn, 50);
}

#[test]
fn update_of_an_unknown_identifier_is_not_found() {
    let mut ledger = StreamLedger::new();
    assert_eq!(ledger.update(3, stream(3, 100)), Err(StreamError::StreamNotFound));
    assert!(!ledger.contains(3));
}
