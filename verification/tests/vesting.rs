//! The vesting calculator on chosen instants.

use stellar_stream::identity::Identity;
use stellar_stream::stream::Stream;
use stellar_stream::vesting::compute_vested;

#[test]
fn nothing_has_vested_up_to_the_start() {
    assert_eq!(compute_vested(100, 1000, 1100, 0), 0);
    assert_eq!(compute_vested(100, 1000, 1100, 999), 0);
    assert_eq!(compute_vested(100, 1000, 1100, 1000), 0);
}

#[test]
fn everything_has_vested_from_the_end_on() {
    assert_eq!(compute_vested(100, 1000, 1100, 1100), 100);
    assert_eq!(compute_vested(100, 1000, 1100, 1101), 100);
    assert_eq!(compute_vested(100, 1000, 1100, u64::MAX), 100);
    // No dust is lost at the end, however badly the deposit divides.
    assert_eq!(compute_vested(1001, 0, 7, 7), 1001);
    assert_eq!(compute_vested(1, 0, 3, 3), 1);
}

#[test]
fn the_elapsed_share_has_vested_in_between() {
    assert_eq!(compute_vested(100, 1000, 1100, 1050), 50);
    assert_eq!(compute_vested(100, 1000, 1100, 1001), 1);
    assert_eq!(compute_vested(100, 1000, 1100, 1099), 99);
    assert_eq!(compute_vested(1000, 0, 1000, 250), 250);
}

#[test]
fn shares_are_rounded_down() {
    assert_eq!(compute_vested(1000, 0, 300, 100), 333);
    assert_eq!(compute_vested(1000, 0, 300, 200), 666);
    assert_eq!(compute_vested(1000, 0, 300, 299), 996);
    assert_eq!(compute_vested(1, 0, 3, 1), 0);
    assert_eq!(compute_vested(1, 0, 3, 2), 0);
    assert_eq!(compute_vested(2, 0, 3, 2), 1);
    assert_eq!(compute_vested(10, 5, 8, 6), 3);
    assert_eq!(compute_vested(10, 5, 8, 7), 6);
}

#[test]
fn amounts_beyond_sixty_four_bits_are_exact() {
    let deposit = i128::MAX;
    let end = u64::MAX;
    assert_eq!(compute_vested(deposit, 0, end, 0), 0);
    assert_eq!(compute_vested(deposit, 0, end, 1), 9223372036854775808);
    assert_eq!(
        compute_vested(deposit, 0, end, 1 << 63),
        85070591730234615870455337876369440767
    );
    assert_eq!(
        compute_vested(deposit, 0, end, end - 1),
        170141183460469231722463931679029329918
    );
    assert_eq!(compute_vested(deposit, 0, end, end), deposit);
    assert_eq!(
        compute_vested(
            1_000_000_000_000_000_000_000_000_000_000,
            1,
            98765432109876544,
            12345678901234568
        ),
        124999998860937491268769529811
    );
}

#[test]
fn vesting_never_runs_backwards() {
    let mut last = 0;
    for now in 0..=40u64 {
        let amount = compute_vested(1000, 7, 30, now);
        assert!(amount >= last);
        assert!(amount <= 1000);
        last = amount;
    }
    assert_eq!(last, 1000);
}

#[test]
fn a_stream_reports_what_it_owes() {
    let sender = Identity::account(0, 1);
    let receiver = Identity::account(0, 2);
    let token = Identity::contract(0, 3);
    let stream = Stream::open(9, sender, receiver, token, 1000, 0, 300).unwrap();
    assert_eq!(stream.vested(100), 333);
    assert_eq!(stream.released(100), 333);
    assert_eq!(stream.withdrawable(100), 333);
    assert_eq!(stream.refundable(100), 667);

    let paid = stream.after_withdrawal(100);
    assert_eq!(paid.record().withdrawn, 333);
    assert_eq!(paid.vested(200), 666);
    assert_eq!(paid.withdrawable(200), 333);
    assert_eq!(paid.refundable(200), 334);
    // Before the instant of the last payment nothing is owed, and what was
    // paid still counts as released.
    assert_eq!(paid.vested(50), 166);
    assert_eq!(paid.released(50), 333);
    assert_eq!(paid.withdrawable(50), 0);
    assert_eq!(paid.refundable(50), 667);
}
