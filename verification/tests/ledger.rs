use usdb_runes::ledger::{greet, LedgerError, UsdbLedger};

#[test]
fn mint_and_burn() {
    let mut l = UsdbLedger::new();
    assert_eq!(l.get_total_supply(), 0);
    assert_eq!(l.mint_usdb(b"alice", 100), 100);
    assert_eq!(l.mint_usdb(b"bob", 50), 150);
    assert_eq!(l.mint_usdb(b"alice", 25), 175);
    assert_eq!(l.get_my_balance(b"alice"), 125);
    assert_eq!(l.get_my_balance(b"bob"), 50);
    assert_eq!(l.get_my_balance(b"carol"), 0);
    assert_eq!(l.burn_usdb(b"alice", 125), Ok(50));
    assert_eq!(l.get_my_balance(b"alice"), 0);
    assert_eq!(l.get_total_supply(), 50);
}

#[test]
fn refused_burns_change_nothing() {
    let mut l = UsdbLedger::new();
    l.mint_usdb(b"alice", 10);
    assert_eq!(l.burn_usdb(b"alice", 11), Err(LedgerError::InsufficientBalance));
    assert_eq!(l.burn_usdb(b"bob", 0), Err(LedgerError::NoBalance));
    assert_eq!(l.get_my_balance(b"alice"), 10);
    assert_eq!(l.get_total_supply(), 10);
    assert_eq!(LedgerError::InsufficientBalance.message(), "Insufficient USDB balance to burn.");
    assert_eq!(LedgerError::NoBalance.message(), "No USDB balance found for caller.");
}

#[test]
fn burning_what_was_minted_restores() {
    let mut l = UsdbLedger::new();
    l.mint_usdb(b"bob", 7);
    let supply = l.get_total_supply();
    l.mint_usdb(b"alice", 40);
    assert_eq!(l.burn_usdb(b"alice", 40), Ok(supply));
    assert_eq!(l.get_my_balance(b"alice"), 0);
    assert_eq!(l.get_my_balance(b"bob"), 7);
    // A zero balance stays listed, so burning zero succeeds.
    assert_eq!(l.burn_usdb(b"alice", 0), Ok(supply));
}

#[test]
fn greeting() {
    assert_eq!(greet("ICP"), "Hello, ICP!");
    assert_eq!(greet(""), "Hello, !");
}
