use clawcombat::flag::{capture_reaction, captured_by, held_by, next_ownership, update_ownerships, FlagOwnership};
use clawcombat::tally::Side;

#[test]
fn ownership_follows_presence() {
    for o in [FlagOwnership::Nobody, FlagOwnership::A, FlagOwnership::B, FlagOwnership::Both] {
        assert_eq!(next_ownership(o, true, true), FlagOwnership::Both);
        assert_eq!(next_ownership(o, true, false), FlagOwnership::A);
        assert_eq!(next_ownership(o, false, true), FlagOwnership::B);
        assert_eq!(next_ownership(o, false, false), o);
    }
}

#[test]
fn who_holds_a_flag() {
    assert!(held_by(FlagOwnership::Both, Side::A));
    assert!(held_by(FlagOwnership::Both, Side::B));
    assert!(held_by(FlagOwnership::A, Side::A));
    assert!(!held_by(FlagOwnership::A, Side::B));
    assert!(!held_by(FlagOwnership::Nobody, Side::A));
    assert!(!held_by(FlagOwnership::B, Side::All));
}

#[test]
fn captures() {
    assert_eq!(captured_by(FlagOwnership::Nobody, FlagOwnership::A), Some(Side::A));
    assert_eq!(captured_by(FlagOwnership::Both, FlagOwnership::B), Some(Side::B));
    assert_eq!(captured_by(FlagOwnership::A, FlagOwnership::A), None);
    assert_eq!(captured_by(FlagOwnership::A, FlagOwnership::Both), None);
    assert_eq!(capture_reaction(Some(30), 41), (true, false));
    assert_eq!(capture_reaction(Some(31), 40), (false, true));
    assert_eq!(capture_reaction(None, 0), (false, true));
}

#[test]
fn flags_updated_together() {
    let (next, changed) = update_ownerships(
        &vec![FlagOwnership::Nobody, FlagOwnership::A],
        &vec![false, false],
        &vec![false, false],
    );
    assert_eq!(next, vec![FlagOwnership::Nobody, FlagOwnership::A]);
    assert!(!changed);
    let (next, changed) = update_ownerships(
        &vec![FlagOwnership::Nobody, FlagOwnership::A],
        &vec![false, true],
        &vec![true, true],
    );
    assert_eq!(next, vec![FlagOwnership::B, FlagOwnership::Both]);
    assert!(changed);
}
