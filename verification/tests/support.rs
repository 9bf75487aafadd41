use clawcombat::support::{support_update, SupportSituation, SupportStatus, SupporterActivity};

fn base() -> SupportSituation {
    SupportSituation {
        frame: 5000,
        assigned_frame: 4000,
        last_ammo_check_frame: 4000,
        supporter_alive: true,
        on_cooldown: false,
        actual_ammo: 40,
        remaining_ammo: 50,
        ammo_limit: 60,
        requester_alive: true,
        requester_engaged: true,
        activity: SupporterActivity::Suppressing,
        squad_ammo: 100,
    }
}

#[test]
fn a_fallen_supporter_cancels() {
    let u = support_update(&SupportSituation { supporter_alive: false, ..base() });
    assert_eq!(u.status, Some(SupportStatus::Cancelled));
    assert!(u.released && u.cooldown && u.ended && !u.fall_back);
}

#[test]
fn a_resting_supporter_changes_nothing() {
    let u = support_update(&SupportSituation { on_cooldown: true, ..base() });
    assert_eq!(u.status, None);
    assert!(!u.released && !u.ended && !u.ammo_counted);
}

#[test]
fn status_follows_the_supporter() {
    let u = support_update(&base());
    assert_eq!(u.status, Some(SupportStatus::Suppressing));
    assert!(!u.ended && !u.ammo_counted && u.ammo_used.is_none());
    let u = support_update(&SupportSituation { activity: SupporterActivity::Engaging, ..base() });
    assert_eq!(u.status, Some(SupportStatus::Engaged));
    let u = support_update(&SupportSituation { activity: SupporterActivity::Moving, ..base() });
    assert_eq!(u.status, Some(SupportStatus::Moving));
    let u = support_update(&SupportSituation { activity: SupporterActivity::Other, ..base() });
    assert_eq!(u.status, None);
}

#[test]
fn ammunition_is_counted_and_runs_out() {
    let u = support_update(&SupportSituation { frame: 5800, ..base() });
    assert!(u.ammo_counted);
    assert_eq!(u.ammo_used, Some(20));
    let u = support_update(&SupportSituation { remaining_ammo: 0, ..base() });
    assert_eq!(u.status, Some(SupportStatus::Cancelled));
    assert!(u.fall_back && u.cooldown && u.ended);
    let u = support_update(&SupportSituation { squad_ammo: 9, ..base() });
    assert_eq!(u.status, Some(SupportStatus::Cancelled));
    assert!(u.released && u.ended && !u.cooldown);
}

#[test]
fn support_ends() {
    let u = support_update(&SupportSituation { requester_engaged: false, ..base() });
    assert_eq!(u.status, Some(SupportStatus::Completed));
    assert!(u.cooldown && u.ended);
    let u = support_update(&SupportSituation { requester_alive: false, ..base() });
    assert_eq!(u.status, Some(SupportStatus::Completed));
    let u = support_update(&SupportSituation { frame: 7601, ..base() });
    assert_eq!(u.status, Some(SupportStatus::Completed));
    let u = support_update(&SupportSituation { frame: 7600, ..base() });
    assert_eq!(u.status, Some(SupportStatus::Suppressing));
}
