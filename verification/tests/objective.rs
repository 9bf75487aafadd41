use clawcombat::objective::{
    flag_considered, flag_risk, guarded, nearest_flag, objective, weakest_flag,
};

#[test]
fn how_threatened_a_flag_is() {
    assert_eq!(flag_risk(&vec![40, 41, 3], Some(true), &vec![]), 1000);
    assert_eq!(flag_risk(&vec![40, 41, 3], Some(false), &vec![]), 200);
    assert_eq!(flag_risk(&vec![40, 3], None, &vec![]), 0);
    assert_eq!(flag_risk(&vec![5], Some(false), &vec![40, 100]), 2100);
    assert_eq!(flag_risk(&vec![], Some(true), &vec![]), 0);
}

#[test]
fn which_flags_are_weighed() {
    assert!(!flag_considered(61, 2, 2, true));
    assert!(flag_considered(60, 2, 2, true));
    assert!(flag_considered(61, 1, 2, true));
    assert!(flag_considered(61, 0, 0, true));
    assert!(!flag_considered(201, 0, 0, false));
    assert!(flag_considered(201, 0, 0, true));
    assert!(flag_considered(200, 0, 0, false));
}

#[test]
fn the_least_threatened_flag() {
    assert_eq!(weakest_flag(&vec![None, Some(300), Some(100), Some(100)]), Some(2));
    assert_eq!(weakest_flag(&vec![Some(0), Some(0)]), Some(0));
    assert_eq!(weakest_flag(&vec![None, None]), None);
    assert_eq!(weakest_flag(&vec![]), None);
}

#[test]
fn which_flag_the_leader_goes_for() {
    assert_eq!(objective(Some(0), true, Some(2), false), Some(2));
    assert_eq!(objective(Some(0), true, Some(2), true), Some(0));
    assert_eq!(objective(Some(0), false, Some(2), false), Some(0));
    assert_eq!(objective(None, true, None, false), None);
}

#[test]
fn the_nearest_flag_not_held() {
    assert_eq!(nearest_flag(&vec![None, Some(30), Some(12), Some(12)]), Some(2));
    assert_eq!(nearest_flag(&vec![None, None]), None);
    assert_eq!(nearest_flag(&vec![Some(i64::MAX)]), None);
    assert_eq!(nearest_flag(&vec![]), None);
}

#[test]
fn whether_a_flag_is_guarded() {
    assert!(guarded(&vec![30, 15]));
    assert!(!guarded(&vec![30, 16]));
    assert!(!guarded(&vec![]));
}
