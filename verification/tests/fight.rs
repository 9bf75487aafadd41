use clawcombat::fight::{eligible_opponents, ChooseMethod, Sighting};

fn seen(soldier: usize, squad: usize, distance_m: i64) -> Sighting {
    Sighting { soldier, squad, targetable: true, distance_m, within_hide_reach: true, in_sight: true }
}

#[test]
fn who_may_be_fired_at() {
    let mut dead = seen(1, 10, 5);
    dead.targetable = false;
    let far = seen(2, 10, 61);
    let hidden = Sighting { in_sight: false, ..seen(3, 10, 5) };
    let out_of_hide_reach = Sighting { within_hide_reach: false, ..seen(4, 11, 30) };
    let good = seen(5, 11, 60);
    let all = vec![dead, far, hidden, out_of_hide_reach, good];
    let ids = |v: Vec<Sighting>| v.iter().map(|s| s.soldier).collect::<Vec<_>>();
    assert_eq!(ids(eligible_opponents(&all, None, false)), vec![4, 5]);
    assert_eq!(ids(eligible_opponents(&all, None, true)), vec![5]);
    assert_eq!(ids(eligible_opponents(&all, Some(10), false)), Vec::<usize>::new());
    assert_eq!(ids(eligible_opponents(&all, Some(11), false)), vec![4, 5]);
}

#[test]
fn a_random_one_of_the_nearest() {
    let method = ChooseMethod::RandomFromNearest;
    let mut seen_seven = false;
    let mut seen_nine = false;
    for _ in 0..200 {
        let pick = method.pick(&vec![7, 8, 9], &vec![true, false, true]);
        assert!(pick == Some(7) || pick == Some(9));
        seen_seven |= pick == Some(7);
        seen_nine |= pick == Some(9);
    }
    assert!(seen_seven && seen_nine);
    assert_eq!(method.choose_random_from_nearest(&vec![7, 8], &vec![false, true]), Some(8));
    assert_eq!(method.pick(&vec![7], &vec![false]), None);
    assert_eq!(method.pick(&vec![], &vec![]), None);
}
