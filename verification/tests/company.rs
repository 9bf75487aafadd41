use clawcombat::company::{company_name, form_companies, group_companies, sort_ids, ScoutRotation};
use clawcombat::tally::Side;

#[test]
fn seven_squads_make_three_companies() {
    // Squads in the order they stand on the map, top to bottom.
    let ordered = vec![12, 3, 7, 40, 5, 9, 1];
    let companies = group_companies(&ordered);
    assert_eq!(companies, vec![vec![1, 9], vec![3, 7, 12], vec![5, 40]]);
}

#[test]
fn four_squads_make_three_companies() {
    let companies = group_companies(&vec![8, 6, 2, 4]);
    assert_eq!(companies, vec![vec![2], vec![4], vec![6, 8]]);
    let named = form_companies(Side::A, "A", &vec![8, 6, 2, 4]);
    let names: Vec<&str> = named.iter().map(|c| c.id.as_str()).collect();
    assert_eq!(names, vec!["A-Alpha", "A-Bravo", "A-Charlie"]);
    assert!(named.iter().all(|c| c.scout_squad.is_none() && c.side == Side::A));
}

#[test]
fn company_sizes_differ_by_at_most_one() {
    let sizes = |n: usize| {
        let ordered: Vec<usize> = (0..n).collect();
        let mut s: Vec<usize> = group_companies(&ordered).iter().map(|c| c.len()).collect();
        s.sort();
        s
    };
    assert_eq!(sizes(8), vec![2, 3, 3]);
    assert_eq!(sizes(9), vec![3, 3, 3]);
    assert_eq!(sizes(10), vec![3, 3, 4]);
    assert_eq!(sizes(3), vec![1, 1, 1]);
}

#[test]
fn few_squads_make_one_company_each() {
    assert_eq!(group_companies(&vec![]), Vec::<Vec<usize>>::new());
    assert_eq!(group_companies(&vec![5]), vec![vec![5]]);
    assert_eq!(group_companies(&vec![9, 2]), vec![vec![2], vec![9]]);
}

#[test]
fn ids_are_sorted() {
    assert_eq!(sort_ids(&vec![3, 1, 2, 1]), vec![1, 1, 2, 3]);
    assert_eq!(sort_ids(&vec![]), Vec::<usize>::new());
}

#[test]
fn company_names() {
    assert_eq!(company_name("A", 0), "A-Alpha");
    assert_eq!(company_name("B", 2), "B-Charlie");
    assert_eq!(company_name("A", 7), "A-Hotel");
    assert_eq!(company_name("A", 8), "A-Omega");
}

#[test]
fn scouts_take_turns_by_id() {
    let squads = vec![7, 3, 5];
    let mut rotation = ScoutRotation::new();
    assert_eq!(rotation.choose_scout(&squads), 3);
    assert!(rotation.pass_turn(3, 200));
    assert!(rotation.has_scouted(3));
    assert_eq!(rotation.choose_scout(&squads), 5);
    // Too soon after the last pass: the turn stays.
    assert!(!rotation.pass_turn(5, 300));
    assert_eq!(rotation.choose_scout(&squads), 5);
    assert!(rotation.pass_turn(5, 400));
    assert_eq!(rotation.choose_scout(&squads), 7);
    assert!(rotation.pass_turn(7, 600));
    assert_eq!(rotation.passes(), 3);
    assert_eq!(rotation.last_pass_frame(), 600);
    // Every squad went ahead: a new round starts with the lowest id.
    assert_eq!(rotation.choose_scout(&squads), 3);
    assert!(!rotation.has_scouted(3));
    assert!(!rotation.has_scouted(7));
}

#[test]
fn rotation_forgets_squads_that_left() {
    let mut rotation = ScoutRotation::new();
    assert_eq!(rotation.choose_scout(&vec![1, 2]), 1);
    assert!(rotation.pass_turn(1, 181));
    assert!(rotation.pass_turn(9, 362));
    assert_eq!(rotation.choose_scout(&vec![1, 2]), 2);
    assert!(!rotation.has_scouted(9));
    assert!(rotation.has_scouted(1));
}

#[test]
fn lone_squad_keeps_scouting() {
    let mut rotation = ScoutRotation::new();
    assert_eq!(rotation.choose_scout(&vec![4]), 4);
    assert!(rotation.pass_turn(4, 500));
    assert_eq!(rotation.choose_scout(&vec![4]), 4);
    assert!(rotation.has_scouted(4));
}
