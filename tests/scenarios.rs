use tangle::{make_tangle_1_milestone, make_tangle_2_milestones, make_tangle_reversed_arrival};

#[test]
fn one_milestone() {
    let tangle = make_tangle_1_milestone();

    for i in 1..=26 {
        assert!(tangle.is_solid(&i));
    }

    let confirmed = [1, 2, 3, 5, 6, 8, 9, 11, 12];

    for id in 1..26 {
        if confirmed.contains(&id) {
            assert!(tangle.confirmed(&id).unwrap());
        } else {
            assert!(!tangle.confirmed(&id).unwrap());
        }
    }

    assert_eq!(Some((1, 1)), tangle.scan_confirmed_root_transactions(&12));
    assert_eq!(Some((1, 1)), tangle.scan_confirmed_root_transactions(&22));
}

#[test]
fn two_milestones() {
    let tangle = make_tangle_2_milestones();

    for i in 1..=26 {
        assert!(tangle.is_solid(&i));
    }

    let confirmed = [1, 2, 3, 5, 6, 8, 9, 11, 15];

    for id in 1..26 {
        if confirmed.contains(&id) {
            assert!(tangle.confirmed(&id).unwrap());
        } else {
            assert!(!tangle.confirmed(&id).unwrap());
        }
    }

    assert_eq!(Some((1, 1)), tangle.scan_confirmed_root_transactions(&23));
    assert_eq!(Some((1, 2)), tangle.scan_confirmed_root_transactions(&24));
    assert_eq!(Some((1, 2)), tangle.scan_confirmed_root_transactions(&25));
    assert_eq!(Some((1, 2)), tangle.scan_confirmed_root_transactions(&26));
}

#[test]
fn reversed_arrival() {
    let tangle = make_tangle_reversed_arrival();

    for i in 1..=26 {
        assert!(tangle.is_solid(&i));
    }

    let confirmed = [1, 2, 3, 5, 6, 8, 9, 11, 15];

    for id in 1..26 {
        if confirmed.contains(&id) {
            assert!(tangle.confirmed(&id).unwrap());
        } else {
            assert!(!tangle.confirmed(&id).unwrap());
        }
    }

    assert_eq!(0, tangle.missing.len());

    assert_eq!(Some((1, 1)), tangle.scan_confirmed_root_transactions(&23));
    assert_eq!(Some((1, 2)), tangle.scan_confirmed_root_transactions(&24));
    assert_eq!(Some((1, 2)), tangle.scan_confirmed_root_transactions(&25));
    assert_eq!(Some((1, 2)), tangle.scan_confirmed_root_transactions(&26));
}

#[test]
fn four_tips() {
    let tangle = make_tangle_1_milestone();

    assert_eq!(4, tangle.num_tips());
    assert_eq!(0, tangle.missing.len());
    assert_eq!(1, tangle.seps.len());
}
