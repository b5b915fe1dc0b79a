use tangle::{
    init, make_tangle_1_milestone, make_tangle_2_milestones, make_tangle_reversed_arrival,
    pick_weighted, IndexId, Message, MessageKind, Metadata, Score, Tangle,
};

fn all_scenarios() -> Vec<Tangle> {
    vec![make_tangle_1_milestone(), make_tangle_2_milestones(), make_tangle_reversed_arrival()]
}

fn parents_of(t: &Tangle, id: u64) -> (u64, u64) {
    let v = t.vertices.get(&id).unwrap();
    (v.parents.ma, v.parents.pa)
}

fn metadata_of(t: &Tangle, id: u64) -> Metadata {
    t.vertices.get(&id).unwrap().metadata
}

#[test]
fn solid_vertices_have_solid_parents_and_keys() {
    for t in all_scenarios() {
        for id in 1..=26u64 {
            let (ma, pa) = parents_of(&t, id);
            assert!(t.is_solid(&ma) || t.is_sep(&ma));
            assert!(t.is_solid(&pa) || t.is_sep(&pa));
            assert!(t.get_otrsi(&id).is_some());
            assert!(t.get_ytrsi(&id).is_some());
        }
    }
}

#[test]
fn confirmed_vertices_are_their_own_roots() {
    for t in all_scenarios() {
        for id in 1..=26u64 {
            let meta = metadata_of(&t, id);
            if let Some(m) = meta.confirmed {
                assert_eq!(meta.otrsi, Some(IndexId(m, id)));
                assert_eq!(meta.ytrsi, Some(IndexId(m, id)));
            }
        }
    }
}

#[test]
fn a_milestone_is_its_own_root() {
    // Milestone 12 of the first scenario: parents 8 and 11, both confirmed at 1.
    let t = make_tangle_1_milestone();
    let meta = metadata_of(&t, 12);
    assert_eq!(meta.confirmed, Some(1));
    assert_eq!(meta.otrsi, Some(IndexId(1, 12)));
    assert_eq!(meta.ytrsi, Some(IndexId(1, 12)));

    // a milestone on the entry point alone
    let mut t = init();
    t.add_solid_entrypoint(0, 0);
    t.insert(1, Message::new((), MessageKind::Milestone(1)), 0, 0);
    assert!(t.is_solid(&1));
    assert_eq!(Some(1), t.get_otrsi(&1));
    assert_eq!(Some(1), t.get_ytrsi(&1));
    assert_eq!(Some((1, 1)), t.scan_confirmed_root_transactions(&1));
}

#[test]
fn unconfirmed_solid_vertices_hold_min_and_max_of_parents() {
    for t in all_scenarios() {
        for id in 1..=26u64 {
            if t.confirmed(&id) == Some(false) {
                let (ma, pa) = parents_of(&t, id);
                let o = t.get_otrsi(&id).unwrap();
                let y = t.get_ytrsi(&id).unwrap();
                assert_eq!(o, t.get_otrsi(&ma).unwrap().min(t.get_otrsi(&pa).unwrap()));
                assert_eq!(y, t.get_ytrsi(&ma).unwrap().max(t.get_ytrsi(&pa).unwrap()));
            }
        }
    }
}

#[test]
fn tips_have_no_children() {
    for t in all_scenarios() {
        for tip in t.tips.iter() {
            for id in 1..=26u64 {
                let (ma, pa) = parents_of(&t, id);
                assert!(ma != *tip && pa != *tip);
            }
        }
    }
}

#[test]
fn the_first_scenario_has_four_tips() {
    let t = make_tangle_1_milestone();
    let mut tips: Vec<u64> = t.tips.iter().map(|x| *x).collect();
    tips.sort();
    assert_eq!(tips, vec![23, 24, 25, 26]);
}

#[test]
fn missing_parents_are_unknown_until_they_arrive() {
    let mut t = init();
    t.add_solid_entrypoint(0, 0);
    t.insert(2, Message::default(), 1, 0);
    assert_eq!(1, t.missing.len());
    assert!(t.missing.contains_key(&1));
    assert!(!t.is_solid(&2));
    assert_eq!(1, t.num_tips());

    t.insert(1, Message::default(), 0, 0);
    assert_eq!(0, t.missing.len());
    assert!(t.is_solid(&1));
    assert!(t.is_solid(&2));
    assert_eq!(1, t.num_tips());
    assert!(t.tips.contains(&2));
    assert!(t.vertices.get(&1).unwrap().children.contains(&2));
}

#[test]
fn entry_points_are_not_missing() {
    let mut t = init();
    t.add_solid_entrypoint(0, 3);
    t.insert(1, Message::default(), 0, 0);
    assert_eq!(0, t.missing.len());
    assert_eq!(Some(3), t.get_otrsi(&0));
    assert_eq!(Some(3), t.get_otrsi(&1));
    assert_eq!(Some(3), t.get_ytrsi(&1));
}

#[test]
fn milestone_counters_move_forward() {
    let t = make_tangle_2_milestones();
    assert_eq!(2, t.lmi);
    assert_eq!(2, t.lsmi);
    let t = make_tangle_1_milestone();
    assert_eq!(1, t.lmi);
    assert_eq!(1, t.lsmi);
    assert!(t.lsmi <= t.lmi);
}

#[test]
fn a_milestone_sets_both_counters() {
    let mut t = init();
    t.add_solid_entrypoint(0, 0);
    t.insert(1, Message::default(), 0, 0);
    t.insert(2, Message::new((), MessageKind::Milestone(4)), 1, 1);
    assert_eq!(4, t.lmi);
    assert_eq!(4, t.lsmi);
    assert_eq!(Some(true), t.confirmed(&1));
    assert_eq!(Some(true), t.confirmed(&2));
    assert!(t.is_milestone(&2));
    assert!(!t.is_milestone(&1));
    assert!(!t.is_milestone(&9));
}

#[test]
fn scan_matches_snapshot_indices_in_the_scenarios() {
    for t in all_scenarios() {
        for id in 1..=26u64 {
            let expected = (t.get_otrsi(&id).unwrap(), t.get_ytrsi(&id).unwrap());
            assert_eq!(Some(expected), t.scan_confirmed_root_transactions(&id));
        }
    }
}

#[test]
fn scan_counts_entry_points_as_confirmed() {
    let mut t = init();
    t.add_solid_entrypoint(0, 0);
    t.insert(1, Message::default(), 0, 0);
    assert_eq!(Some((0, 0)), t.scan_confirmed_root_transactions(&1));
    assert_eq!(Some((0, 0)), t.scan_confirmed_root_transactions(&0));
    assert_eq!(None, t.scan_confirmed_root_transactions(&7));
}

#[test]
fn a_half_confirmed_past_keeps_the_older_index_out_of_the_scan() {
    // 3 has one parent confirmed at 1 and one that only reaches the entry point.
    let mut t = init();
    t.add_solid_entrypoint(0, 0);
    t.insert(1, Message::default(), 0, 0);
    t.insert(2, Message::default(), 0, 0);
    t.insert(3, Message::default(), 1, 2);
    t.insert(4, Message::new((), MessageKind::Milestone(1)), 1, 1);
    assert_eq!(Some(true), t.confirmed(&1));
    assert_eq!(Some(false), t.confirmed(&2));
    assert_eq!(Some(1), t.get_otrsi(&3));
    assert_eq!(Some(0), t.get_ytrsi(&3));
    assert_eq!(Some((0, 1)), t.scan_confirmed_root_transactions(&3));
}

#[test]
fn empty_pool_selects_nothing() {
    let mut t = init();
    t.add_solid_entrypoint(0, 0);
    assert_eq!(None, t.select_tip());
    assert_eq!(None, t.select_two_tips());
    assert_eq!(0, t.num_tips());
}

#[test]
fn selection_hands_out_a_tip_at_most_three_times() {
    let mut t = make_tangle_1_milestone();
    let mut counts = std::collections::HashMap::new();
    for _ in 0..12 {
        match t.select_tip() {
            Some(id) => {
                assert!(t.tips.contains(&id));
                *counts.entry(id).or_insert(0u32) += 1;
                assert!(metadata_of(&t, id).selected <= 3);
            }
            None => break,
        }
    }
    assert!(!counts.is_empty());
    for (id, n) in counts.iter() {
        assert!(*n <= 3);
        assert_eq!(*n as u8, metadata_of(&t, *id).selected);
    }
    for _ in 0..5 {
        if let Some(id) = t.select_tip() {
            assert!(metadata_of(&t, id).selected <= 3);
        }
    }
}

#[test]
fn two_tips_come_from_the_pool() {
    let mut t = make_tangle_1_milestone();
    let (a, b) = t.select_two_tips().unwrap();
    assert!(t.tips.contains(&a));
    assert!(t.tips.contains(&b));
}

#[test]
fn a_single_tip_at_its_limit_fails_the_second_draw() {
    let mut t = init();
    t.add_solid_entrypoint(0, 0);
    t.insert(1, Message::default(), 0, 0);
    assert_eq!(Some((1, 1)), t.select_two_tips());
    assert_eq!(None, t.select_two_tips());
    assert_eq!(3, metadata_of(&t, 1).selected);
    assert_eq!(None, t.select_tip());
}

#[test]
fn tip_scores() {
    let mut t = init();
    t.add_solid_entrypoint(0, 0);
    t.add_solid_entrypoint(100, 10);
    t.insert(1, Message::default(), 0, 0);
    t.insert(2, Message::default(), 100, 100);
    t.insert(3, Message::default(), 1, 2);
    assert_eq!(Some(0), t.get_otrsi(&3));
    assert_eq!(Some(10), t.get_ytrsi(&3));

    t.lsmi = 7;
    assert_eq!(Score::NonLazy, t.get_tip_score(&3, 0, 10));
    t.lsmi = 12;
    assert_eq!(Score::SemiLazy, t.get_tip_score(&3, 0, 10));
    t.lsmi = 13;
    assert_eq!(Score::Lazy, t.get_tip_score(&3, 0, 10));
    t.lsmi = 12;
    assert_eq!(Score::Lazy, t.get_tip_score(&3, 0, 9));
    t.lsmi = 16;
    assert_eq!(Score::Lazy, t.get_tip_score(&3, 0, 16));
    t.lsmi = 8;
    assert_eq!(Score::SemiLazy, t.get_tip_score(&3, 0, 10));
    assert_eq!(2, Score::NonLazy.weight());
    assert_eq!(1, Score::SemiLazy.weight());
    assert_eq!(0, Score::Lazy.weight());
}

#[test]
fn both_parents_lagging_make_a_tip_lazy() {
    let mut t = init();
    t.add_solid_entrypoint(0, 0);
    t.insert(1, Message::default(), 0, 0);
    t.insert(2, Message::default(), 0, 0);
    t.insert(3, Message::default(), 1, 2);
    t.lsmi = 8;
    assert_eq!(Score::Lazy, t.get_tip_score(&3, 8, 8));
    t.lsmi = 7;
    assert_eq!(Score::NonLazy, t.get_tip_score(&3, 7, 7));
}

#[test]
fn weighted_pick() {
    let c = vec![(5u64, 1u64), (6, 2), (7, 2)];
    assert_eq!(Some(5), pick_weighted(&c, 0));
    assert_eq!(Some(5), pick_weighted(&c, 1));
    assert_eq!(Some(6), pick_weighted(&c, 2));
    assert_eq!(Some(6), pick_weighted(&c, 3));
    assert_eq!(Some(7), pick_weighted(&c, 4));
    assert_eq!(Some(7), pick_weighted(&c, 5));
    assert_eq!(None, pick_weighted(&c, 6));
    assert_eq!(None, pick_weighted(&Vec::new(), 1));
}

#[test]
fn keys_order_by_index_then_id() {
    assert_eq!(IndexId(1, 9), IndexId::min_key(IndexId(1, 9), IndexId(2, 0)));
    assert_eq!(IndexId(1, 3), IndexId::min_key(IndexId(1, 4), IndexId(1, 3)));
    assert_eq!(IndexId(2, 0), IndexId::max_key(IndexId(1, 9), IndexId(2, 0)));
    assert_eq!(IndexId(1, 4), IndexId::max_key(IndexId(1, 4), IndexId(1, 3)));
}

#[test]
fn message_kinds() {
    assert!(MessageKind::Milestone(3).is_milestone());
    assert!(!MessageKind::Data.is_milestone());
    assert!(!MessageKind::Value.is_milestone());
    assert_eq!(Some(3), MessageKind::Milestone(3).milestone_index());
    assert_eq!(None, MessageKind::Checkpoint.milestone_index());
    assert_eq!(MessageKind::Milestone(2), Message::new((), MessageKind::Milestone(2)).kind);
    assert_eq!(MessageKind::Data, Message::default().kind);
    assert_eq!(MessageKind::Data, MessageKind::default());
}

#[test]
fn get_returns_the_stored_message() {
    let t = make_tangle_2_milestones();
    assert_eq!(MessageKind::Milestone(1), t.get(&8).unwrap().kind);
    assert_eq!(MessageKind::Data, t.get(&9).unwrap().kind);
    assert!(t.get(&99).is_none());
    assert_eq!(None, t.confirmed(&99));
}

#[test]
fn try_insert_refuses_what_insert_may_not_take() {
    let mut t = init();
    t.add_solid_entrypoint(0, 0);
    assert!(t.try_insert(1, Message::default(), 0, 0));
    // a known id
    assert!(!t.try_insert(1, Message::default(), 0, 0));
    // an entry point
    assert!(!t.try_insert(0, Message::default(), 1, 1));
    // its own parent
    assert!(!t.try_insert(2, Message::default(), 2, 1));
    // a milestone on a parent that is not solid
    assert!(t.try_insert(3, Message::default(), 1, 9));
    assert!(!t.is_solid(&3));
    assert!(!t.try_insert(4, Message::new((), MessageKind::Milestone(1)), 1, 3));
    assert!(t.get(&4).is_none());
    assert_eq!(0, t.lmi);
    // and accepted once the parent is solid
    assert!(t.try_insert(9, Message::default(), 0, 0));
    assert!(t.is_solid(&3));
    assert!(t.try_insert(4, Message::new((), MessageKind::Milestone(1)), 1, 3));
    assert_eq!(1, t.lmi);
    assert_eq!(1, t.lsmi);
    assert_eq!(Some(true), t.confirmed(&3));
    assert_eq!(Some(true), t.confirmed(&9));
}
