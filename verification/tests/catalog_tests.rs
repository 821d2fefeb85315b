use kmc_events::add_remove_list::{barrier_units, AddOrRemove, AddRemoveHow, UnsupportedOperation};
use kmc_events::listdict::ListDict;
use rand::rngs::SmallRng;
use rand::SeedableRng;

const GRID: [u32; 3] = [4, 4, 4];

fn abc_catalog() -> ListDict {
    // Rates in tenths: A = 2.0, B = 3.0, C = 5.0, total = 10.0.
    let mut ld = ListDict::new(GRID);
    ld.add_item(1, 2, 0, 10, 20);
    ld.add_item(3, 4, 0, 10, 30);
    ld.add_item(5, 6, 0, 10, 50);
    ld
}

#[test]
fn scenario_first_crossing_draws() {
    // Insert A(2), B(3), C(5) in that order; a draw at 2.5 selects B
    // (cumulative: A = 2, B = 5 >= 2.5), a draw at 0 selects A, a draw at
    // the full total selects C.
    let ld = abc_catalog();
    assert_eq!(ld.catalog.total_rate, 100);

    let at_25 = ld.catalog.sample_at(25).unwrap();
    assert_eq!((at_25.payload.from, at_25.payload.to), (3, 4));
    assert_eq!(at_25.rate, 30);

    let at_0 = ld.catalog.sample_at(0).unwrap();
    assert_eq!((at_0.payload.from, at_0.payload.to), (1, 2));

    let at_100 = ld.catalog.sample_at(100).unwrap();
    assert_eq!((at_100.payload.from, at_100.payload.to), (5, 6));
    assert_eq!(at_100.rate, 50);
}

#[test]
fn scenario_remove_then_draw() {
    // Remove B: total becomes 7; a draw at 2.5 now selects C
    // (cumulative: A = 2, C = 7).
    let mut ld = abc_catalog();
    ld.remove_item(3, 4);
    assert_eq!(ld.catalog.total_rate, 70);
    assert_eq!(ld._len(), 2);

    let at_25 = ld.catalog.sample_at(25).unwrap();
    assert_eq!((at_25.payload.from, at_25.payload.to), (5, 6));
    assert_eq!(at_25.rate, 50);
}

#[test]
fn selection_interval_boundaries() {
    // Each event is selected exactly by the draws in the cumulative-rate
    // interval above it: A by [0, 20], B by (20, 50], C by (50, 100].
    let ld = abc_catalog();
    let froms: Vec<(u64, u32)> = vec![(20, 1), (21, 3), (50, 3), (51, 5), (100, 5)];
    for (draw, expected_from) in froms {
        let e = ld.catalog.sample_at(draw).unwrap();
        assert_eq!(e.payload.from, expected_from, "draw {draw}");
    }
}

#[test]
fn sample_none_iff_empty() {
    let mut ld = ListDict::new(GRID);
    let mut rng = SmallRng::seed_from_u64(7);
    assert!(ld.choose_ramdom_move_kmc(&mut rng).is_none());
    assert!(ld.catalog.sample_at(0).is_none());

    ld.add_item(1, 2, -5, 10, 40);
    assert!(ld.choose_ramdom_move_kmc(&mut rng).is_some());

    ld.remove_item(1, 2);
    assert!(ld.choose_ramdom_move_kmc(&mut rng).is_none());
}

#[test]
fn random_draw_returns_current_event() {
    // Whatever the generator yields, the drawn event is the catalogued one,
    // reported with its own rate and the aggregate: this fails if the
    // bounded draw were ever outside [0, total].
    let mut ld = ListDict::new(GRID);
    ld.add_item(9, 11, 2, 3, 17);
    let mut rng = SmallRng::seed_from_u64(42);
    for _ in 0..200 {
        let (from, to, e_diff, e_barr, total, k) = ld.choose_ramdom_move_kmc(&mut rng).unwrap();
        assert_eq!((from, to, e_diff, e_barr, total, k), (9, 11, 2, 3, 17, 17));
    }
}

#[test]
fn duplicate_insert_is_ignored() {
    // Inserting an existing key never changes its stored rate or payload.
    let mut ld = ListDict::new(GRID);
    ld.add_item(1, 2, 5, 10, 20);
    ld.add_item(1, 2, 99, 99, 999);
    assert_eq!(ld._len(), 1);
    assert_eq!(ld.catalog.total_rate, 20);
    let e = &ld.iter()[0];
    assert_eq!(e.rate, 20);
    assert_eq!(e.payload.e_diff, 5);
    assert_eq!(e.payload.e_barr, 10);
}

#[test]
fn keys_are_unique_and_direction_matters() {
    let mut ld = ListDict::new(GRID);
    ld.add_item(1, 2, 0, 10, 20);
    ld.add_item(2, 1, 0, 10, 30);
    assert_eq!(ld._len(), 2);
    // Origin sits in the low 32 bits, destination in the high 32 bits.
    assert_eq!(ld.iter()[0].key, 1 + (2u64 << 32));
    assert_eq!(ld.iter()[1].key, 2 + (1u64 << 32));
    let mut keys: Vec<u64> = ld.iter().iter().map(|e| e.key).collect();
    keys.sort();
    keys.dedup();
    assert_eq!(keys.len(), 2);
}

#[test]
fn swap_removal_keeps_other_events_reachable() {
    // Removing a non-last event forces the swap-compaction path; the other
    // events keep their rates and stay reachable (removal, update and a
    // draw still find them).
    let mut ld = abc_catalog();
    ld.remove_item(1, 2);
    assert_eq!(ld._len(), 2);
    assert_eq!(ld.catalog.total_rate, 80);
    // The last event (C) was moved into A's slot.
    assert_eq!(ld.iter()[0].payload.from, 5);
    // B and C are both still addressable by key.
    ld.update_k_if_move_exists(3, 4, 1, 2, 35);
    assert_eq!(ld.catalog.total_rate, 85);
    ld.remove_item(5, 6);
    assert_eq!(ld._len(), 1);
    assert_eq!(ld.catalog.total_rate, 35);
    let e = ld.catalog.sample_at(5).unwrap();
    assert_eq!((e.payload.from, e.payload.to), (3, 4));
}

#[test]
fn removing_or_updating_absent_key_is_noop() {
    let mut ld = abc_catalog();
    ld.remove_item(7, 8);
    ld.update_k_if_move_exists(7, 8, 0, 0, 1000);
    assert_eq!(ld._len(), 3);
    assert_eq!(ld.catalog.total_rate, 100);
}

#[test]
fn update_adjusts_total_by_delta() {
    let mut ld = abc_catalog();
    ld.update_k_if_move_exists(3, 4, 7, 9, 45);
    assert_eq!(ld.catalog.total_rate, 115);
    let e = ld.catalog.sample_at(21).unwrap();
    assert_eq!(e.payload.e_diff, 7);
    assert_eq!(e.payload.e_barr, 9);
    assert_eq!(e.rate, 45);
}

#[test]
fn recompute_total_matches_exact_sum() {
    // Aggregate consistency: after any mix of inserts, removals and updates
    // the recomputed aggregate is the exact sum of the current rates.
    let mut ld = abc_catalog();
    ld.remove_item(1, 2);
    ld.update_k_if_move_exists(5, 6, 0, 10, 55);
    ld.add_item(7, 8, 0, 10, 5);
    let expected: u64 = ld.iter().iter().map(|e| e.rate).sum();
    ld.calc_total_k_change();
    assert_eq!(ld.catalog.total_rate, expected);
    assert_eq!(ld.catalog.total_rate, 30 + 55 + 5);
}

#[test]
fn surface_insert_respects_eligibility() {
    let mut surf = AddOrRemove::new();
    // Coordination number 11 or more: never eligible.
    assert_eq!(surf.cond_add_item(10, 11, 5, 40, &AddRemoveHow::Remove(5)), Ok(()));
    assert_eq!(surf._len(), 0);
    // Removal of species 5 from a site occupied by species 6: ineligible.
    assert_eq!(surf.cond_add_item(10, 4, 6, 40, &AddRemoveHow::Remove(5)), Ok(()));
    assert_eq!(surf._len(), 0);
    // Matching species: inserted.
    assert_eq!(surf.cond_add_item(10, 4, 5, 40, &AddRemoveHow::Remove(5)), Ok(()));
    assert_eq!(surf._len(), 1);
    assert_eq!(surf.catalog.total_rate, 40);
    // Addition at an occupied site: ineligible; at an empty site: inserted.
    assert_eq!(surf.cond_add_item(11, 2, 5, 25, &AddRemoveHow::Add(1)), Ok(()));
    assert_eq!(surf._len(), 1);
    assert_eq!(surf.cond_add_item(11, 2, 255, 25, &AddRemoveHow::Add(1)), Ok(()));
    assert_eq!(surf._len(), 2);
    assert_eq!(surf.catalog.total_rate, 65);
    // Duplicate position: ignored.
    assert_eq!(surf.cond_add_item(10, 4, 5, 77, &AddRemoveHow::Exchange(5, 9)), Ok(()));
    assert_eq!(surf.catalog.total_rate, 65);
}

#[test]
fn scenario_add_barrier_units() {
    // An addition at coordination number 0 uses 100 barrier units; at 4 it
    // uses 12 / 4 = 3 units. Removals scale with the coordination number.
    assert_eq!(barrier_units(&AddRemoveHow::Add(1), 0), Some(100));
    assert_eq!(barrier_units(&AddRemoveHow::Add(1), 4), Some(3));
    assert_eq!(barrier_units(&AddRemoveHow::Add(1), 5), Some(2));
    assert_eq!(barrier_units(&AddRemoveHow::Remove(5), 7), Some(7));
    assert_eq!(barrier_units(&AddRemoveHow::Exchange(5, 6), 2), Some(2));
    assert_eq!(barrier_units(&AddRemoveHow::RemoveAndAdd(5, 6), 2), None);
    assert_eq!(kmc_events::add_remove_list::update_barrier_units(4), 3);
    assert_eq!(kmc_events::add_remove_list::update_barrier_units(13), 0);
}

#[test]
fn scenario_update_at_disqualifying_cn_removes() {
    // A coordination number of exactly 3 (or 0) removes the event outright,
    // regardless of prior rate.
    let mut surf = AddOrRemove::new();
    assert_eq!(surf.cond_add_item(10, 4, 5, 40, &AddRemoveHow::Remove(5)), Ok(()));
    assert_eq!(surf.cond_add_item(11, 4, 255, 25, &AddRemoveHow::Add(1)), Ok(()));
    surf.cond_update_cn(10, 3, 999);
    assert_eq!(surf._len(), 1);
    assert_eq!(surf.catalog.total_rate, 25);
    surf.cond_update_cn(11, 0, 999);
    assert_eq!(surf._len(), 0);
    assert_eq!(surf.catalog.total_rate, 0);
}

#[test]
fn surface_update_refreshes_rate() {
    let mut surf = AddOrRemove::new();
    assert_eq!(surf.cond_add_item(10, 4, 5, 40, &AddRemoveHow::Remove(5)), Ok(()));
    surf.cond_update_cn(10, 6, 15);
    assert_eq!(surf._len(), 1);
    assert_eq!(surf.catalog.total_rate, 15);
    // Updating a position with no event is a silent no-op.
    surf.cond_update_cn(99, 6, 15);
    assert_eq!(surf._len(), 1);
    assert_eq!(surf.catalog.total_rate, 15);
}

#[test]
fn scenario_combined_tag_fails_explicitly() {
    // Inserting the unimplemented combined tag yields an explicit failure,
    // never a silent no-op, and leaves the catalog unchanged.
    let mut surf = AddOrRemove::new();
    let r = surf.cond_add_item(10, 4, 5, 40, &AddRemoveHow::RemoveAndAdd(5, 6));
    assert_eq!(r, Err(UnsupportedOperation));
    assert_eq!(surf._len(), 0);
    assert_eq!(surf.catalog.total_rate, 0);
}

#[test]
fn surface_draw_reports_position_rate_and_total() {
    let mut surf = AddOrRemove::new();
    let mut rng = SmallRng::seed_from_u64(3);
    assert!(surf.choose_ramdom_atom_to_remove(&mut rng).is_none());
    assert_eq!(surf.cond_add_item(10, 4, 5, 40, &AddRemoveHow::Remove(5)), Ok(()));
    assert_eq!(surf.cond_add_item(11, 4, 255, 25, &AddRemoveHow::Add(1)), Ok(()));
    for _ in 0..100 {
        let (pos, k, total) = surf.choose_ramdom_atom_to_remove(&mut rng).unwrap();
        assert_eq!(total, 65);
        assert!((pos == 10 && k == 40) || (pos == 11 && k == 25));
    }
}

#[test]
fn surface_recompute_matches_exact_sum() {
    let mut surf = AddOrRemove::new();
    assert_eq!(surf.cond_add_item(10, 4, 5, 40, &AddRemoveHow::Remove(5)), Ok(()));
    assert_eq!(surf.cond_add_item(11, 4, 255, 25, &AddRemoveHow::Add(1)), Ok(()));
    surf.remove_item(10);
    surf.calc_total_cn_change();
    let expected: u64 = surf.iter().iter().map(|e| e.rate).sum();
    assert_eq!(surf.catalog.total_rate, expected);
    assert_eq!(surf.catalog.total_rate, 25);
}

#[test]
fn sampling_frequencies_match_rates() {
    // With a fixed catalog, selection frequencies over many draws track
    // rate / total_rate; the draw intervals make this exact up to the one
    // boundary draw, so a generous tolerance suffices here.
    let mut ld = abc_catalog();
    let mut rng = SmallRng::seed_from_u64(12345);
    let mut counts = [0u32; 3];
    let n = 20000;
    for _ in 0..n {
        let (from, ..) = ld.choose_ramdom_move_kmc(&mut rng).unwrap();
        match from {
            1 => counts[0] += 1,
            3 => counts[1] += 1,
            5 => counts[2] += 1,
            _ => panic!("unknown event"),
        }
    }
    let f = |c: u32| c as f64 / n as f64;
    assert!((f(counts[0]) - 0.2).abs() < 0.02);
    assert!((f(counts[1]) - 0.3).abs() < 0.02);
    assert!((f(counts[2]) - 0.5).abs() < 0.02);
}
