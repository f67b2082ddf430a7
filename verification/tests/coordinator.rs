use tur::downloads::constants::BOUNDARIES;
use tur::downloads::constants::MIN_STEAL_BYTES;
use tur::downloads::constants::RANGE_LEN;
use tur::downloads::constants::UNIT_BYTES;
use tur::downloads::coordinator::clamp_steal_ptr;
use tur::downloads::coordinator::steal_amount;
use tur::downloads::coordinator::Coordinator;
use tur::downloads::download::Download;
use tur::downloads::index::Index;

const MIB: u64 = 1024 * 1024;

fn cursor(origin: u64, start: u64, end: u64) -> Index {
    Index { origin, start, end }
}

fn hand_out_all(d: &mut Download) {
    while d.coordinator.next_index < d.coordinator.max_index {
        assert!(d.coordinator.new_range(&mut d.range).is_some());
    }
}

fn disjoint(range: &[Index]) -> bool {
    for i in 0..range.len() {
        for j in i + 1..range.len() {
            if !(range[i].end <= range[j].origin || range[j].end <= range[i].origin) {
                return false;
            }
        }
    }
    true
}

fn span(range: &[Index]) -> u64 {
    range.iter().map(|c| c.end - c.origin).sum()
}

fn done(range: &[Index]) -> u64 {
    range.iter().map(|c| c.start - c.origin).sum()
}

#[test]
fn table_is_increasing_and_has_59_segments() {
    assert_eq!(RANGE_LEN, 59);
    assert_eq!(BOUNDARIES.len(), RANGE_LEN + 1);
    assert_eq!(&BOUNDARIES[..6], &[0, 1, 2, 4, 7, 12]);
    assert_eq!(BOUNDARIES[59], 1 << 41);
    assert_eq!(UNIT_BYTES, 1 << 23);
    for i in 0..RANGE_LEN {
        assert!(BOUNDARIES[i] < BOUNDARIES[i + 1]);
    }
}

#[test]
fn get_index_finds_the_first_segment_at_or_after() {
    assert_eq!(Download::get_index(0), Some(0));
    assert_eq!(Download::get_index(1), Some(1));
    assert_eq!(Download::get_index(2), Some(2));
    assert_eq!(Download::get_index(3), Some(3));
    assert_eq!(Download::get_index(4), Some(3));
    assert_eq!(Download::get_index(5), Some(4));
    assert_eq!(Download::get_index(12), Some(5));
    assert_eq!(Download::get_index(13), Some(6));
    assert_eq!(Download::get_index(376), Some(12));
    assert_eq!(Download::get_index(377), Some(13));
    assert_eq!(Download::get_index(500), Some(13));
    assert_eq!(Download::get_index(609), Some(13));
    assert_eq!(Download::get_index(610), Some(14));
    assert_eq!(Download::get_index(1548008755918), Some(58));
    assert_eq!(Download::get_index(1548008755919), None);
    assert_eq!(Download::get_index(u64::MAX), None);
}

#[test]
fn get_index_agrees_with_a_linear_search() {
    for i in 0..RANGE_LEN {
        for v in [BOUNDARIES[i].saturating_sub(1), BOUNDARIES[i], BOUNDARIES[i] + 1] {
            let expected = (0..RANGE_LEN).find(|&k| BOUNDARIES[k] >= v).map(|k| k as u8);
            assert_eq!(Download::get_index(v), expected, "{}", v);
            if let Some(k) = Download::get_index(v) {
                assert!(BOUNDARIES[k as usize] >= v);
                assert!(k == 0 || BOUNDARIES[k as usize - 1] < v);
            }
        }
    }
}

#[test]
fn new_download_over_a_size() {
    let d = Download::new(100 * MIB, 4);
    assert_eq!(d.coordinator, Coordinator::from_parts(0, 5, 2, false, 100 * MIB));
    assert!(d.range.is_empty());
    assert_eq!(Download::new(0, 4).coordinator.max_index, 0);
    assert_eq!(Download::new(8 * MIB - 1, 4).coordinator.max_index, 0);
    assert_eq!(Download::new(8 * MIB, 4).coordinator.max_index, 1);
    assert_eq!(Download::new(u64::MAX, 4).coordinator.max_index, 0);
}

#[test]
fn segments_are_handed_out_in_table_order() {
    let mut d = Download::new(100 * MIB, 4);
    let mut got = Vec::new();
    while let Some((handle, bytes)) = d.coordinator.new_range(&mut d.range) {
        got.push((handle, bytes.start, bytes.end));
    }
    assert_eq!(
        got,
        vec![
            (0, 0, 8 * MIB),
            (1, 8 * MIB, 16 * MIB),
            (2, 16 * MIB, 32 * MIB),
            (3, 32 * MIB, 56 * MIB),
            (4, 56 * MIB, 96 * MIB),
        ]
    );
    assert_eq!(d.coordinator.next_index, 5);
    assert_eq!(d.range[3], cursor(32 * MIB, 32 * MIB, 56 * MIB));
    assert!(!d.coordinator.has_work() || !d.coordinator.steal_exhausted);
}

#[test]
fn last_segment_is_clamped_to_the_file() {
    let mut d = Download::new(110 * MIB, 4);
    assert_eq!(d.coordinator.max_index, 6);
    hand_out_all(&mut d);
    assert_eq!(d.range[5], cursor(96 * MIB, 96 * MIB, 110 * MIB));
    assert_eq!(span(&d.range), 110 * MIB);
    assert!(disjoint(&d.range));
}

#[test]
fn spans_add_up_to_the_size_on_unit_boundaries() {
    for units in [1u64, 2, 4, 7, 12, 20, 33] {
        let mut d = Download::new(units * UNIT_BYTES, 4);
        hand_out_all(&mut d);
        assert_eq!(span(&d.range), units * UNIT_BYTES);
    }
    for size in [40 * MIB, 50 * MIB, 110 * MIB, 1000 * MIB + 17] {
        let mut d = Download::new(size, 4);
        hand_out_all(&mut d);
        assert_eq!(span(&d.range), size, "{}", size);
    }
}

#[test]
fn a_file_that_ends_inside_a_boundary_unit_is_not_covered() {
    let mut d = Download::new(12 * MIB, 4);
    hand_out_all(&mut d);
    assert_eq!(span(&d.range), 8 * MIB);
    let mut d = Download::new(100 * MIB, 4);
    hand_out_all(&mut d);
    assert_eq!(span(&d.range), 96 * MIB);
    let mut d = Download::new(9 * MIB, 4);
    hand_out_all(&mut d);
    assert_eq!(span(&d.range), 8 * MIB);
    let mut d = Download::new(5 * MIB, 4);
    hand_out_all(&mut d);
    assert_eq!(span(&d.range), 0);
}

#[test]
fn twelve_mebibytes_with_four_workers() {
    assert_eq!(Download::get_index(1), Some(1));
    let mut d = Download::new(12 * MIB, 4);
    assert_eq!(d.coordinator.max_index, 1);
    let first = d.coordinator.request_work(&mut d.range, MIN_STEAL_BYTES);
    assert_eq!(first, Some((0, 0..8 * MIB)));
    assert_eq!(d.range, vec![cursor(0, 0, 8 * MIB)]);
    // With a single cursor there is nothing to steal.
    assert_eq!(d.coordinator.request_work(&mut d.range, MIN_STEAL_BYTES), None);
    assert_eq!(d.coordinator.request_work(&mut d.range, MIN_STEAL_BYTES), None);
    assert!(!d.coordinator.steal_exhausted);
    assert_eq!(d.range.len(), 1);
}

#[test]
fn steal_amount_is_382_per_mille_rounded_up() {
    assert_eq!(steal_amount(0), 0);
    assert_eq!(steal_amount(1), 1);
    assert_eq!(steal_amount(2), 1);
    assert_eq!(steal_amount(3), 2);
    assert_eq!(steal_amount(1000), 382);
    assert_eq!(steal_amount(1001), 383);
    assert_eq!(steal_amount(24 * MIB), 9613345);
    assert_eq!(steal_amount(u64::MAX), 7046656236157048717);
}

#[test]
fn steal_takes_the_tail_of_the_first_victim() {
    let mut d = Download::new(100 * MIB, 4);
    hand_out_all(&mut d);
    let stolen = d.coordinator.request_work(&mut d.range, MIN_STEAL_BYTES);
    let amount = steal_amount(16 * MIB);
    assert_eq!(amount, 6408897);
    assert_eq!(stolen, Some((5, 32 * MIB - amount..32 * MIB)));
    assert_eq!(d.range.len(), 6);
    assert_eq!(d.range[2], cursor(16 * MIB, 16 * MIB, 32 * MIB - amount));
    assert_eq!(d.range[5], cursor(32 * MIB - amount, 32 * MIB - amount, 32 * MIB));
    assert_eq!(d.coordinator.steal_ptr, 3);
    assert!(!d.coordinator.steal_exhausted);
    assert_eq!(span(&d.range), 96 * MIB);
    assert!(disjoint(&d.range));

    // The next steal begins behind the last victim.
    let stolen = d.coordinator.steal_range(&mut d.range, MIN_STEAL_BYTES);
    let amount = steal_amount(24 * MIB);
    assert_eq!(stolen, Some((6, 56 * MIB - amount..56 * MIB)));
    assert_eq!(d.coordinator.steal_ptr, 4);
}

#[test]
fn steal_goes_round_and_skips_the_seed_segments() {
    let mut range = vec![
        cursor(0, 0, 8 * MIB),
        cursor(8 * MIB, 8 * MIB, 16 * MIB),
        cursor(16 * MIB, 16 * MIB, 32 * MIB),
        cursor(32 * MIB, 56 * MIB, 56 * MIB),
    ];
    let mut c = Coordinator::from_parts(4, 4, 3, false, 56 * MIB);
    let stolen = c.steal_range(&mut range, MIN_STEAL_BYTES);
    let amount = steal_amount(16 * MIB);
    assert_eq!(stolen, Some((4, 32 * MIB - amount..32 * MIB)));
    assert_eq!(range[0], cursor(0, 0, 8 * MIB));
    assert_eq!(range[1], cursor(8 * MIB, 8 * MIB, 16 * MIB));
    assert_eq!(c.steal_ptr, 3);
}

#[test]
fn steal_looks_at_what_is_left() {
    let mut range = vec![
        cursor(0, 0, 8 * MIB),
        cursor(8 * MIB, 8 * MIB, 16 * MIB),
        cursor(16 * MIB, 30 * MIB, 32 * MIB),
    ];
    let mut c = Coordinator::from_parts(3, 3, 2, false, 32 * MIB);
    let stolen = c.steal_range(&mut range, MIN_STEAL_BYTES);
    let amount = steal_amount(2 * MIB);
    assert_eq!(stolen, Some((3, 32 * MIB - amount..32 * MIB)));
    assert_eq!(range[2], cursor(16 * MIB, 30 * MIB, 32 * MIB - amount));
    assert!(range[2].start <= range[2].end);
}

#[test]
fn small_victims_exhaust_stealing() {
    let mut range = vec![
        cursor(0, 0, 8 * MIB),
        cursor(8 * MIB, 8 * MIB, 16 * MIB),
        cursor(16 * MIB, 31 * MIB, 32 * MIB),
        cursor(32 * MIB, 56 * MIB, 56 * MIB),
    ];
    let before = range.clone();
    let mut c = Coordinator::from_parts(4, 4, 2, false, 56 * MIB);
    assert!(c.has_work());
    assert_eq!(c.request_work(&mut range, MIN_STEAL_BYTES), None);
    assert!(c.steal_exhausted);
    assert!(!c.has_work());
    assert_eq!(range, before);
    assert_eq!(c.steal_ptr, 2);

    // Nothing is tried again until a worker has finished.
    range[2] = cursor(16 * MIB, 16 * MIB, 32 * MIB);
    assert_eq!(c.request_work(&mut range, MIN_STEAL_BYTES), None);
    c.reset_steal();
    assert!(c.has_work());
    assert!(c.request_work(&mut range, MIN_STEAL_BYTES).is_some());
}

#[test]
fn fewer_than_three_cursors_are_never_stolen_from() {
    let mut range = vec![cursor(0, 0, 8 * MIB), cursor(8 * MIB, 8 * MIB, 16 * MIB)];
    let mut c = Coordinator::from_parts(2, 2, 2, false, 16 * MIB);
    assert_eq!(c.steal_range(&mut range, 0), None);
    assert!(!c.steal_exhausted);
    assert_eq!(range.len(), 2);
}

#[test]
fn one_worker_never_steals() {
    let mut d = Download::new(100 * MIB, 1);
    loop {
        match d.coordinator.request_work(&mut d.range, MIN_STEAL_BYTES) {
            Some((handle, bytes)) => {
                assert_eq!(bytes.start, d.range[handle].origin);
                let taken = d.advance(handle, bytes.end - bytes.start);
                assert_eq!(taken, bytes.end - bytes.start);
            }
            None => break,
        }
    }
    assert_eq!(d.range.len(), 5);
    assert!(d.coordinator.steal_exhausted);
    assert_eq!(d.bytes_remaining(), 0);
    assert_eq!(done(&d.range), 96 * MIB);
}

#[test]
fn cursors_stay_ordered_and_disjoint() {
    let mut d = Download::new(1000 * MIB + 17, 8);
    let mut downloaded: u64 = 0;
    let mut round: u64 = 0;
    loop {
        round += 1;
        let got = d.coordinator.request_work(&mut d.range, MIN_STEAL_BYTES);
        if got.is_none() {
            d.coordinator.reset_steal();
        }
        let mut moved = false;
        for handle in 0..d.range.len() {
            let len = (handle as u64 * 7919 + round * 104729) % (3 * MIB);
            let before = d.range[handle];
            let taken = d.advance(handle, len);
            assert_eq!(taken, len.min(before.end - before.start));
            downloaded += taken;
            moved = moved || taken > 0;
        }
        for c in &d.range {
            assert!(c.origin <= c.start && c.start <= c.end);
            assert!(c.end <= d.coordinator.total_size);
        }
        assert!(disjoint(&d.range));
        assert_eq!(done(&d.range), downloaded);
        assert_eq!(d.bytes_downloaded(), downloaded);
        assert_eq!(downloaded + d.bytes_remaining(), span(&d.range));
        if d.range.len() >= 3 {
            assert!(2 <= d.coordinator.steal_ptr as usize);
            assert!((d.coordinator.steal_ptr as usize) < d.range.len());
        }
        if got.is_none() && !moved {
            break;
        }
    }
    assert_eq!(d.coordinator.next_index, d.coordinator.max_index);
    assert_eq!(span(&d.range), 1000 * MIB + 17);
    assert_eq!(downloaded, 1000 * MIB + 17);
}

#[test]
fn advance_stops_at_the_end() {
    let mut c = Index::new(10, 20);
    assert_eq!(c.remaining(), 10);
    assert!(!c.is_done());
    assert_eq!(c.advance(4), 4);
    assert_eq!(c, cursor(10, 14, 20));
    assert_eq!(c.advance(100), 6);
    assert_eq!(c, cursor(10, 20, 20));
    assert!(c.is_done());
    assert_eq!(c.advance(1), 0);
    assert_eq!(cursor(0, 9, 5).remaining(), 0);
}

#[test]
fn steal_pointer_is_clamped() {
    assert_eq!(clamp_steal_ptr(7, 0), 7);
    assert_eq!(clamp_steal_ptr(7, 1), 0);
    assert_eq!(clamp_steal_ptr(7, 2), 1);
    assert_eq!(clamp_steal_ptr(0, 2), 0);
    assert_eq!(clamp_steal_ptr(0, 3), 2);
    assert_eq!(clamp_steal_ptr(1, 3), 2);
    assert_eq!(clamp_steal_ptr(2, 3), 2);
    assert_eq!(clamp_steal_ptr(7, 3), 2);
    assert_eq!(clamp_steal_ptr(7, 9), 7);
    assert_eq!(clamp_steal_ptr(9, 9), 8);
}

#[test]
fn steal_pointer_survives_a_save() {
    let range = vec![
        cursor(0, 8 * MIB, 8 * MIB),
        cursor(8 * MIB, 9 * MIB, 16 * MIB),
        cursor(16 * MIB, 16 * MIB, 32 * MIB),
        cursor(32 * MIB, 40 * MIB, 56 * MIB),
        cursor(56 * MIB, 60 * MIB, 96 * MIB),
    ];
    let c = Coordinator::from_parts(5, 5, 3, false, 100 * MIB);
    let anchor = c.prepare_save(&range);
    assert_eq!(anchor, Some(40 * MIB));
    assert_eq!(Coordinator::from_parts(5, 5, 5, false, 100 * MIB).prepare_save(&range), None);

    let d = Download { coordinator: c, range };
    let mut back = Download::decode(&d.encode(), 100 * MIB).unwrap();
    assert_eq!(back.range.len(), 4);
    back.coordinator.restore_steal_ptr(&back.range, anchor);
    assert_eq!(back.coordinator.steal_ptr, 2);
    assert_eq!(back.range[2].start, 40 * MIB);

    back.coordinator.restore_steal_ptr(&back.range, Some(60 * MIB));
    assert_eq!(back.coordinator.steal_ptr, 3);
    back.coordinator.restore_steal_ptr(&back.range, Some(9 * MIB));
    assert_eq!(back.coordinator.steal_ptr, 2);
    back.coordinator.restore_steal_ptr(&back.range, Some(12345));
    assert_eq!(back.coordinator.steal_ptr, 2);
    back.coordinator.restore_steal_ptr(&back.range, None);
    assert_eq!(back.coordinator.steal_ptr, 2);
    back.coordinator.restore_steal_ptr(&back.range[..2], Some(40 * MIB));
    assert_eq!(back.coordinator.steal_ptr, 1);
    back.coordinator.restore_steal_ptr(&back.range[..2], Some(16 * MIB));
    assert_eq!(back.coordinator.steal_ptr, 1);
    back.coordinator.restore_steal_ptr(&[], Some(16 * MIB));
    assert_eq!(back.coordinator.steal_ptr, 0);
}

#[test]
fn pause_at_forty_of_a_hundred_mebibytes() {
    let mut d = Download::new(100 * MIB, 4);
    hand_out_all(&mut d);
    d.advance(0, 8 * MIB);
    d.advance(1, 8 * MIB);
    d.advance(2, 4 * MIB);
    d.advance(4, 16 * MIB);
    assert_eq!(done(&d.range), 36 * MIB);
    assert_eq!(d.bytes_downloaded(), 36 * MIB);
    assert_eq!(d.bytes_remaining(), 60 * MIB);
    let back = Download::decode(&d.encode(), 100 * MIB).unwrap();
    assert_eq!(
        back.range,
        vec![
            cursor(20 * MIB, 20 * MIB, 32 * MIB),
            cursor(32 * MIB, 32 * MIB, 56 * MIB),
            cursor(72 * MIB, 72 * MIB, 96 * MIB),
        ]
    );
    assert_eq!(back.bytes_remaining(), 60 * MIB);
    assert_eq!(back.coordinator, Coordinator::from_parts(5, 5, 2, false, 100 * MIB));
}

#[test]
fn segments_beyond_the_file_are_empty() {
    let mut d = Download::decode(&[0, 3, 2, 0, 0], 12 * MIB).unwrap();
    assert_eq!(d.coordinator.new_range(&mut d.range), Some((0, 0..8 * MIB)));
    assert_eq!(d.coordinator.new_range(&mut d.range), Some((1, 8 * MIB..12 * MIB)));
    assert_eq!(d.coordinator.new_range(&mut d.range), Some((2, 12 * MIB..12 * MIB)));
    assert_eq!(d.coordinator.new_range(&mut d.range), None);
    assert!(disjoint(&d.range));
    assert_eq!(span(&d.range), 12 * MIB);
}

#[test]
fn a_coordinator_outside_the_table_hands_out_nothing_more() {
    let mut range = Vec::new();
    let mut c = Coordinator::new(200, u64::MAX);
    let mut count = 0;
    while let Some((handle, bytes)) = c.request_work(&mut range, u64::MAX) {
        assert_eq!(handle, count);
        assert!(bytes.start < bytes.end);
        count += 1;
    }
    assert_eq!(count, 59);
    assert_eq!(c.next_index, 59);
    assert_eq!(range[58].end, u64::MAX);
    assert_eq!(span(&range), u64::MAX);
    assert!(!c.is_wf());
    assert!(Coordinator::new(59, 0).is_wf());
    assert!(!Coordinator::new(60, 0).is_wf());
    assert!(!Coordinator::from_parts(3, 2, 2, false, 0).is_wf());
}

#[test]
fn advance_of_an_unknown_handle_moves_nothing() {
    let mut d = Download::new(100 * MIB, 4);
    hand_out_all(&mut d);
    let before = d.range.clone();
    assert_eq!(d.advance(5, 10), 0);
    assert_eq!(d.advance(usize::MAX, 10), 0);
    assert_eq!(d.range, before);
}
