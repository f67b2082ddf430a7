use tur::downloads::coordinator::Coordinator;
use tur::downloads::download::Download;
use tur::downloads::index::Index;
use tur::downloads::journal::JournalError;

const MIB: u64 = 1024 * 1024;

fn cursor(origin: u64, start: u64, end: u64) -> Index {
    Index { origin, start, end }
}

#[test]
fn empty_journal_is_five_bytes() {
    let d = Download::new(100 * MIB, 4);
    assert_eq!(d.encode(), vec![0, 5, 2, 0, 0]);
}

#[test]
fn journal_writes_varints_least_significant_byte_first() {
    let d = Download {
        coordinator: Coordinator::from_parts(3, 5, 2, true, 100 * MIB),
        range: vec![
            cursor(0, 250, 251),
            cursor(0, 300, 65536),
            cursor(0, 4294967296, 4294967297),
        ],
    };
    assert_eq!(
        d.encode(),
        vec![
            3, 5, 2, 1, 3, // header and count
            250, 251, 251, 0, // 250 and 251
            251, 44, 1, 252, 0, 0, 1, 0, // 300 and 65536
            253, 0, 0, 0, 0, 1, 0, 0, 0, 253, 1, 0, 0, 0, 1, 0, 0, 0,
        ]
    );
}

#[test]
fn journal_matches_bincode_of_the_same_fields() {
    let d = Download {
        coordinator: Coordinator::from_parts(4, 5, 3, false, 100 * MIB),
        range: vec![
            cursor(0, 8 * MIB, 8 * MIB),
            cursor(8 * MIB, 9 * MIB, 16 * MIB),
            cursor(16 * MIB, 16 * MIB, 32 * MIB),
            cursor(32 * MIB, 40 * MIB, 56 * MIB),
        ],
    };
    let cursors: Vec<(usize, usize)> = vec![
        ((9 * MIB) as usize, (16 * MIB) as usize),
        ((16 * MIB) as usize, (32 * MIB) as usize),
        ((40 * MIB) as usize, (56 * MIB) as usize),
    ];
    let expected =
        bincode::encode_to_vec((4u8, 5u8, 3u8, false, cursors), bincode::config::standard())
            .unwrap();
    assert_eq!(d.encode(), expected);
}

#[test]
fn finished_cursors_are_left_out() {
    let d = Download {
        coordinator: Coordinator::from_parts(2, 5, 2, false, 100 * MIB),
        range: vec![cursor(0, 8 * MIB, 8 * MIB), cursor(8 * MIB, 10 * MIB, 16 * MIB)],
    };
    let back = Download::decode(&d.encode(), 100 * MIB).unwrap();
    assert_eq!(back.range, vec![cursor(10 * MIB, 10 * MIB, 16 * MIB)]);
    assert_eq!(back.coordinator, Coordinator::from_parts(2, 5, 0, false, 100 * MIB));
}

#[test]
fn round_trip_is_identity_without_finished_cursors() {
    let d = Download {
        coordinator: Coordinator::from_parts(5, 5, 3, true, 100 * MIB),
        range: vec![
            cursor(0, 0, 8 * MIB),
            cursor(8 * MIB, 8 * MIB, 16 * MIB),
            cursor(16 * MIB, 16 * MIB, 32 * MIB),
            cursor(32 * MIB, 32 * MIB, 56 * MIB),
            cursor(56 * MIB, 56 * MIB, 96 * MIB),
        ],
    };
    assert_eq!(Download::decode(&d.encode(), 100 * MIB), Ok(d));
}

#[test]
fn steal_ptr_is_clamped_on_load() {
    let bytes = vec![5, 5, 9, 0, 3, 0, 1, 1, 2, 2, 3];
    let d = Download::decode(&bytes, 100 * MIB).unwrap();
    assert_eq!(d.coordinator.steal_ptr, 2);
    assert_eq!(d.range, vec![cursor(0, 0, 1), cursor(1, 1, 2), cursor(2, 2, 3)]);

    let bytes = vec![5, 5, 0, 0, 3, 0, 1, 1, 2, 2, 3];
    assert_eq!(Download::decode(&bytes, 100 * MIB).unwrap().coordinator.steal_ptr, 2);

    let bytes = vec![5, 5, 9, 0, 2, 0, 1, 1, 2];
    assert_eq!(Download::decode(&bytes, 100 * MIB).unwrap().coordinator.steal_ptr, 1);

    let bytes = vec![5, 5, 9, 0, 0];
    assert_eq!(Download::decode(&bytes, 100 * MIB).unwrap().coordinator.steal_ptr, 9);
}

#[test]
fn journal_without_cursors_is_valid() {
    let d = Download::decode(&[5, 5, 2, 1, 0], 100 * MIB).unwrap();
    assert!(d.range.is_empty());
    assert_eq!(d.coordinator, Coordinator::from_parts(5, 5, 2, true, 100 * MIB));
}

#[test]
fn bytes_behind_the_journal_are_ignored() {
    let d = Download::decode(&[0, 5, 2, 0, 1, 7, 9, 99, 98], 100 * MIB).unwrap();
    assert_eq!(d.range, vec![cursor(7, 7, 9)]);
}

#[test]
fn longer_forms_of_an_integer_are_read() {
    let d = Download::decode(&[0, 5, 2, 0, 1, 251, 7, 0, 252, 9, 0, 0, 0], 100 * MIB).unwrap();
    assert_eq!(d.range, vec![cursor(7, 7, 9)]);
    let d = Download::decode(
        &[0, 5, 2, 0, 1, 7, 253, 1, 2, 3, 4, 5, 6, 7, 8],
        100 * MIB,
    )
    .unwrap();
    assert_eq!(d.range, vec![cursor(7, 7, 0x0807060504030201)]);
}

#[test]
fn each_journal_error() {
    let total = 100 * MIB;
    assert_eq!(Download::decode(&[], total), Err(JournalError::UnexpectedEnd));
    assert_eq!(Download::decode(&[0, 5, 2], total), Err(JournalError::UnexpectedEnd));
    assert_eq!(Download::decode(&[0, 5, 2, 0], total), Err(JournalError::UnexpectedEnd));
    assert_eq!(Download::decode(&[0, 5, 2, 2, 0], total), Err(JournalError::InvalidBoolean));
    // next_index above max_index
    assert_eq!(Download::decode(&[6, 5, 2, 0, 0], total), Err(JournalError::InvalidHeader));
    // max_index outside the table
    assert_eq!(Download::decode(&[0, 60, 2, 0, 0], total), Err(JournalError::InvalidHeader));
    assert_eq!(Download::decode(&[0, 5, 2, 0, 254], total), Err(JournalError::InvalidInteger));
    assert_eq!(Download::decode(&[0, 5, 2, 0, 255], total), Err(JournalError::InvalidInteger));
    assert_eq!(Download::decode(&[0, 5, 2, 0, 251, 1], total), Err(JournalError::UnexpectedEnd));
    assert_eq!(Download::decode(&[0, 5, 2, 0, 1], total), Err(JournalError::UnexpectedEnd));
    assert_eq!(Download::decode(&[0, 5, 2, 0, 1, 7], total), Err(JournalError::UnexpectedEnd));
    assert_eq!(Download::decode(&[0, 5, 2, 0, 1, 7, 254], total), Err(JournalError::InvalidInteger));
    assert_eq!(Download::decode(&[0, 5, 2, 0, 1, 9, 7], total), Err(JournalError::InvalidCursor));
    assert_eq!(Download::decode(&[0, 5, 2, 0, 2, 7, 9], total), Err(JournalError::UnexpectedEnd));
}

#[test]
fn pause_and_load_keep_what_is_owed() {
    let mut d = Download::new(100 * MIB, 4);
    while d.coordinator.new_range(&mut d.range).is_some() {}
    assert_eq!(d.range.len(), 5);
    assert_eq!(d.advance(0, 8 * MIB), 8 * MIB);
    assert_eq!(d.advance(2, 3 * MIB), 3 * MIB);
    assert_eq!(d.advance(4, 29 * MIB), 29 * MIB);
    let owed = d.bytes_remaining();
    assert_eq!(owed, 56 * MIB);
    let back = Download::decode(&d.encode(), 100 * MIB).unwrap();
    assert_eq!(back.bytes_remaining(), owed);
    assert_eq!(
        back.range,
        vec![
            cursor(8 * MIB, 8 * MIB, 16 * MIB),
            cursor(19 * MIB, 19 * MIB, 32 * MIB),
            cursor(32 * MIB, 32 * MIB, 56 * MIB),
            cursor(85 * MIB, 85 * MIB, 96 * MIB),
        ]
    );
}

#[test]
fn journal_after_the_first_segment() {
    let mut d = Download::new(100 * MIB, 4);
    assert_eq!(d.coordinator.new_range(&mut d.range), Some((0, 0..8 * MIB)));
    assert_eq!(d.coordinator.steal_ptr, 2);
    assert_eq!(d.encode(), vec![1, 5, 2, 0, 1, 0, 252, 0, 0, 128, 0]);
    assert_eq!(d.coordinator.new_range(&mut d.range), Some((1, 8 * MIB..16 * MIB)));
    assert_eq!(d.coordinator.steal_ptr, 2);
    assert_eq!(d.coordinator.new_range(&mut d.range), Some((2, 16 * MIB..32 * MIB)));
    assert_eq!(d.coordinator.steal_ptr, 2);
}
