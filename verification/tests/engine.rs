use banko::engine::{commit, draw, DrawError};
use banko::pool::{contains, undrawn};
use banko::store::{DrawnNumber, NumberStore};

const NOW: u64 = 1_700_000_000;

fn full_store() -> NumberStore {
    let mut store = NumberStore::new();
    for value in 1..=90 {
        store.append(value, NOW).unwrap();
    }
    store
}

fn is_valid_game(values: &[i32]) -> bool {
    values.iter().all(|v| (1..=90).contains(v))
        && (0..values.len()).all(|i| !values[..i].contains(&values[i]))
}

#[test]
fn undrawn_of_nothing_is_one_to_ninety() {
    let left = undrawn(&vec![]);
    assert_eq!(left, (1..=90).collect::<Vec<i32>>());
}

#[test]
fn undrawn_leaves_out_what_was_drawn() {
    let left = undrawn(&vec![90, 1, 45, 45, 0, 91, -3]);
    let mut expected: Vec<i32> = (2..=89).collect();
    expected.retain(|v| *v != 45);
    assert_eq!(left, expected);
    assert_eq!(left.len(), 87);
    assert_eq!(undrawn(&(1..=90).collect()), Vec::<i32>::new());
}

#[test]
fn contains_finds_what_is_there() {
    let values = vec![5, 9, 2];
    assert!(contains(&values, 5));
    assert!(contains(&values, 2));
    assert!(!contains(&values, 3));
    assert!(!contains(&vec![], 0));
}

#[test]
fn draw_five_from_an_empty_store() {
    let mut store = NumberStore::new();
    let drawn = draw(5, &mut store, NOW).unwrap();
    assert_eq!(drawn.len(), 5);
    assert!(is_valid_game(&drawn));
    let all = store.all_drawn();
    assert_eq!(all.len(), 5);
    for (k, record) in all.iter().enumerate() {
        assert_eq!(*record, DrawnNumber { id: k as i32 + 1, value: drawn[k], drawn_at: NOW });
    }
}

#[test]
fn draw_from_a_full_store_is_pool_exhausted() {
    let mut store = full_store();
    let before = store.all_drawn();
    assert_eq!(
        draw(1, &mut store, NOW + 1),
        Err(DrawError::PoolExhausted { requested: 1, available: 0 })
    );
    assert_eq!(store.all_drawn(), before);
}

#[test]
fn draw_zero_is_invalid_count() {
    let mut store = NumberStore::new();
    assert_eq!(
        draw(0, &mut store, NOW),
        Err(DrawError::InvalidCount { requested: 0, available: 90 })
    );
    assert_eq!(store.len(), 0);
    store.append(7, NOW).unwrap();
    store.append(8, NOW).unwrap();
    let before = store.all_drawn();
    assert_eq!(
        draw(0, &mut store, NOW),
        Err(DrawError::InvalidCount { requested: 0, available: 88 })
    );
    assert_eq!(store.all_drawn(), before);
    let mut full = full_store();
    assert_eq!(
        draw(0, &mut full, NOW),
        Err(DrawError::InvalidCount { requested: 0, available: 0 })
    );
}

#[test]
fn draw_more_than_is_left_changes_nothing() {
    let mut store = NumberStore::new();
    draw(85, &mut store, NOW).unwrap();
    let before = store.all_drawn();
    assert_eq!(
        draw(6, &mut store, NOW),
        Err(DrawError::PoolExhausted { requested: 6, available: 5 })
    );
    assert_eq!(
        draw(usize::MAX, &mut store, NOW),
        Err(DrawError::PoolExhausted { requested: usize::MAX, available: 5 })
    );
    assert_eq!(store.all_drawn(), before);
    assert_eq!(draw(5, &mut store, NOW).unwrap().len(), 5);
    assert_eq!(store.len(), 90);
}

#[test]
fn draw_all_ninety_at_once() {
    let mut store = NumberStore::new();
    let mut drawn = draw(90, &mut store, NOW).unwrap();
    assert_eq!(store.values(), drawn);
    drawn.sort();
    assert_eq!(drawn, (1..=90).collect::<Vec<i32>>());
}

#[test]
fn draws_in_a_row_never_repeat_a_number() {
    let mut store = NumberStore::new();
    let mut expected_len = 0;
    for n in [1usize, 2, 3, 5, 8, 13, 21, 34] {
        let drawn = draw(n, &mut store, NOW + n as u64).unwrap();
        expected_len += n;
        assert_eq!(drawn.len(), n);
        assert_eq!(store.len(), expected_len);
        let values = store.values();
        assert!(is_valid_game(&values));
        assert_eq!(&values[expected_len - n..], &drawn[..]);
    }
    assert_eq!(store.len(), 87);
    assert_eq!(undrawn(&store.values()).len(), 3);
}

#[test]
fn draw_takes_only_numbers_of_the_pool() {
    let mut store = NumberStore::new();
    for value in [3, 30, 60, 89] {
        store.append(value, NOW).unwrap();
    }
    let left = undrawn(&store.values());
    let drawn = draw(40, &mut store, NOW).unwrap();
    for value in &drawn {
        assert!(left.contains(value));
    }
    assert!(is_valid_game(&store.values()));
}

#[test]
fn draw_picks_at_random() {
    let mut seen = Vec::new();
    for _ in 0..40 {
        let mut store = NumberStore::new();
        let drawn = draw(3, &mut store, NOW).unwrap();
        if !seen.contains(&drawn) {
            seen.push(drawn);
        }
    }
    assert!(seen.len() > 1);
}

#[test]
fn two_writers_in_turn_share_what_is_left() {
    for first_goes_first in [true, false] {
        let mut store = NumberStore::new();
        draw(80, &mut store, NOW).unwrap();
        let (mut first_left, mut second_left) = (4usize, 6usize);
        let mut turn = first_goes_first;
        while first_left + second_left > 0 {
            let left = if turn { &mut first_left } else { &mut second_left };
            if *left > 0 {
                let n = if *left > 1 { 2 } else { 1 };
                assert_eq!(draw(n, &mut store, NOW).unwrap().len(), n);
                *left -= n;
            }
            turn = !turn;
        }
        let mut values = store.values();
        assert!(is_valid_game(&values));
        values.sort();
        assert_eq!(values, (1..=90).collect::<Vec<i32>>());
    }
}

#[test]
fn two_draws_within_what_is_left_both_succeed() {
    let mut store = NumberStore::new();
    draw(60, &mut store, NOW).unwrap();
    let first = draw(12, &mut store, NOW + 1).unwrap();
    let second = draw(18, &mut store, NOW + 2).unwrap();
    assert_eq!(store.len(), 90);
    for value in &first {
        assert!(!second.contains(value));
    }
    assert!(is_valid_game(&store.values()));
}

#[test]
fn commit_appends_in_order() {
    let mut store = NumberStore::new();
    store.append(50, NOW).unwrap();
    assert_eq!(commit(&mut store, &vec![7, 90, 1], NOW + 3), Ok(()));
    assert_eq!(
        store.all_drawn(),
        vec![
            DrawnNumber { id: 1, value: 50, drawn_at: NOW },
            DrawnNumber { id: 2, value: 7, drawn_at: NOW + 3 },
            DrawnNumber { id: 3, value: 90, drawn_at: NOW + 3 },
            DrawnNumber { id: 4, value: 1, drawn_at: NOW + 3 },
        ]
    );
    assert_eq!(commit(&mut store, &vec![], NOW), Ok(()));
    assert_eq!(store.len(), 4);
}

#[test]
fn commit_keeps_what_went_in_before_a_failure() {
    let rows = vec![DrawnNumber { id: i32::MAX - 2, value: 9, drawn_at: NOW }];
    let mut store = NumberStore::from_records(rows).unwrap();
    assert_eq!(
        commit(&mut store, &vec![1, 2, 3, 4], NOW + 1),
        Err(DrawError::Persistence { added: 2 })
    );
    assert_eq!(
        store.all_drawn(),
        vec![
            DrawnNumber { id: i32::MAX - 2, value: 9, drawn_at: NOW },
            DrawnNumber { id: i32::MAX - 1, value: 1, drawn_at: NOW + 1 },
            DrawnNumber { id: i32::MAX, value: 2, drawn_at: NOW + 1 },
        ]
    );
    assert_eq!(commit(&mut store, &vec![5], NOW), Err(DrawError::Persistence { added: 0 }));
    assert_eq!(store.len(), 3);
}

#[test]
fn draw_reports_partial_progress() {
    let rows = vec![DrawnNumber { id: i32::MAX - 1, value: 9, drawn_at: NOW }];
    let mut store = NumberStore::from_records(rows).unwrap();
    assert_eq!(draw(3, &mut store, NOW), Err(DrawError::Persistence { added: 1 }));
    let values = store.values();
    assert_eq!(values.len(), 2);
    assert!(is_valid_game(&values));
    assert_eq!(draw(1, &mut store, NOW), Err(DrawError::Persistence { added: 0 }));
    assert_eq!(store.values(), values);
}

#[test]
fn messages_name_the_count_and_the_bound() {
    assert_eq!(
        DrawError::InvalidCount { requested: 0, available: 88 }.message(),
        "Cannot add 0 numbers: the count must be at least 1 and at most 88"
    );
    assert_eq!(
        DrawError::PoolExhausted { requested: 120, available: 7 }.message(),
        "Cannot add 120 numbers: the pool holds only 7"
    );
    assert_eq!(
        DrawError::Persistence { added: 2 }.message(),
        "The store failed after 2 numbers were added"
    );
}
