use pelican::carats::{consume_and_sort_carats, move_carat_selecting, select};
use pelican::history::CaratSnapshot;

fn carat(index: usize, selection: Option<std::ops::Range<usize>>) -> CaratSnapshot {
    CaratSnapshot::new(index, selection)
}

#[test]
fn carats_are_sorted_and_one_per_index() {
    let tidy = consume_and_sort_carats(&vec![carat(5, None), carat(2, None), carat(5, None), carat(0, None)]);
    assert_eq!(tidy, vec![carat(0, None), carat(2, None), carat(5, None)]);
}

#[test]
fn equal_indexes_keep_their_order() {
    let tidy = consume_and_sort_carats(&vec![carat(4, Some(4..9)), carat(1, None), carat(4, None)]);
    assert_eq!(tidy, vec![carat(1, None), carat(4, Some(4..9))]);
}

#[test]
fn overlapping_selections_merge() {
    let tidy = consume_and_sort_carats(&vec![carat(6, Some(3..7)), carat(3, Some(1..4))]);
    assert_eq!(tidy, vec![carat(7, Some(1..7))]);
}

#[test]
fn a_carat_at_the_start_of_its_selection_stays() {
    let tidy = consume_and_sort_carats(&vec![carat(1, Some(1..4)), carat(5, Some(3..6))]);
    assert_eq!(tidy, vec![carat(1, Some(1..6))]);
}

#[test]
fn touching_selections_do_not_merge() {
    let tidy = consume_and_sort_carats(&vec![carat(4, Some(1..4)), carat(6, Some(4..6))]);
    assert_eq!(tidy, vec![carat(4, Some(1..4)), carat(6, Some(4..6))]);
}

#[test]
fn no_carats_stay_none() {
    assert!(consume_and_sort_carats(&vec![]).is_empty());
}

#[test]
fn selecting_orders_the_ends() {
    let mut c = carat(3, None);
    select(&mut c, 8, 2);
    assert_eq!(c, carat(3, Some(2..8)));
    select(&mut c, 4, 4);
    assert_eq!(c, carat(3, None));
}

#[test]
fn moving_without_a_selection_selects_from_the_start() {
    let mut c = carat(5, None);
    move_carat_selecting(&mut c, 5, 9);
    assert_eq!(c, carat(9, Some(5..9)));
}

#[test]
fn moving_stretches_the_nearer_end() {
    let mut c = carat(9, Some(5..9));
    move_carat_selecting(&mut c, 5, 12);
    assert_eq!(c, carat(12, Some(5..12)));

    let mut c = carat(5, Some(5..9));
    move_carat_selecting(&mut c, 9, 2);
    assert_eq!(c, carat(2, Some(2..9)));
}

#[test]
fn moving_from_the_middle_selects_anew() {
    let mut c = carat(7, Some(5..9));
    move_carat_selecting(&mut c, 3, 8);
    assert_eq!(c, carat(8, Some(3..8)));
}
