use pelican::history::CaratSnapshot;

#[test]
fn carat_snapshot_test_carat_snapshot() {
    let snapshot = CaratSnapshot::new(5, None);
    assert_eq!(snapshot.character_index(), 5);
    assert_eq!(snapshot.selection(), &None);

    let snapshot = CaratSnapshot::new(3, Some(2..5));
    assert_eq!(snapshot.character_index(), 3);
    assert_eq!(snapshot.selection(), &Some(2..5));
}

#[test]
fn mod_test_carat_snapshot() {
    let snapshot = CaratSnapshot::new(5, None);
    assert_eq!(snapshot.character_index(), 5);
    assert_eq!(snapshot.selection(), &None);

    let snapshot = CaratSnapshot::new(3, Some(2..5));
    assert_eq!(snapshot.character_index(), 3);
    assert_eq!(snapshot.selection(), &Some(2..5));
}

#[test]
fn test_carat_snapshot_clone() {
    let snapshot = CaratSnapshot::new(5, None);
    let snapshot_clone = snapshot.clone();
    assert_eq!(snapshot, snapshot_clone);
}

#[test]
fn test_selection_intersects() {
    // 1 [     ]
    // 2 [     ]
    let snapshot = CaratSnapshot::new(5, None);
    let snapshot_other = CaratSnapshot::new(5, None);
    assert!(!snapshot.selection_intersects(&snapshot_other));

    // 1 [     ]
    // 2 *
    let snapshot = CaratSnapshot::new(5, None);
    let snapshot_other = CaratSnapshot::new(5, Some(2..5));
    assert!(!snapshot.selection_intersects(&snapshot_other));

    // 1 *
    // 2 [     ]
    let snapshot = CaratSnapshot::new(5, Some(2..5));
    let snapshot_other = CaratSnapshot::new(5, None);
    assert!(!snapshot.selection_intersects(&snapshot_other));

    // 1 [  ---]
    // 2 [  ---]
    let snapshot = CaratSnapshot::new(5, Some(2..5));
    let snapshot_other = CaratSnapshot::new(5, Some(2..5));
    assert!(snapshot.selection_intersects(&snapshot_other));

    // 1 [  ---]
    // 2 [   ---]
    let snapshot = CaratSnapshot::new(5, Some(2..5));
    let snapshot_other = CaratSnapshot::new(5, Some(3..6));
    assert!(snapshot.selection_intersects(&snapshot_other));

    // 1 [  ---]
    // 2 [ --- ]
    let snapshot = CaratSnapshot::new(5, Some(2..5));
    let snapshot_other = CaratSnapshot::new(5, Some(1..4));
    assert!(snapshot.selection_intersects(&snapshot_other));

    // 1 [--   ]
    // 2 [   --]
    let snapshot = CaratSnapshot::new(5, Some(0..2));
    let snapshot_other = CaratSnapshot::new(5, Some(3..5));
    assert!(!snapshot.selection_intersects(&snapshot_other));

    // 1 [--   ]
    // 2 [  ---]
    let snapshot = CaratSnapshot::new(5, Some(0..2));
    let snapshot_other = CaratSnapshot::new(5, Some(2..4));
    assert!(!snapshot.selection_intersects(&snapshot_other));
}

#[test]
fn selection_intersects_is_symmetric() {
    let a = CaratSnapshot::new(0, Some(1..4));
    let b = CaratSnapshot::new(0, Some(3..8));
    assert_eq!(a.selection_intersects(&b), b.selection_intersects(&a));
    let c = CaratSnapshot::new(0, Some(4..8));
    assert!(!a.selection_intersects(&c));
    assert!(!c.selection_intersects(&a));
}

#[test]
fn snapshots_differ_in_index_or_selection() {
    assert_ne!(CaratSnapshot::new(1, None), CaratSnapshot::new(2, None));
    assert_ne!(CaratSnapshot::new(1, None), CaratSnapshot::new(1, Some(0..1)));
    assert_ne!(CaratSnapshot::new(1, Some(0..2)), CaratSnapshot::new(1, Some(0..1)));
    assert_eq!(CaratSnapshot::new(1, Some(0..2)), CaratSnapshot::new(1, Some(0..2)));
}
