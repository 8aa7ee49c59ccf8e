//! Tests of the directory loader's plan and its boot-time sweep.

use forest_car::loader::{load_all_forest_cars, load_all_forest_cars_with_cleanup};

fn listing() -> Vec<Vec<u8>> {
    vec![
        b"1712345678901.forest.car.zst".to_vec(),
        b"notes.txt".to_vec(),
        b"99.forest.car.zst.tmp".to_vec(),
        b"1712345678902.forest.car.zst".to_vec(),
        b"archive.car".to_vec(),
        b"5.forest.car.zst.tmp".to_vec(),
    ]
}

#[test]
fn cleanup_sweeps_every_temp_and_loads_every_archive() {
    let plan = load_all_forest_cars_with_cleanup(&listing());
    assert_eq!(
        plan.to_load,
        vec![
            b"1712345678901.forest.car.zst".to_vec(),
            b"1712345678902.forest.car.zst".to_vec(),
        ]
    );
    assert_eq!(
        plan.to_delete,
        vec![b"99.forest.car.zst.tmp".to_vec(), b"5.forest.car.zst.tmp".to_vec()]
    );
}

#[test]
fn without_cleanup_nothing_is_deleted() {
    let plan = load_all_forest_cars(&listing());
    assert_eq!(
        plan.to_load,
        vec![
            b"1712345678901.forest.car.zst".to_vec(),
            b"1712345678902.forest.car.zst".to_vec(),
        ]
    );
    assert!(plan.to_delete.is_empty());
}

#[test]
fn other_entries_are_ignored() {
    let plan = load_all_forest_cars_with_cleanup(&vec![
        b"archive.car".to_vec(),
        b"chain.car.zst".to_vec(),
        b"README".to_vec(),
    ]);
    assert!(plan.to_load.is_empty());
    assert!(plan.to_delete.is_empty());
}
