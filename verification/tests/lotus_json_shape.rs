//! Tests of the JSON shape of byte vectors: empty travels as absent.

use forest_car::lotus_json::{from_lotus_json, into_lotus_json, VecU8LotusJson};

#[test]
fn nonempty_bytes_are_present() {
    let json = into_lotus_json(Vec::from_iter(*b"hello world!"));
    assert_eq!(from_lotus_json(json), Vec::from_iter(*b"hello world!"));
}

#[test]
fn empty_bytes_travel_as_absent() {
    let json = into_lotus_json(Vec::new());
    assert_eq!(from_lotus_json(json), Vec::new());
    let absent = VecU8LotusJson::absent();
    assert_eq!(from_lotus_json(absent), Vec::new());
}

#[test]
fn present_bytes_round_trip_through_the_json_form() {
    let json = VecU8LotusJson::from_bytes(vec![1, 2, 3]);
    assert_eq!(from_lotus_json(json), vec![1, 2, 3]);
}
