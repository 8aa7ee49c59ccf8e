//! Tests of the multi-archive store's routing.

use forest_car::cids::Cid;
use forest_car::many::ManyCar;
use forest_car::plain::PlainCar;

fn cid_bytes(tag: u8) -> Vec<u8> {
    vec![0x01, 0x55, 0x00, 0x04, tag, tag, tag, tag]
}

fn header_frame() -> Vec<u8> {
    let root = cid_bytes(0xaa);
    let mut body = vec![0xa2, 0x65];
    body.extend_from_slice(b"roots");
    body.extend_from_slice(&[0x81, 0xd8, 0x2a, 0x49, 0x00]);
    body.extend_from_slice(&root);
    body.push(0x67);
    body.extend_from_slice(b"version");
    body.push(0x01);
    let mut f = vec![body.len() as u8];
    f.extend_from_slice(&body);
    f
}

fn car_with(blocks: &[(Vec<u8>, Vec<u8>)]) -> PlainCar {
    let mut car = header_frame();
    for (cid, data) in blocks {
        let mut body = cid.clone();
        body.extend_from_slice(data);
        car.push(body.len() as u8);
        car.extend_from_slice(&body);
    }
    PlainCar::new(car).unwrap()
}

#[test]
fn reads_route_to_the_first_archive_holding_the_cid() {
    let mut store = ManyCar::new();
    store.read_only(car_with(&[(cid_bytes(1), b"from the first".to_vec())]));
    store.read_only(car_with(&[
        (cid_bytes(1), b"from the second".to_vec()),
        (cid_bytes(2), b"only here".to_vec()),
    ]));
    assert_eq!(store.len(), 2);
    assert_eq!(
        store.get(&Cid::from_bytes(cid_bytes(1))),
        Some(b"from the first".to_vec())
    );
    assert_eq!(
        store.get(&Cid::from_bytes(cid_bytes(2))),
        Some(b"only here".to_vec())
    );
    assert_eq!(store.get(&Cid::from_bytes(cid_bytes(3))), None);
}

#[test]
fn writes_go_to_the_overlay_and_archives_win_reads() {
    let mut store = ManyCar::new();
    store.read_only(car_with(&[(cid_bytes(1), b"on disk".to_vec())]));
    store.put_keyed(&Cid::from_bytes(cid_bytes(9)), b"overlay bytes");
    assert_eq!(
        store.get(&Cid::from_bytes(cid_bytes(9))),
        Some(b"overlay bytes".to_vec())
    );
    // the archive is queried before the overlay
    store.put_keyed(&Cid::from_bytes(cid_bytes(1)), b"shadowed");
    assert_eq!(
        store.get(&Cid::from_bytes(cid_bytes(1))),
        Some(b"on disk".to_vec())
    );
}
