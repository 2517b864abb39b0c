use lichtgeschwindigkeit::codec::{
    read_bool, read_bools, read_call, read_point, read_points, read_test, read_u32, read_u64,
    read_wall, read_walls, write_bool, write_bools, write_call, write_point, write_points,
    write_test, write_u32, write_u64, write_wall, write_walls, RaycastingCall, TestCase,
    CURRENT_VERSION,
};
use lichtgeschwindigkeit::types::{
    DoorState, DoorType, Point, PolygonType, WallBase, WallDirection, WallHeight, WallSenseType,
};

fn sample_wall(roof: Option<u32>) -> WallBase {
    WallBase {
        p1: Point::new(1000.0f64.to_bits(), 1500.0f64.to_bits()),
        p2: Point::new((-250.5f64).to_bits(), 0.0f64.to_bits()),
        movement: WallSenseType::NORMAL,
        sense: WallSenseType::LIMITED,
        sound: WallSenseType::NONE,
        door: DoorType::DOOR,
        ds: DoorState::LOCKED,
        dir: WallDirection::RIGHT,
        height: WallHeight {
            top: 4.0f64.to_bits(),
            bottom: (-4.0f64).to_bits(),
        },
        roof,
    }
}

fn sample_call() -> RaycastingCall {
    RaycastingCall {
        walls: vec![sample_wall(Some(7)), sample_wall(None)],
        roofs: vec![false, true],
        origin: Point::new(50.0f64.to_bits(), 60.0f64.to_bits()),
        height: 0.0f64.to_bits(),
        radius: 300.0f64.to_bits(),
        distance: 500.0f64.to_bits(),
        density: 12.0f64.to_bits(),
        angle: 360.0f64.to_bits(),
        rotation: 0.0f64.to_bits(),
        polygon_type: PolygonType::SIGHT,
    }
}

#[test]
fn u32_big_endian_bytes() {
    let mut out = Vec::new();
    write_u32(&mut out, 260);
    assert_eq!(out, vec![0, 0, 1, 4]);
    let (v, p) = read_u32(&out, 0).unwrap();
    assert_eq!(v, 260);
    assert_eq!(p, 4);
}

#[test]
fn u32_truncated_rejected() {
    assert!(read_u32(&vec![1, 2, 3], 0).is_none());
    assert!(read_u32(&vec![1, 2, 3, 4], 1).is_none());
}

#[test]
fn u64_matches_ieee_big_endian() {
    let x: f64 = -1234.5625;
    let mut out = Vec::new();
    write_u64(&mut out, x.to_bits());
    assert_eq!(out, x.to_be_bytes().to_vec());
    let (v, p) = read_u64(&out, 0).unwrap();
    assert_eq!(f64::from_bits(v), x);
    assert_eq!(p, 8);
}

#[test]
fn bool_codec_and_bad_byte() {
    let mut out = Vec::new();
    write_bool(&mut out, true);
    write_bool(&mut out, false);
    assert_eq!(out, vec![1, 0]);
    assert_eq!(read_bool(&out, 0).unwrap(), (true, 1));
    assert_eq!(read_bool(&out, 1).unwrap(), (false, 2));
    assert!(read_bool(&vec![2], 0).is_none());
}

#[test]
fn enum_bytes_follow_variant_order() {
    assert_eq!(WallSenseType::NONE.serialize_byte(), 0);
    assert_eq!(WallSenseType::NORMAL.serialize_byte(), 1);
    assert_eq!(WallSenseType::LIMITED.serialize_byte(), 2);
    assert_eq!(DoorType::NONE.serialize_byte(), 0);
    assert_eq!(DoorType::DOOR.serialize_byte(), 1);
    assert_eq!(DoorType::SECRET.serialize_byte(), 2);
    assert_eq!(DoorState::CLOSED.serialize_byte(), 0);
    assert_eq!(DoorState::OPEN.serialize_byte(), 1);
    assert_eq!(DoorState::LOCKED.serialize_byte(), 2);
    assert_eq!(WallDirection::BOTH.serialize_byte(), 0);
    assert_eq!(WallDirection::LEFT.serialize_byte(), 1);
    assert_eq!(WallDirection::RIGHT.serialize_byte(), 2);
    assert_eq!(PolygonType::SIGHT.serialize_byte(), 0);
    assert_eq!(PolygonType::SOUND.serialize_byte(), 1);
}

#[test]
fn enum_try_from_inverts_bytes() {
    assert_eq!(WallSenseType::try_from(2), Ok(WallSenseType::LIMITED));
    assert_eq!(WallSenseType::try_from(3), Err(()));
    assert_eq!(DoorType::try_from(1), Ok(DoorType::DOOR));
    assert_eq!(DoorType::try_from(9), Err(()));
    assert_eq!(DoorState::try_from(0), Ok(DoorState::CLOSED));
    assert_eq!(DoorState::try_from(3), Err(()));
    assert_eq!(WallDirection::try_from(2), Ok(WallDirection::RIGHT));
    assert_eq!(WallDirection::try_from(3), Err(()));
    assert_eq!(PolygonType::try_from(1), Ok(PolygonType::SOUND));
    assert_eq!(PolygonType::try_from(2), Err(()));
}

#[test]
fn point_codec_is_two_big_endian_doubles() {
    let p = Point::new(3.25f64.to_bits(), (-7.5f64).to_bits());
    let mut out = Vec::new();
    write_point(&mut out, p);
    let mut expected = 3.25f64.to_be_bytes().to_vec();
    expected.extend_from_slice(&(-7.5f64).to_be_bytes());
    assert_eq!(out, expected);
    let (q, used) = read_point(&out, 0).unwrap();
    assert_eq!(q, p);
    assert_eq!(used, 16);
}

#[test]
fn wall_record_length_depends_on_roof() {
    let mut with_roof = Vec::new();
    write_wall(&mut with_roof, &sample_wall(Some(3)));
    assert_eq!(with_roof.len(), 59);
    let mut without_roof = Vec::new();
    write_wall(&mut without_roof, &sample_wall(None));
    assert_eq!(without_roof.len(), 55);
}

#[test]
fn wall_round_trip_current_version() {
    let w = sample_wall(Some(3));
    let mut out = Vec::new();
    write_wall(&mut out, &w);
    let (back, used) = read_wall(&out, 0, CURRENT_VERSION).unwrap();
    assert_eq!(back, w);
    assert_eq!(used, out.len());
}

#[test]
fn wall_version_zero_defaults() {
    // A version-0 record holds only endpoints, sense, door, door state and
    // direction.
    let mut bytes = Vec::new();
    bytes.extend_from_slice(&10.0f64.to_be_bytes());
    bytes.extend_from_slice(&20.0f64.to_be_bytes());
    bytes.extend_from_slice(&30.0f64.to_be_bytes());
    bytes.extend_from_slice(&40.0f64.to_be_bytes());
    bytes.push(2); // sense: LIMITED
    bytes.push(0); // door: NONE
    bytes.push(0); // ds: CLOSED
    bytes.push(1); // dir: LEFT
    let (w, used) = read_wall(&bytes, 0, 0).unwrap();
    assert_eq!(used, bytes.len());
    assert_eq!(w.sense, WallSenseType::LIMITED);
    assert_eq!(w.movement, WallSenseType::NORMAL);
    assert_eq!(w.sound, WallSenseType::LIMITED); // falls back to sense
    assert_eq!(w.height.top, f64::INFINITY.to_bits());
    assert_eq!(w.height.bottom, f64::NEG_INFINITY.to_bits());
    assert_eq!(w.roof, None);
}

#[test]
fn wall_version_two_has_height_but_no_roof() {
    // Versions one and two add the height range but none of the later
    // fields.
    let mut bytes = Vec::new();
    bytes.extend_from_slice(&10.0f64.to_be_bytes());
    bytes.extend_from_slice(&20.0f64.to_be_bytes());
    bytes.extend_from_slice(&30.0f64.to_be_bytes());
    bytes.extend_from_slice(&40.0f64.to_be_bytes());
    bytes.push(1); // sense: NORMAL
    bytes.push(2); // door: SECRET
    bytes.push(2); // ds: LOCKED
    bytes.push(0); // dir: BOTH
    bytes.extend_from_slice(&5.0f64.to_be_bytes()); // height.top
    bytes.extend_from_slice(&(-1.0f64).to_be_bytes()); // height.bottom
    let (w, used) = read_wall(&bytes, 0, 2).unwrap();
    assert_eq!(used, bytes.len());
    assert_eq!(w.height.top, 5.0f64.to_bits());
    assert_eq!(w.height.bottom, (-1.0f64).to_bits());
    assert_eq!(w.movement, WallSenseType::NORMAL);
    assert_eq!(w.sound, WallSenseType::NORMAL);
    assert_eq!(w.roof, None);
}

#[test]
fn wall_invalid_enum_byte_rejected() {
    let w = sample_wall(None);
    let mut out = Vec::new();
    write_wall(&mut out, &w);
    // Byte 34 is the sound sense; 7 names no variant.
    out[34] = 7;
    assert!(read_wall(&out, 0, CURRENT_VERSION).is_none());
}

#[test]
fn call_truncated_anywhere_rejected() {
    let c = sample_call();
    let mut out = Vec::new();
    write_call(&mut out, &c);
    for cut in [0, 3, 4, out.len() / 2, out.len() - 1] {
        let partial = out[..cut].to_vec();
        assert!(read_call(&partial, 0, CURRENT_VERSION).is_none());
    }
}

#[test]
fn wall_truncated_rejected() {
    let mut out = Vec::new();
    write_wall(&mut out, &sample_wall(Some(3)));
    out.pop();
    assert!(read_wall(&out, 0, CURRENT_VERSION).is_none());
}

#[test]
fn walls_vector_round_trip() {
    let ws = vec![sample_wall(None), sample_wall(Some(0)), sample_wall(Some(9))];
    let mut out = Vec::new();
    write_walls(&mut out, &ws);
    assert_eq!(&out[0..4], &[0, 0, 0, 3]);
    let (back, used) = read_walls(&out, 0, CURRENT_VERSION).unwrap();
    assert_eq!(back, ws);
    assert_eq!(used, out.len());
}

#[test]
fn empty_walls_vector_is_count_only() {
    let ws: Vec<WallBase> = vec![];
    let mut out = Vec::new();
    write_walls(&mut out, &ws);
    assert_eq!(out, vec![0, 0, 0, 0]);
    let (back, used) = read_walls(&out, 0, CURRENT_VERSION).unwrap();
    assert!(back.is_empty());
    assert_eq!(used, 4);
}

#[test]
fn points_and_bools_vectors_round_trip() {
    let ps = vec![
        Point::new(1.0f64.to_bits(), 2.0f64.to_bits()),
        Point::new(0u64, f64::NAN.to_bits()),
    ];
    let mut out = Vec::new();
    write_points(&mut out, &ps);
    let (back, used) = read_points(&out, 0).unwrap();
    assert_eq!(back, ps);
    assert_eq!(used, out.len());

    let bs = vec![true, false, true, true];
    let mut out2 = Vec::new();
    write_bools(&mut out2, &bs);
    let (back2, used2) = read_bools(&out2, 0).unwrap();
    assert_eq!(back2, bs);
    assert_eq!(used2, out2.len());
}

#[test]
fn call_round_trip_current_version() {
    let c = sample_call();
    let mut out = Vec::new();
    write_call(&mut out, &c);
    let (back, used) = read_call(&out, 0, CURRENT_VERSION).unwrap();
    assert_eq!(used, out.len());
    assert_eq!(back.walls, c.walls);
    assert_eq!(back.roofs, c.roofs);
    assert_eq!(back.origin, c.origin);
    assert_eq!(back.height, c.height);
    assert_eq!(back.radius, c.radius);
    assert_eq!(back.distance, c.distance);
    assert_eq!(back.density, c.density);
    assert_eq!(back.angle, c.angle);
    assert_eq!(back.rotation, c.rotation);
    assert_eq!(back.polygon_type, c.polygon_type);
}

#[test]
fn call_version_one_has_no_roofs_height_or_type() {
    // Version 1: walls, origin, radius, distance, density, angle, rotation.
    let mut bytes = Vec::new();
    bytes.extend_from_slice(&[0, 0, 0, 0]); // no walls
    bytes.extend_from_slice(&7.0f64.to_be_bytes()); // origin.x
    bytes.extend_from_slice(&8.0f64.to_be_bytes()); // origin.y
    for v in [100.0f64, 200.0, 6.0, 360.0, 0.0] {
        bytes.extend_from_slice(&v.to_be_bytes());
    }
    let (c, used) = read_call(&bytes, 0, 1).unwrap();
    assert_eq!(used, bytes.len());
    assert!(c.roofs.is_empty());
    assert_eq!(c.height, 0.0f64.to_bits());
    assert_eq!(c.polygon_type, PolygonType::SIGHT);
    assert_eq!(f64::from_bits(c.radius), 100.0);
    assert_eq!(f64::from_bits(c.rotation), 0.0);
}

#[test]
fn test_case_round_trip() {
    let t = TestCase {
        call: sample_call(),
        los: vec![Point::new(1.0f64.to_bits(), 2.0f64.to_bits())],
        fov: vec![
            Point::new(3.0f64.to_bits(), 4.0f64.to_bits()),
            Point::new(5.0f64.to_bits(), 6.0f64.to_bits()),
        ],
    };
    let mut out = Vec::new();
    write_test(&mut out, &t);
    let (back, used) = read_test(&out, 0, CURRENT_VERSION).unwrap();
    assert_eq!(used, out.len());
    assert_eq!(back.los, t.los);
    assert_eq!(back.fov, t.fov);
    assert_eq!(back.call.walls, t.call.walls);
}
