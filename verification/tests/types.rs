use lichtgeschwindigkeit::types::{
    DoorState, DoorType, Point, PolygonType, WallBase, WallDirection, WallHeight, WallSenseType,
    F64_NEG_INFINITY_BITS, F64_POS_INFINITY_BITS,
};
use lichtgeschwindigkeit::util::{between, between_exclusive};

fn plain_wall() -> WallBase {
    WallBase {
        p1: Point::new(0u64, 0u64),
        p2: Point::new(1.0f64.to_bits(), 0u64),
        movement: WallSenseType::NORMAL,
        sense: WallSenseType::LIMITED,
        sound: WallSenseType::NONE,
        door: DoorType::NONE,
        ds: DoorState::CLOSED,
        dir: WallDirection::BOTH,
        height: WallHeight::default(),
        roof: None,
    }
}

#[test]
fn interior_wall_promoted_to_normal_for_sight() {
    // A wall under a roof tile that is not occluded blocks sight like a
    // normal wall, whatever its stored sense says.
    let mut w = plain_wall();
    w.roof = Some(0);
    let occluded = vec![false];
    assert_eq!(
        w.current_sense(&occluded, PolygonType::SIGHT),
        WallSenseType::NORMAL
    );
    // With the roof occluded the stored sense stands.
    let occluded = vec![true];
    assert_eq!(
        w.current_sense(&occluded, PolygonType::SIGHT),
        WallSenseType::LIMITED
    );
}

#[test]
fn roofless_wall_keeps_stored_sense() {
    let w = plain_wall();
    let occluded = vec![false, false];
    assert_eq!(
        w.current_sense(&occluded, PolygonType::SIGHT),
        WallSenseType::LIMITED
    );
}

#[test]
fn sound_polygons_ignore_the_interior_override() {
    let mut w = plain_wall();
    w.roof = Some(0);
    let occluded = vec![false];
    assert_eq!(
        w.current_sense(&occluded, PolygonType::SOUND),
        WallSenseType::NONE
    );
}

#[test]
fn roof_id_out_of_range_means_no_roof() {
    let mut w = plain_wall();
    w.roof = Some(5);
    let occluded = vec![false];
    assert_eq!(
        w.current_sense(&occluded, PolygonType::SIGHT),
        WallSenseType::LIMITED
    );
}

#[test]
fn open_door_is_ignored() {
    let mut w = plain_wall();
    w.door = DoorType::DOOR;
    w.ds = DoorState::OPEN;
    assert!(w.is_open_door());
    assert!(w.is_ignored(&vec![], PolygonType::SIGHT));
    // A closed or locked door still blocks.
    w.ds = DoorState::LOCKED;
    assert!(!w.is_open_door());
    assert!(!w.is_ignored(&vec![], PolygonType::SIGHT));
}

#[test]
fn senseless_wall_is_ignored() {
    let mut w = plain_wall();
    w.sense = WallSenseType::NONE;
    assert!(w.is_ignored(&vec![], PolygonType::SIGHT));
    assert!(w.is_ignored(&vec![], PolygonType::SOUND)); // sound is NONE too
    w.sound = WallSenseType::NORMAL;
    assert!(!w.is_ignored(&vec![], PolygonType::SOUND));
}

#[test]
fn polygon_type_names() {
    assert_eq!(PolygonType::from_name("sight"), PolygonType::SIGHT);
    assert_eq!(PolygonType::from_name("light"), PolygonType::SIGHT);
    assert_eq!(PolygonType::from_name("sound"), PolygonType::SOUND);
    assert_eq!(PolygonType::from_name("smell"), PolygonType::SIGHT);
    assert_eq!(PolygonType::from_name(""), PolygonType::SIGHT);
}

#[test]
fn default_height_is_unbounded() {
    let h = WallHeight::default();
    assert_eq!(h.top, f64::INFINITY.to_bits());
    assert_eq!(h.bottom, f64::NEG_INFINITY.to_bits());
    assert_eq!(h.top, F64_POS_INFINITY_BITS);
    assert_eq!(h.bottom, F64_NEG_INFINITY_BITS);
}

#[test]
fn point_equality_is_bit_pattern_equality() {
    let a = Point::new(0.0f64.to_bits(), 1.0f64.to_bits());
    let b = Point::new((-0.0f64).to_bits(), 1.0f64.to_bits());
    // 0.0 and -0.0 compare equal as doubles but differ in bits.
    assert_ne!(a, b);
    let c = Point::new(0.0f64.to_bits(), 1.0f64.to_bits());
    assert_eq!(a, c);
}

#[test]
fn between_is_order_insensitive() {
    assert!(between(5, 1, 10));
    assert!(between(5, 10, 1));
    assert!(between(1, 1, 10));
    assert!(between(10, 1, 10));
    assert!(!between(0, 1, 10));
    assert!(!between(11, 10, 1));
    assert!(between(-3, -5, 5));
}

#[test]
fn between_exclusive_drops_the_bounds() {
    assert!(between_exclusive(5, 1, 10));
    assert!(between_exclusive(5, 10, 1));
    assert!(!between_exclusive(1, 1, 10));
    assert!(!between_exclusive(10, 10, 1));
    assert!(!between_exclusive(0, 1, 10));
}
