use lichtgeschwindigkeit::codec::{write_call, RaycastingCall, TestCase};
use lichtgeschwindigkeit::envelope::{
    deserialize_ascii85, deserialize_test_ascii85, serialize_ascii85, serialize_test_ascii85,
    EnvelopeError,
};
use lichtgeschwindigkeit::types::{
    DoorState, DoorType, Point, PolygonType, WallBase, WallDirection, WallHeight, WallSenseType,
};

fn sample_call() -> RaycastingCall {
    let wall = WallBase {
        p1: Point::new(1100.0f64.to_bits(), 900.0f64.to_bits()),
        p2: Point::new(1300.0f64.to_bits(), 900.0f64.to_bits()),
        movement: WallSenseType::NORMAL,
        sense: WallSenseType::NORMAL,
        sound: WallSenseType::NORMAL,
        door: DoorType::NONE,
        ds: DoorState::CLOSED,
        dir: WallDirection::BOTH,
        height: WallHeight::default(),
        roof: None,
    };
    RaycastingCall {
        walls: vec![wall],
        roofs: vec![true],
        origin: Point::new(1200.0f64.to_bits(), 1000.0f64.to_bits()),
        height: 0.0f64.to_bits(),
        radius: 300.0f64.to_bits(),
        distance: 600.0f64.to_bits(),
        density: 12.0f64.to_bits(),
        angle: 360.0f64.to_bits(),
        rotation: 0.0f64.to_bits(),
        polygon_type: PolygonType::SIGHT,
    }
}

#[test]
fn envelope_round_trip() {
    let call = sample_call();
    let text = serialize_ascii85(&call);
    assert!(text.starts_with("<~"));
    assert!(text.ends_with("~>"));
    let back = deserialize_ascii85(&text).unwrap();
    assert_eq!(back.walls, call.walls);
    assert_eq!(back.roofs, call.roofs);
    assert_eq!(back.origin, call.origin);
    assert_eq!(back.height, call.height);
    assert_eq!(back.radius, call.radius);
    assert_eq!(back.distance, call.distance);
    assert_eq!(back.density, call.density);
    assert_eq!(back.angle, call.angle);
    assert_eq!(back.rotation, call.rotation);
    assert_eq!(back.polygon_type, call.polygon_type);
}

#[test]
fn envelope_carries_version_tag_and_compressed_body() {
    let call = sample_call();
    let text = serialize_ascii85(&call);
    let framed = ascii85::decode(&text).unwrap();
    // Byte 0 is the version tag, in the clear inside the base-85 text.
    assert_eq!(framed[0], 3);
    // The body is a zlib stream (0x78 header), not the raw payload.
    let mut payload = Vec::new();
    write_call(&mut payload, &call);
    assert_ne!(&framed[1..], &payload[..]);
    assert_eq!(framed[1], 0x78);
    let (restored, _) = yazi::decompress(&framed[1..], yazi::Format::Zlib).unwrap();
    assert_eq!(restored, payload);
}

#[test]
fn bad_base85_text_rejected() {
    // Control characters are outside the base-85 alphabet.
    let r = deserialize_ascii85("ab\u{0001}cd");
    assert_eq!(r.unwrap_err(), EnvelopeError::BadAscii85);
}

#[test]
fn empty_stream_rejected() {
    let text = ascii85::encode(&[]);
    let r = deserialize_ascii85(&text);
    assert_eq!(r.unwrap_err(), EnvelopeError::Malformed);
}

#[test]
fn unknown_version_rejected() {
    let text = ascii85::encode(&[9, 1, 2, 3]);
    let r = deserialize_ascii85(&text);
    assert_eq!(r.unwrap_err(), EnvelopeError::UnknownVersion);
}

#[test]
fn corrupt_compression_rejected() {
    // Version byte is fine, but the body is not a zlib stream.
    let text = ascii85::encode(&[3, 1, 2, 3]);
    let r = deserialize_ascii85(&text);
    assert_eq!(r.unwrap_err(), EnvelopeError::BadCompression);
}

#[test]
fn truncated_payload_rejected() {
    // A well-formed envelope whose payload announces one wall but ends.
    let payload = [0u8, 0, 0, 1];
    let mut framed = yazi::compress(&payload, yazi::Format::Zlib, yazi::CompressionLevel::BestSize)
        .unwrap();
    framed.insert(0, 3);
    let text = ascii85::encode(&framed);
    let r = deserialize_ascii85(&text);
    assert_eq!(r.unwrap_err(), EnvelopeError::Malformed);
}

#[test]
fn test_case_envelope_round_trip() {
    let t = TestCase {
        call: sample_call(),
        los: vec![
            Point::new(900.0f64.to_bits(), 900.0f64.to_bits()),
            Point::new(1500.0f64.to_bits(), 900.0f64.to_bits()),
            Point::new(1200.0f64.to_bits(), 1600.0f64.to_bits()),
        ],
        fov: vec![
            Point::new(1100.0f64.to_bits(), 900.0f64.to_bits()),
            Point::new(1300.0f64.to_bits(), 900.0f64.to_bits()),
            Point::new(1200.0f64.to_bits(), 1300.0f64.to_bits()),
        ],
    };
    let text = serialize_test_ascii85(&t);
    let back = deserialize_test_ascii85(&text).unwrap();
    assert_eq!(back.los, t.los);
    assert_eq!(back.fov, t.fov);
    assert_eq!(back.call.walls, t.call.walls);
    assert_eq!(back.call.origin, t.call.origin);
}

#[test]
fn request_envelope_read_as_test_case_rejected() {
    // A bare request has no polygon vectors behind it, so reading it as a
    // recorded test case must fail rather than invent data.
    let text = serialize_ascii85(&sample_call());
    let r = deserialize_test_ascii85(&text);
    assert_eq!(r.unwrap_err(), EnvelopeError::Malformed);
}

#[test]
fn overflowing_base85_group_rejected() {
    // A group of top digits names a value beyond 32 bits; the decoder's
    // accumulator cannot take it, so the text is rejected up front.
    assert_eq!(
        deserialize_ascii85("uuuuu").unwrap_err(),
        EnvelopeError::BadAscii85
    );
    assert_eq!(
        deserialize_ascii85("<~uuuuu~>").unwrap_err(),
        EnvelopeError::BadAscii85
    );
}

#[test]
fn overflowing_padded_group_rejected() {
    // A single top digit overflows at its own weight already.
    assert_eq!(deserialize_ascii85("u").unwrap_err(), EnvelopeError::BadAscii85);
    // The digit 's' fits by itself but overflows once the decoder pads the
    // group out; 'r', one below it, stays within 32 bits and reaches the
    // decoder (an empty stream, hence malformed).
    assert_eq!(deserialize_ascii85("s").unwrap_err(), EnvelopeError::BadAscii85);
    assert_eq!(deserialize_ascii85("r").unwrap_err(), EnvelopeError::Malformed);
}

#[test]
fn largest_fitting_group_still_decodes() {
    // The all-ones 32-bit group is the largest that fits; it must reach
    // the later stages rather than be rejected as text.
    let text = ascii85::encode(&[0xFF, 0xFF, 0xFF, 0xFF]);
    let r = deserialize_ascii85(&text);
    assert_eq!(r.unwrap_err(), EnvelopeError::UnknownVersion); // version byte 255
}

#[test]
fn non_ascii_text_rejected() {
    assert_eq!(
        deserialize_ascii85("caf\u{e9}").unwrap_err(),
        EnvelopeError::BadAscii85
    );
}

#[test]
fn interior_whitespace_is_tolerated() {
    // The decoder skips ASCII whitespace between digits; a line-wrapped
    // envelope decodes like the unwrapped one.
    let call = sample_call();
    let text = serialize_ascii85(&call);
    let mut wrapped = String::new();
    for (i, c) in text.chars().enumerate() {
        if i == 7 {
            wrapped.push('\n');
        }
        wrapped.push(c);
    }
    let back = deserialize_ascii85(&wrapped).unwrap();
    assert_eq!(back.walls, call.walls);
    assert_eq!(back.origin, call.origin);
}
