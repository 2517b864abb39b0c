//! Binary payload format of the persisted computation requests.
//!
//! Every field is big-endian; doubles travel as their 8-byte IEEE-754 bit
//! patterns, counted vectors carry a `u32` length prefix, enums one byte in
//! variant order.  `spec_ser_*` gives the exact byte sequence a value
//! serializes to, `spec_parse_*` the exact parse of a byte stream; the
//! executable functions are proved equal to them, and the `lemma_parse_*`
//! family proves that parsing inverts printing.

use vstd::prelude::*;

use crate::types::{DoorState, DoorType, Point, PolygonType, WallBase, WallDirection,
    WallHeight, WallSenseType};

verus! {

/// Version tag written in front of every fresh envelope.
pub const CURRENT_VERSION: u8 = 3;

// ---------------------------------------------------------------------------
// Primitives: bytes, bools, big-endian u32 / u64
// ---------------------------------------------------------------------------

pub open spec fn spec_parse_u8(s: Seq<u8>, pos: int) -> Option<(u8, int)> {
    if 0 <= pos && pos + 1 <= s.len() {
        Some((s[pos], pos + 1))
    } else {
        None
    }
}

pub open spec fn spec_ser_bool(b: bool) -> Seq<u8> {
    seq![if b { 1u8 } else { 0u8 }]
}

pub open spec fn spec_parse_bool(s: Seq<u8>, pos: int) -> Option<(bool, int)> {
    match spec_parse_u8(s, pos) {
        None => None,
        Some((b, p)) => if b == 0 {
            Some((false, p))
        } else if b == 1 {
            Some((true, p))
        } else {
            None
        },
    }
}

pub open spec fn spec_u32_of_bytes(b0: u8, b1: u8, b2: u8, b3: u8) -> u32 {
    ((b0 as u32) << 24) | ((b1 as u32) << 16) | ((b2 as u32) << 8) | (b3 as u32)
}

pub open spec fn spec_ser_u32(v: u32) -> Seq<u8> {
    seq![
        ((v >> 24) & 0xff) as u8,
        ((v >> 16) & 0xff) as u8,
        ((v >> 8) & 0xff) as u8,
        (v & 0xff) as u8,
    ]
}

pub open spec fn spec_parse_u32(s: Seq<u8>, pos: int) -> Option<(u32, int)> {
    if 0 <= pos && pos + 4 <= s.len() {
        Some((spec_u32_of_bytes(s[pos], s[pos + 1], s[pos + 2], s[pos + 3]), pos + 4))
    } else {
        None
    }
}

pub open spec fn spec_u64_of_bytes(b0: u8, b1: u8, b2: u8, b3: u8, b4: u8, b5: u8, b6: u8, b7: u8) -> u64 {
    ((b0 as u64) << 56) | ((b1 as u64) << 48) | ((b2 as u64) << 40) | ((b3 as u64) << 32)
        | ((b4 as u64) << 24) | ((b5 as u64) << 16) | ((b6 as u64) << 8) | (b7 as u64)
}

pub open spec fn spec_ser_u64(v: u64) -> Seq<u8> {
    seq![
        ((v >> 56) & 0xff) as u8,
        ((v >> 48) & 0xff) as u8,
        ((v >> 40) & 0xff) as u8,
        ((v >> 32) & 0xff) as u8,
        ((v >> 24) & 0xff) as u8,
        ((v >> 16) & 0xff) as u8,
        ((v >> 8) & 0xff) as u8,
        (v & 0xff) as u8,
    ]
}

pub open spec fn spec_parse_u64(s: Seq<u8>, pos: int) -> Option<(u64, int)> {
    if 0 <= pos && pos + 8 <= s.len() {
        Some((
            spec_u64_of_bytes(
                s[pos], s[pos + 1], s[pos + 2], s[pos + 3],
                s[pos + 4], s[pos + 5], s[pos + 6], s[pos + 7],
            ),
            pos + 8,
        ))
    } else {
        None
    }
}

proof fn lemma_u32_bytes_round_trip(v: u32)
    ensures
        spec_u32_of_bytes(
            ((v >> 24) & 0xff) as u8,
            ((v >> 16) & 0xff) as u8,
            ((v >> 8) & 0xff) as u8,
            (v & 0xff) as u8,
        ) == v,
{
    assert(((((v >> 24) & 0xff) as u8 as u32) << 24) | ((((v >> 16) & 0xff) as u8 as u32) << 16)
        | ((((v >> 8) & 0xff) as u8 as u32) << 8) | ((v & 0xff) as u8 as u32) == v) by (bit_vector);
}

proof fn lemma_u64_bytes_round_trip(v: u64)
    ensures
        spec_u64_of_bytes(
            ((v >> 56) & 0xff) as u8,
            ((v >> 48) & 0xff) as u8,
            ((v >> 40) & 0xff) as u8,
            ((v >> 32) & 0xff) as u8,
            ((v >> 24) & 0xff) as u8,
            ((v >> 16) & 0xff) as u8,
            ((v >> 8) & 0xff) as u8,
            (v & 0xff) as u8,
        ) == v,
{
    assert(((((v >> 56) & 0xff) as u8 as u64) << 56) | ((((v >> 48) & 0xff) as u8 as u64) << 48)
        | ((((v >> 40) & 0xff) as u8 as u64) << 40) | ((((v >> 32) & 0xff) as u8 as u64) << 32)
        | ((((v >> 24) & 0xff) as u8 as u64) << 24) | ((((v >> 16) & 0xff) as u8 as u64) << 16)
        | ((((v >> 8) & 0xff) as u8 as u64) << 8) | ((v & 0xff) as u8 as u64) == v) by (bit_vector);
}

/// Parsing a serialized `bool` from the middle of any stream yields the
/// value back and consumes exactly its byte.
pub proof fn lemma_parse_bool_of_ser(s: Seq<u8>, pos: int, v: bool)
    requires
        0 <= pos,
        pos + 1 <= s.len(),
        s.subrange(pos, pos + 1) == spec_ser_bool(v),
    ensures
        spec_parse_bool(s, pos) == Some((v, pos + 1)),
{
    assert(s[pos] == spec_ser_bool(v)[0]);
}

/// Parsing a serialized big-endian `u32` from the middle of any stream
/// yields the value back and consumes exactly its four bytes.
pub proof fn lemma_parse_u32_of_ser(s: Seq<u8>, pos: int, v: u32)
    requires
        0 <= pos,
        pos + 4 <= s.len(),
        s.subrange(pos, pos + 4) == spec_ser_u32(v),
    ensures
        spec_parse_u32(s, pos) == Some((v, pos + 4)),
{
    assert forall|i: int| 0 <= i < 4 implies s[pos + i] == spec_ser_u32(v)[i] by {
        assert(s.subrange(pos, pos + 4)[i] == s[pos + i]);
    }
    lemma_u32_bytes_round_trip(v);
}

/// Parsing a serialized big-endian `u64` from the middle of any stream
/// yields the value back and consumes exactly its eight bytes.
pub proof fn lemma_parse_u64_of_ser(s: Seq<u8>, pos: int, v: u64)
    requires
        0 <= pos,
        pos + 8 <= s.len(),
        s.subrange(pos, pos + 8) == spec_ser_u64(v),
    ensures
        spec_parse_u64(s, pos) == Some((v, pos + 8)),
{
    assert forall|i: int| 0 <= i < 8 implies s[pos + i] == spec_ser_u64(v)[i] by {
        assert(s.subrange(pos, pos + 8)[i] == s[pos + i]);
    }
    lemma_u64_bytes_round_trip(v);
}

// ---------------------------------------------------------------------------
// Executable primitives
// ---------------------------------------------------------------------------

pub fn write_u8(out: &mut Vec<u8>, v: u8)
    ensures
        final(out)@ == old(out)@ + seq![v],
{
    out.push(v);
    assert(out@ =~= old(out)@ + seq![v]);
}

pub fn write_bool(out: &mut Vec<u8>, v: bool)
    ensures
        final(out)@ == old(out)@ + spec_ser_bool(v),
{
    out.push(if v { 1 } else { 0 });
    assert(out@ =~= old(out)@ + spec_ser_bool(v));
}

pub fn write_u32(out: &mut Vec<u8>, v: u32)
    ensures
        final(out)@ == old(out)@ + spec_ser_u32(v),
{
    out.push(((v >> 24) & 0xff) as u8);
    out.push(((v >> 16) & 0xff) as u8);
    out.push(((v >> 8) & 0xff) as u8);
    out.push((v & 0xff) as u8);
    assert(out@ =~= old(out)@ + spec_ser_u32(v));
}

pub fn write_u64(out: &mut Vec<u8>, v: u64)
    ensures
        final(out)@ == old(out)@ + spec_ser_u64(v),
{
    out.push(((v >> 56) & 0xff) as u8);
    out.push(((v >> 48) & 0xff) as u8);
    out.push(((v >> 40) & 0xff) as u8);
    out.push(((v >> 32) & 0xff) as u8);
    out.push(((v >> 24) & 0xff) as u8);
    out.push(((v >> 16) & 0xff) as u8);
    out.push(((v >> 8) & 0xff) as u8);
    out.push((v & 0xff) as u8);
    assert(out@ =~= old(out)@ + spec_ser_u64(v));
}

pub fn read_u8(s: &Vec<u8>, pos: usize) -> (r: Option<(u8, usize)>)
    ensures
        match r {
            Some((v, p)) => spec_parse_u8(s@, pos as int) == Some((v, p as int)),
            None => spec_parse_u8(s@, pos as int) is None,
        },
{
    if pos < s.len() {
        Some((s[pos], pos + 1))
    } else {
        None
    }
}

pub fn read_bool(s: &Vec<u8>, pos: usize) -> (r: Option<(bool, usize)>)
    ensures
        match r {
            Some((v, p)) => spec_parse_bool(s@, pos as int) == Some((v, p as int)),
            None => spec_parse_bool(s@, pos as int) is None,
        },
{
    match read_u8(s, pos) {
        None => None,
        Some((b, p)) => {
            if b == 0 {
                Some((false, p))
            } else if b == 1 {
                Some((true, p))
            } else {
                None
            }
        },
    }
}

pub fn read_u32(s: &Vec<u8>, pos: usize) -> (r: Option<(u32, usize)>)
    ensures
        match r {
            Some((v, p)) => spec_parse_u32(s@, pos as int) == Some((v, p as int)),
            None => spec_parse_u32(s@, pos as int) is None,
        },
{
    if s.len() < 4 || pos > s.len() - 4 {
        return None;
    }
    let v: u32 = ((s[pos] as u32) << 24) | ((s[pos + 1] as u32) << 16)
        | ((s[pos + 2] as u32) << 8) | (s[pos + 3] as u32);
    Some((v, pos + 4))
}

pub fn read_u64(s: &Vec<u8>, pos: usize) -> (r: Option<(u64, usize)>)
    ensures
        match r {
            Some((v, p)) => spec_parse_u64(s@, pos as int) == Some((v, p as int)),
            None => spec_parse_u64(s@, pos as int) is None,
        },
{
    if s.len() < 8 || pos > s.len() - 8 {
        return None;
    }
    let v: u64 = ((s[pos] as u64) << 56) | ((s[pos + 1] as u64) << 48)
        | ((s[pos + 2] as u64) << 40) | ((s[pos + 3] as u64) << 32)
        | ((s[pos + 4] as u64) << 24) | ((s[pos + 5] as u64) << 16)
        | ((s[pos + 6] as u64) << 8) | (s[pos + 7] as u64);
    Some((v, pos + 8))
}

// ---------------------------------------------------------------------------
// Enums: one byte each, in variant order
// ---------------------------------------------------------------------------

pub open spec fn spec_parse_door_type(s: Seq<u8>, pos: int) -> Option<(DoorType, int)> {
    match spec_parse_u8(s, pos) {
        None => None,
        Some((b, p)) => match DoorType::spec_try_from(b as usize) {
            Ok(e) => Some((e, p)),
            Err(_) => None,
        },
    }
}

pub open spec fn spec_parse_door_state(s: Seq<u8>, pos: int) -> Option<(DoorState, int)> {
    match spec_parse_u8(s, pos) {
        None => None,
        Some((b, p)) => match DoorState::spec_try_from(b as usize) {
            Ok(e) => Some((e, p)),
            Err(_) => None,
        },
    }
}

pub open spec fn spec_parse_sense(s: Seq<u8>, pos: int) -> Option<(WallSenseType, int)> {
    match spec_parse_u8(s, pos) {
        None => None,
        Some((b, p)) => match WallSenseType::spec_try_from(b as usize) {
            Ok(e) => Some((e, p)),
            Err(_) => None,
        },
    }
}

pub open spec fn spec_parse_direction(s: Seq<u8>, pos: int) -> Option<(WallDirection, int)> {
    match spec_parse_u8(s, pos) {
        None => None,
        Some((b, p)) => match WallDirection::spec_try_from(b as usize) {
            Ok(e) => Some((e, p)),
            Err(_) => None,
        },
    }
}

pub open spec fn spec_parse_polygon_type(s: Seq<u8>, pos: int) -> Option<(PolygonType, int)> {
    match spec_parse_u8(s, pos) {
        None => None,
        Some((b, p)) => match PolygonType::spec_try_from(b as usize) {
            Ok(e) => Some((e, p)),
            Err(_) => None,
        },
    }
}

pub fn read_door_type(s: &Vec<u8>, pos: usize) -> (r: Option<(DoorType, usize)>)
    ensures
        match r {
            Some((v, p)) => spec_parse_door_type(s@, pos as int) == Some((v, p as int)),
            None => spec_parse_door_type(s@, pos as int) is None,
        },
{
    match read_u8(s, pos) {
        None => None,
        Some((b, p)) => match DoorType::try_from(b as usize) {
            Ok(e) => Some((e, p)),
            Err(_) => None,
        },
    }
}

pub fn read_door_state(s: &Vec<u8>, pos: usize) -> (r: Option<(DoorState, usize)>)
    ensures
        match r {
            Some((v, p)) => spec_parse_door_state(s@, pos as int) == Some((v, p as int)),
            None => spec_parse_door_state(s@, pos as int) is None,
        },
{
    match read_u8(s, pos) {
        None => None,
        Some((b, p)) => match DoorState::try_from(b as usize) {
            Ok(e) => Some((e, p)),
            Err(_) => None,
        },
    }
}

pub fn read_sense(s: &Vec<u8>, pos: usize) -> (r: Option<(WallSenseType, usize)>)
    ensures
        match r {
            Some((v, p)) => spec_parse_sense(s@, pos as int) == Some((v, p as int)),
            None => spec_parse_sense(s@, pos as int) is None,
        },
{
    match read_u8(s, pos) {
        None => None,
        Some((b, p)) => match WallSenseType::try_from(b as usize) {
            Ok(e) => Some((e, p)),
            Err(_) => None,
        },
    }
}

pub fn read_direction(s: &Vec<u8>, pos: usize) -> (r: Option<(WallDirection, usize)>)
    ensures
        match r {
            Some((v, p)) => spec_parse_direction(s@, pos as int) == Some((v, p as int)),
            None => spec_parse_direction(s@, pos as int) is None,
        },
{
    match read_u8(s, pos) {
        None => None,
        Some((b, p)) => match WallDirection::try_from(b as usize) {
            Ok(e) => Some((e, p)),
            Err(_) => None,
        },
    }
}

pub fn read_polygon_type(s: &Vec<u8>, pos: usize) -> (r: Option<(PolygonType, usize)>)
    ensures
        match r {
            Some((v, p)) => spec_parse_polygon_type(s@, pos as int) == Some((v, p as int)),
            None => spec_parse_polygon_type(s@, pos as int) is None,
        },
{
    match read_u8(s, pos) {
        None => None,
        Some((b, p)) => match PolygonType::try_from(b as usize) {
            Ok(e) => Some((e, p)),
            Err(_) => None,
        },
    }
}

// ---------------------------------------------------------------------------
// Compound values: points, heights, optional roof ids, whole walls
// ---------------------------------------------------------------------------

pub open spec fn spec_ser_point(p: Point) -> Seq<u8> {
    spec_ser_u64(p.x) + spec_ser_u64(p.y)
}

pub open spec fn spec_parse_point(s: Seq<u8>, pos: int) -> Option<(Point, int)> {
    match spec_parse_u64(s, pos) {
        None => None,
        Some((x, p1)) => match spec_parse_u64(s, p1) {
            None => None,
            Some((y, p2)) => Some((Point { x, y }, p2)),
        },
    }
}

pub open spec fn spec_ser_height(h: WallHeight) -> Seq<u8> {
    spec_ser_u64(h.top) + spec_ser_u64(h.bottom)
}

pub open spec fn spec_parse_height(s: Seq<u8>, pos: int) -> Option<(WallHeight, int)> {
    match spec_parse_u64(s, pos) {
        None => None,
        Some((top, p1)) => match spec_parse_u64(s, p1) {
            None => None,
            Some((bottom, p2)) => Some((WallHeight { top, bottom }, p2)),
        },
    }
}

pub open spec fn spec_ser_roof(roof: Option<u32>) -> Seq<u8> {
    match roof {
        None => spec_ser_bool(false),
        Some(id) => spec_ser_bool(true) + spec_ser_u32(id),
    }
}

pub open spec fn spec_parse_roof(s: Seq<u8>, pos: int) -> Option<(Option<u32>, int)> {
    match spec_parse_bool(s, pos) {
        None => None,
        Some((is_some, p1)) => if !is_some {
            Some((None, p1))
        } else {
            match spec_parse_u32(s, p1) {
                None => None,
                Some((id, p2)) => Some((Some(id), p2)),
            }
        },
    }
}

pub fn write_point(out: &mut Vec<u8>, p: Point)
    ensures
        final(out)@ == old(out)@ + spec_ser_point(p),
{
    write_u64(out, p.x);
    write_u64(out, p.y);
    assert(out@ =~= old(out)@ + spec_ser_point(p));
}

pub fn read_point(s: &Vec<u8>, pos: usize) -> (r: Option<(Point, usize)>)
    ensures
        match r {
            Some((v, p)) => spec_parse_point(s@, pos as int) == Some((v, p as int)),
            None => spec_parse_point(s@, pos as int) is None,
        },
{
    match read_u64(s, pos) {
        None => None,
        Some((x, p1)) => match read_u64(s, p1) {
            None => None,
            Some((y, p2)) => Some((Point { x, y }, p2)),
        },
    }
}

pub fn write_height(out: &mut Vec<u8>, h: WallHeight)
    ensures
        final(out)@ == old(out)@ + spec_ser_height(h),
{
    write_u64(out, h.top);
    write_u64(out, h.bottom);
    assert(out@ =~= old(out)@ + spec_ser_height(h));
}

pub fn read_height(s: &Vec<u8>, pos: usize) -> (r: Option<(WallHeight, usize)>)
    ensures
        match r {
            Some((v, p)) => spec_parse_height(s@, pos as int) == Some((v, p as int)),
            None => spec_parse_height(s@, pos as int) is None,
        },
{
    match read_u64(s, pos) {
        None => None,
        Some((top, p1)) => match read_u64(s, p1) {
            None => None,
            Some((bottom, p2)) => Some((WallHeight { top, bottom }, p2)),
        },
    }
}

pub fn write_roof(out: &mut Vec<u8>, roof: Option<u32>)
    ensures
        final(out)@ == old(out)@ + spec_ser_roof(roof),
{
    match roof {
        None => {
            write_bool(out, false);
        },
        Some(id) => {
            write_bool(out, true);
            write_u32(out, id);
        },
    }
    assert(out@ =~= old(out)@ + spec_ser_roof(roof));
}

pub fn read_roof(s: &Vec<u8>, pos: usize) -> (r: Option<(Option<u32>, usize)>)
    ensures
        match r {
            Some((v, p)) => spec_parse_roof(s@, pos as int) == Some((v, p as int)),
            None => spec_parse_roof(s@, pos as int) is None,
        },
{
    match read_bool(s, pos) {
        None => None,
        Some((is_some, p1)) => {
            if !is_some {
                Some((None, p1))
            } else {
                match read_u32(s, p1) {
                    None => None,
                    Some((id, p2)) => Some((Some(id), p2)),
                }
            }
        },
    }
}

// ---------------------------------------------------------------------------
// Subrange splitting
// ---------------------------------------------------------------------------

/// If a window of `s` holds `a + b`, the window splits into a window
/// holding `a` and one holding `b`.
pub proof fn lemma_split_subrange(s: Seq<u8>, pos: int, a: Seq<u8>, b: Seq<u8>)
    requires
        0 <= pos,
        pos + a.len() + b.len() <= s.len(),
        s.subrange(pos, pos + a.len() + b.len()) == a + b,
    ensures
        s.subrange(pos, pos + a.len() as int) == a,
        s.subrange(pos + a.len() as int, pos + a.len() + b.len()) == b,
{
    let w = s.subrange(pos, pos + a.len() + b.len());
    assert(s.subrange(pos, pos + a.len() as int) =~= a) by {
        assert forall|i: int| 0 <= i < a.len() implies s[pos + i] == a[i] by {
            assert(w[i] == s[pos + i]);
            assert(w[i] == (a + b)[i]);
            assert((a + b)[i] == a[i]);
        }
    }
    assert(s.subrange(pos + a.len() as int, pos + a.len() + b.len()) =~= b) by {
        assert forall|i: int| 0 <= i < b.len() implies s[pos + a.len() + i] == b[i] by {
            assert(w[a.len() + i] == s[pos + a.len() + i]);
            assert(w[a.len() + i] == (a + b)[a.len() + i]);
            assert((a + b)[a.len() + i] == b[i]);
        }
    }
}

/// Parsing a serialized point from the middle of any stream yields the
/// point back and consumes exactly its sixteen bytes.
pub proof fn lemma_parse_point_of_ser(s: Seq<u8>, pos: int, v: Point)
    requires
        0 <= pos,
        pos + 16 <= s.len(),
        s.subrange(pos, pos + 16) == spec_ser_point(v),
    ensures
        spec_parse_point(s, pos) == Some((v, pos + 16)),
{
    lemma_split_subrange(s, pos, spec_ser_u64(v.x), spec_ser_u64(v.y));
    lemma_parse_u64_of_ser(s, pos, v.x);
    lemma_parse_u64_of_ser(s, pos + 8, v.y);
}

/// Parsing a serialized height range from the middle of any stream yields
/// the range back and consumes exactly its sixteen bytes.
pub proof fn lemma_parse_height_of_ser(s: Seq<u8>, pos: int, v: WallHeight)
    requires
        0 <= pos,
        pos + 16 <= s.len(),
        s.subrange(pos, pos + 16) == spec_ser_height(v),
    ensures
        spec_parse_height(s, pos) == Some((v, pos + 16)),
{
    lemma_split_subrange(s, pos, spec_ser_u64(v.top), spec_ser_u64(v.bottom));
    lemma_parse_u64_of_ser(s, pos, v.top);
    lemma_parse_u64_of_ser(s, pos + 8, v.bottom);
}

/// Parsing a serialized optional roof id from the middle of any stream
/// yields the value back and consumes exactly its bytes.
pub proof fn lemma_parse_roof_of_ser(s: Seq<u8>, pos: int, v: Option<u32>)
    requires
        0 <= pos,
        pos + spec_ser_roof(v).len() <= s.len(),
        s.subrange(pos, pos + spec_ser_roof(v).len()) == spec_ser_roof(v),
    ensures
        spec_parse_roof(s, pos) == Some((v, pos + spec_ser_roof(v).len())),
{
    match v {
        None => {
            lemma_parse_bool_of_ser(s, pos, false);
        },
        Some(id) => {
            lemma_split_subrange(s, pos, spec_ser_bool(true), spec_ser_u32(id));
            lemma_parse_bool_of_ser(s, pos, true);
            lemma_parse_u32_of_ser(s, pos + 1, id);
        },
    }
}

// ---------------------------------------------------------------------------
// Whole wall records
// ---------------------------------------------------------------------------

/// Byte image of one wall record, as the current envelope version writes it.
pub open spec fn spec_ser_wall(w: WallBase) -> Seq<u8> {
    spec_ser_point(w.p1) + (spec_ser_point(w.p2) + (seq![w.movement.spec_byte()]
        + (seq![w.sense.spec_byte()] + (seq![w.sound.spec_byte()] + (seq![w.door.spec_byte()]
        + (seq![w.ds.spec_byte()] + (seq![w.dir.spec_byte()] + (spec_ser_height(w.height)
        + spec_ser_roof(w.roof)))))))))
}

/// Parse of one wall record under any envelope version: fields missing from
/// old versions fall back exactly as the format prescribes (`movement` to
/// `NORMAL`, `sound` to the sight sense, height to the full extent, roof to
/// none).
pub open spec fn spec_parse_wall(s: Seq<u8>, pos: int, version: u8) -> Option<(WallBase, int)> {
    match spec_parse_point(s, pos) {
        None => None,
        Some((p1, q1)) => match spec_parse_point(s, q1) {
            None => None,
            Some((p2, q2)) => {
                let movement_step = if version >= 3 {
                    spec_parse_sense(s, q2)
                } else {
                    Some((WallSenseType::NORMAL, q2))
                };
                match movement_step {
                    None => None,
                    Some((movement, q3)) => match spec_parse_sense(s, q3) {
                        None => None,
                        Some((sense, q4)) => {
                            let sound_step = if version >= 3 {
                                spec_parse_sense(s, q4)
                            } else {
                                Some((sense, q4))
                            };
                            match sound_step {
                                None => None,
                                Some((sound, q5)) => match spec_parse_door_type(s, q5) {
                                    None => None,
                                    Some((door, q6)) => match spec_parse_door_state(s, q6) {
                                        None => None,
                                        Some((ds, q7)) => match spec_parse_direction(s, q7) {
                                            None => None,
                                            Some((dir, q8)) => {
                                                let height_step = if version >= 1 {
                                                    spec_parse_height(s, q8)
                                                } else {
                                                    Some((WallHeight {
                                                        top: crate::types::F64_POS_INFINITY_BITS,
                                                        bottom: crate::types::F64_NEG_INFINITY_BITS,
                                                    }, q8))
                                                };
                                                match height_step {
                                                    None => None,
                                                    Some((height, q9)) => {
                                                        let roof_step = if version >= 3 {
                                                            spec_parse_roof(s, q9)
                                                        } else {
                                                            Some((None, q9))
                                                        };
                                                        match roof_step {
                                                            None => None,
                                                            Some((roof, q10)) => Some((WallBase {
                                                                p1, p2, movement, sense, sound,
                                                                door, ds, dir, height, roof,
                                                            }, q10)),
                                                        }
                                                    },
                                                }
                                            },
                                        },
                                    },
                                },
                            }
                        },
                    },
                }
            },
        },
    }
}

/// Appending ten chunks one by one builds the same bytes as appending
/// their right-nested concatenation at once.
proof fn lemma_append_chunks10(
    base: Seq<u8>, c1: Seq<u8>, c2: Seq<u8>, c3: Seq<u8>, c4: Seq<u8>, c5: Seq<u8>,
    c6: Seq<u8>, c7: Seq<u8>, c8: Seq<u8>, c9: Seq<u8>, c10: Seq<u8>,
)
    ensures
        base + c1 + c2 + c3 + c4 + c5 + c6 + c7 + c8 + c9 + c10
            == base + (c1 + (c2 + (c3 + (c4 + (c5 + (c6 + (c7 + (c8 + (c9 + c10))))))))),
{
    assert(base + c1 + c2 + c3 + c4 + c5 + c6 + c7 + c8 + c9 + c10
        =~= base + (c1 + (c2 + (c3 + (c4 + (c5 + (c6 + (c7 + (c8 + (c9 + c10))))))))));
}

pub fn write_wall(out: &mut Vec<u8>, w: &WallBase)
    ensures
        final(out)@ == old(out)@ + spec_ser_wall(*w),
{
    write_point(out, w.p1);
    write_point(out, w.p2);
    write_u8(out, w.movement.serialize_byte());
    write_u8(out, w.sense.serialize_byte());
    write_u8(out, w.sound.serialize_byte());
    write_u8(out, w.door.serialize_byte());
    write_u8(out, w.ds.serialize_byte());
    write_u8(out, w.dir.serialize_byte());
    write_height(out, w.height);
    write_roof(out, w.roof);
    proof {
        lemma_append_chunks10(
            old(out)@,
            spec_ser_point(w.p1),
            spec_ser_point(w.p2),
            seq![w.movement.spec_byte()],
            seq![w.sense.spec_byte()],
            seq![w.sound.spec_byte()],
            seq![w.door.spec_byte()],
            seq![w.ds.spec_byte()],
            seq![w.dir.spec_byte()],
            spec_ser_height(w.height),
            spec_ser_roof(w.roof),
        );
    }
}

pub fn read_wall(s: &Vec<u8>, pos: usize, version: u8) -> (r: Option<(WallBase, usize)>)
    ensures
        match r {
            Some((v, p)) => spec_parse_wall(s@, pos as int, version) == Some((v, p as int)),
            None => spec_parse_wall(s@, pos as int, version) is None,
        },
{
    let (p1, q1) = match read_point(s, pos) {
        None => { return None; },
        Some(x) => x,
    };
    let (p2, q2) = match read_point(s, q1) {
        None => { return None; },
        Some(x) => x,
    };
    let (movement, q3) = if version >= 3 {
        match read_sense(s, q2) {
            None => { return None; },
            Some(x) => x,
        }
    } else {
        (WallSenseType::NORMAL, q2)
    };
    let (sense, q4) = match read_sense(s, q3) {
        None => { return None; },
        Some(x) => x,
    };
    let (sound, q5) = if version >= 3 {
        match read_sense(s, q4) {
            None => { return None; },
            Some(x) => x,
        }
    } else {
        (sense, q4)
    };
    let (door, q6) = match read_door_type(s, q5) {
        None => { return None; },
        Some(x) => x,
    };
    let (ds, q7) = match read_door_state(s, q6) {
        None => { return None; },
        Some(x) => x,
    };
    let (dir, q8) = match read_direction(s, q7) {
        None => { return None; },
        Some(x) => x,
    };
    let (height, q9) = if version >= 1 {
        match read_height(s, q8) {
            None => { return None; },
            Some(x) => x,
        }
    } else {
        (WallHeight::default(), q8)
    };
    let (roof, q10) = if version >= 3 {
        match read_roof(s, q9) {
            None => { return None; },
            Some(x) => x,
        }
    } else {
        (None, q9)
    };
    Some((WallBase { p1, p2, movement, sense, sound, door, ds, dir, height, roof }, q10))
}

/// Parsing a wall serialized by the current version yields the wall back
/// and consumes exactly its bytes.
#[verifier::rlimit(100)]
pub proof fn lemma_parse_wall_of_ser(s: Seq<u8>, pos: int, w: WallBase)
    requires
        0 <= pos,
        pos + spec_ser_wall(w).len() <= s.len(),
        s.subrange(pos, pos + spec_ser_wall(w).len()) == spec_ser_wall(w),
    ensures
        spec_parse_wall(s, pos, CURRENT_VERSION) == Some((w, pos + spec_ser_wall(w).len())),
{
    let roof_len = spec_ser_roof(w.roof).len() as int;
    lemma_split_subrange(s, pos, spec_ser_point(w.p1),
        spec_ser_point(w.p2) + (seq![w.movement.spec_byte()] + (seq![w.sense.spec_byte()]
        + (seq![w.sound.spec_byte()] + (seq![w.door.spec_byte()] + (seq![w.ds.spec_byte()]
        + (seq![w.dir.spec_byte()] + (spec_ser_height(w.height) + spec_ser_roof(w.roof)))))))));
    lemma_parse_point_of_ser(s, pos, w.p1);
    lemma_split_subrange(s, pos + 16, spec_ser_point(w.p2),
        seq![w.movement.spec_byte()] + (seq![w.sense.spec_byte()] + (seq![w.sound.spec_byte()]
        + (seq![w.door.spec_byte()] + (seq![w.ds.spec_byte()] + (seq![w.dir.spec_byte()]
        + (spec_ser_height(w.height) + spec_ser_roof(w.roof))))))));
    lemma_parse_point_of_ser(s, pos + 16, w.p2);
    lemma_split_subrange(s, pos + 32, seq![w.movement.spec_byte()],
        seq![w.sense.spec_byte()] + (seq![w.sound.spec_byte()] + (seq![w.door.spec_byte()]
        + (seq![w.ds.spec_byte()] + (seq![w.dir.spec_byte()]
        + (spec_ser_height(w.height) + spec_ser_roof(w.roof)))))));
    lemma_split_subrange(s, pos + 33, seq![w.sense.spec_byte()],
        seq![w.sound.spec_byte()] + (seq![w.door.spec_byte()] + (seq![w.ds.spec_byte()]
        + (seq![w.dir.spec_byte()] + (spec_ser_height(w.height) + spec_ser_roof(w.roof))))));
    lemma_split_subrange(s, pos + 34, seq![w.sound.spec_byte()],
        seq![w.door.spec_byte()] + (seq![w.ds.spec_byte()] + (seq![w.dir.spec_byte()]
        + (spec_ser_height(w.height) + spec_ser_roof(w.roof)))));
    lemma_split_subrange(s, pos + 35, seq![w.door.spec_byte()],
        seq![w.ds.spec_byte()] + (seq![w.dir.spec_byte()]
        + (spec_ser_height(w.height) + spec_ser_roof(w.roof))));
    lemma_split_subrange(s, pos + 36, seq![w.ds.spec_byte()],
        seq![w.dir.spec_byte()] + (spec_ser_height(w.height) + spec_ser_roof(w.roof)));
    lemma_split_subrange(s, pos + 37, seq![w.dir.spec_byte()],
        spec_ser_height(w.height) + spec_ser_roof(w.roof));
    lemma_split_subrange(s, pos + 38, spec_ser_height(w.height), spec_ser_roof(w.roof));
    lemma_parse_height_of_ser(s, pos + 38, w.height);
    lemma_parse_roof_of_ser(s, pos + 54, w.roof);
    assert(s.subrange(pos + 32, pos + 33)[0] == s[pos + 32]);
    assert(s.subrange(pos + 33, pos + 34)[0] == s[pos + 33]);
    assert(s.subrange(pos + 34, pos + 35)[0] == s[pos + 34]);
    assert(s.subrange(pos + 35, pos + 36)[0] == s[pos + 35]);
    assert(s.subrange(pos + 36, pos + 37)[0] == s[pos + 36]);
    assert(s.subrange(pos + 37, pos + 38)[0] == s[pos + 37]);
}

// ---------------------------------------------------------------------------
// Counted vectors: u32 length prefix, then the items in order
// ---------------------------------------------------------------------------

pub open spec fn spec_ser_wall_items(ws: Seq<WallBase>) -> Seq<u8>
    decreases ws.len(),
{
    if ws.len() == 0 {
        Seq::empty()
    } else {
        spec_ser_wall(ws[0]) + spec_ser_wall_items(ws.skip(1))
    }
}

pub open spec fn spec_ser_walls(ws: Seq<WallBase>) -> Seq<u8> {
    spec_ser_u32(ws.len() as u32) + spec_ser_wall_items(ws)
}

pub open spec fn spec_parse_wall_items(s: Seq<u8>, pos: int, count: int, version: u8) -> Option<(Seq<WallBase>, int)>
    decreases count,
{
    if count <= 0 {
        Some((Seq::empty(), pos))
    } else {
        match spec_parse_wall(s, pos, version) {
            None => None,
            Some((w, p1)) => match spec_parse_wall_items(s, p1, count - 1, version) {
                None => None,
                Some((ws, p2)) => Some((seq![w] + ws, p2)),
            },
        }
    }
}

pub open spec fn spec_parse_walls(s: Seq<u8>, pos: int, version: u8) -> Option<(Seq<WallBase>, int)> {
    match spec_parse_u32(s, pos) {
        None => None,
        Some((n, p)) => spec_parse_wall_items(s, p, n as int, version),
    }
}

pub open spec fn spec_ser_point_items(ps: Seq<Point>) -> Seq<u8>
    decreases ps.len(),
{
    if ps.len() == 0 {
        Seq::empty()
    } else {
        spec_ser_point(ps[0]) + spec_ser_point_items(ps.skip(1))
    }
}

pub open spec fn spec_ser_points(ps: Seq<Point>) -> Seq<u8> {
    spec_ser_u32(ps.len() as u32) + spec_ser_point_items(ps)
}

pub open spec fn spec_parse_point_items(s: Seq<u8>, pos: int, count: int) -> Option<(Seq<Point>, int)>
    decreases count,
{
    if count <= 0 {
        Some((Seq::empty(), pos))
    } else {
        match spec_parse_point(s, pos) {
            None => None,
            Some((p, p1)) => match spec_parse_point_items(s, p1, count - 1) {
                None => None,
                Some((ps, p2)) => Some((seq![p] + ps, p2)),
            },
        }
    }
}

pub open spec fn spec_parse_points(s: Seq<u8>, pos: int) -> Option<(Seq<Point>, int)> {
    match spec_parse_u32(s, pos) {
        None => None,
        Some((n, p)) => spec_parse_point_items(s, p, n as int),
    }
}

pub open spec fn spec_ser_bool_items(bs: Seq<bool>) -> Seq<u8>
    decreases bs.len(),
{
    if bs.len() == 0 {
        Seq::empty()
    } else {
        spec_ser_bool(bs[0]) + spec_ser_bool_items(bs.skip(1))
    }
}

pub open spec fn spec_ser_bools(bs: Seq<bool>) -> Seq<u8> {
    spec_ser_u32(bs.len() as u32) + spec_ser_bool_items(bs)
}

pub open spec fn spec_parse_bool_items(s: Seq<u8>, pos: int, count: int) -> Option<(Seq<bool>, int)>
    decreases count,
{
    if count <= 0 {
        Some((Seq::empty(), pos))
    } else {
        match spec_parse_bool(s, pos) {
            None => None,
            Some((b, p1)) => match spec_parse_bool_items(s, p1, count - 1) {
                None => None,
                Some((bs, p2)) => Some((seq![b] + bs, p2)),
            },
        }
    }
}

pub open spec fn spec_parse_bools(s: Seq<u8>, pos: int) -> Option<(Seq<bool>, int)> {
    match spec_parse_u32(s, pos) {
        None => None,
        Some((n, p)) => spec_parse_bool_items(s, p, n as int),
    }
}

/// One more item in front extends the item image by one record.
proof fn lemma_ser_wall_items_take_succ(ws: Seq<WallBase>, i: int)
    requires
        0 <= i < ws.len(),
    ensures
        spec_ser_wall_items(ws.take(i + 1)) == spec_ser_wall_items(ws.take(i)) + spec_ser_wall(ws[i]),
    decreases i,
{
    if i == 0 {
        assert(ws.take(1).skip(1) =~= Seq::<WallBase>::empty());
        assert(ws.take(0) =~= Seq::<WallBase>::empty());
        assert(spec_ser_wall_items(Seq::<WallBase>::empty()) == Seq::<u8>::empty());
        assert(spec_ser_wall_items(ws.take(1))
            == spec_ser_wall(ws.take(1)[0]) + spec_ser_wall_items(ws.take(1).skip(1)));
        assert(spec_ser_wall_items(ws.take(1)) =~= spec_ser_wall(ws[0]));
        assert(spec_ser_wall_items(ws.take(0)) + spec_ser_wall(ws[0]) =~= spec_ser_wall(ws[0]));
    } else {
        lemma_ser_wall_items_take_succ(ws.skip(1), i - 1);
        assert(ws.take(i + 1)[0] == ws[0]);
        assert(ws.take(i + 1).skip(1) =~= ws.skip(1).take(i));
        assert(ws.take(i)[0] == ws[0]);
        assert(ws.take(i).skip(1) =~= ws.skip(1).take(i - 1));
        assert(ws.skip(1)[i - 1] == ws[i]);
        assert(spec_ser_wall(ws[0]) + (spec_ser_wall_items(ws.skip(1).take(i - 1)) + spec_ser_wall(ws[i]))
            =~= (spec_ser_wall(ws[0]) + spec_ser_wall_items(ws.skip(1).take(i - 1))) + spec_ser_wall(ws[i]));
    }
}

proof fn lemma_ser_point_items_take_succ(ps: Seq<Point>, i: int)
    requires
        0 <= i < ps.len(),
    ensures
        spec_ser_point_items(ps.take(i + 1)) == spec_ser_point_items(ps.take(i)) + spec_ser_point(ps[i]),
    decreases i,
{
    if i == 0 {
        assert(ps.take(1).skip(1) =~= Seq::<Point>::empty());
        assert(ps.take(0) =~= Seq::<Point>::empty());
        assert(spec_ser_point_items(Seq::<Point>::empty()) == Seq::<u8>::empty());
        assert(spec_ser_point_items(ps.take(1))
            == spec_ser_point(ps.take(1)[0]) + spec_ser_point_items(ps.take(1).skip(1)));
        assert(spec_ser_point_items(ps.take(1)) =~= spec_ser_point(ps[0]));
        assert(spec_ser_point_items(ps.take(0)) + spec_ser_point(ps[0]) =~= spec_ser_point(ps[0]));
    } else {
        lemma_ser_point_items_take_succ(ps.skip(1), i - 1);
        assert(ps.take(i + 1)[0] == ps[0]);
        assert(ps.take(i + 1).skip(1) =~= ps.skip(1).take(i));
        assert(ps.take(i)[0] == ps[0]);
        assert(ps.take(i).skip(1) =~= ps.skip(1).take(i - 1));
        assert(ps.skip(1)[i - 1] == ps[i]);
        assert(spec_ser_point(ps[0]) + (spec_ser_point_items(ps.skip(1).take(i - 1)) + spec_ser_point(ps[i]))
            =~= (spec_ser_point(ps[0]) + spec_ser_point_items(ps.skip(1).take(i - 1))) + spec_ser_point(ps[i]));
    }
}

proof fn lemma_ser_bool_items_take_succ(bs: Seq<bool>, i: int)
    requires
        0 <= i < bs.len(),
    ensures
        spec_ser_bool_items(bs.take(i + 1)) == spec_ser_bool_items(bs.take(i)) + spec_ser_bool(bs[i]),
    decreases i,
{
    if i == 0 {
        assert(bs.take(1).skip(1) =~= Seq::<bool>::empty());
        assert(bs.take(0) =~= Seq::<bool>::empty());
        assert(spec_ser_bool_items(Seq::<bool>::empty()) == Seq::<u8>::empty());
        assert(spec_ser_bool_items(bs.take(1))
            == spec_ser_bool(bs.take(1)[0]) + spec_ser_bool_items(bs.take(1).skip(1)));
        assert(spec_ser_bool_items(bs.take(1)) =~= spec_ser_bool(bs[0]));
        assert(spec_ser_bool_items(bs.take(0)) + spec_ser_bool(bs[0]) =~= spec_ser_bool(bs[0]));
    } else {
        lemma_ser_bool_items_take_succ(bs.skip(1), i - 1);
        assert(bs.take(i + 1)[0] == bs[0]);
        assert(bs.take(i + 1).skip(1) =~= bs.skip(1).take(i));
        assert(bs.take(i)[0] == bs[0]);
        assert(bs.take(i).skip(1) =~= bs.skip(1).take(i - 1));
        assert(bs.skip(1)[i - 1] == bs[i]);
        assert(spec_ser_bool(bs[0]) + (spec_ser_bool_items(bs.skip(1).take(i - 1)) + spec_ser_bool(bs[i]))
            =~= (spec_ser_bool(bs[0]) + spec_ser_bool_items(bs.skip(1).take(i - 1))) + spec_ser_bool(bs[i]));
    }
}

pub fn write_walls(out: &mut Vec<u8>, ws: &Vec<WallBase>)
    requires
        ws@.len() < 0x1_0000_0000,
    ensures
        final(out)@ == old(out)@ + spec_ser_walls(ws@),
{
    let ghost base = out@;
    write_u32(out, ws.len() as u32);
    let mut i: usize = 0;
    while i < ws.len()
        invariant
            i <= ws@.len(),
            ws@.len() < 0x1_0000_0000,
            out@ == base + spec_ser_u32(ws@.len() as u32) + spec_ser_wall_items(ws@.take(i as int)),
        decreases ws@.len() - i,
    {
        write_wall(out, &ws[i]);
        proof {
            lemma_ser_wall_items_take_succ(ws@, i as int);
            assert((base + spec_ser_u32(ws@.len() as u32) + spec_ser_wall_items(ws@.take(i as int)))
                + spec_ser_wall(ws@[i as int])
                =~= base + spec_ser_u32(ws@.len() as u32) + spec_ser_wall_items(ws@.take(i + 1)));
        }
        i = i + 1;
    }
    proof {
        assert(ws@.take(ws@.len() as int) =~= ws@);
        assert(base + spec_ser_u32(ws@.len() as u32) + spec_ser_wall_items(ws@)
            =~= base + spec_ser_walls(ws@));
    }
}

pub fn write_points(out: &mut Vec<u8>, ps: &Vec<Point>)
    requires
        ps@.len() < 0x1_0000_0000,
    ensures
        final(out)@ == old(out)@ + spec_ser_points(ps@),
{
    let ghost base = out@;
    write_u32(out, ps.len() as u32);
    let mut i: usize = 0;
    while i < ps.len()
        invariant
            i <= ps@.len(),
            ps@.len() < 0x1_0000_0000,
            out@ == base + spec_ser_u32(ps@.len() as u32) + spec_ser_point_items(ps@.take(i as int)),
        decreases ps@.len() - i,
    {
        write_point(out, ps[i]);
        proof {
            lemma_ser_point_items_take_succ(ps@, i as int);
            assert((base + spec_ser_u32(ps@.len() as u32) + spec_ser_point_items(ps@.take(i as int)))
                + spec_ser_point(ps@[i as int])
                =~= base + spec_ser_u32(ps@.len() as u32) + spec_ser_point_items(ps@.take(i + 1)));
        }
        i = i + 1;
    }
    proof {
        assert(ps@.take(ps@.len() as int) =~= ps@);
        assert(base + spec_ser_u32(ps@.len() as u32) + spec_ser_point_items(ps@)
            =~= base + spec_ser_points(ps@));
    }
}

pub fn write_bools(out: &mut Vec<u8>, bs: &Vec<bool>)
    requires
        bs@.len() < 0x1_0000_0000,
    ensures
        final(out)@ == old(out)@ + spec_ser_bools(bs@),
{
    let ghost base = out@;
    write_u32(out, bs.len() as u32);
    let mut i: usize = 0;
    while i < bs.len()
        invariant
            i <= bs@.len(),
            bs@.len() < 0x1_0000_0000,
            out@ == base + spec_ser_u32(bs@.len() as u32) + spec_ser_bool_items(bs@.take(i as int)),
        decreases bs@.len() - i,
    {
        write_bool(out, bs[i]);
        proof {
            lemma_ser_bool_items_take_succ(bs@, i as int);
            assert((base + spec_ser_u32(bs@.len() as u32) + spec_ser_bool_items(bs@.take(i as int)))
                + spec_ser_bool(bs@[i as int])
                =~= base + spec_ser_u32(bs@.len() as u32) + spec_ser_bool_items(bs@.take(i + 1)));
        }
        i = i + 1;
    }
    proof {
        assert(bs@.take(bs@.len() as int) =~= bs@);
        assert(base + spec_ser_u32(bs@.len() as u32) + spec_ser_bool_items(bs@)
            =~= base + spec_ser_bools(bs@));
    }
}

pub fn read_walls(s: &Vec<u8>, pos: usize, version: u8) -> (r: Option<(Vec<WallBase>, usize)>)
    ensures
        match r {
            Some((v, p)) => spec_parse_walls(s@, pos as int, version) == Some((v@, p as int)),
            None => spec_parse_walls(s@, pos as int, version) is None,
        },
{
    let (n, start) = match read_u32(s, pos) {
        None => { return None; },
        Some(x) => x,
    };
    let ghost total = n as int;
    let mut acc: Vec<WallBase> = Vec::new();
    let mut cur: usize = start;
    let mut j: u32 = 0;
    while j < n
        invariant
            j <= n,
            spec_parse_u32(s@, pos as int) == Some((n, start as int)),
            spec_parse_wall_items(s@, start as int, total, version) == match spec_parse_wall_items(s@, cur as int, total - j, version) {
                None => None::<(Seq<WallBase>, int)>,
                Some((ws, p)) => Some((acc@ + ws, p)),
            },
            total == n as int,
        decreases n - j,
    {
        match read_wall(s, cur, version) {
            None => {
                proof {
                    assert(spec_parse_wall_items(s@, cur as int, total - j, version) is None);
                }
                return None;
            },
            Some((w, p)) => {
                let ghost old_acc = acc@;
                acc.push(w);
                proof {
                    assert forall|ws: Seq<WallBase>, q: int|
                        spec_parse_wall_items(s@, p as int, total - j - 1, version) == Some((ws, q))
                        implies old_acc + (seq![w] + ws) == acc@ + ws by {
                        assert(old_acc + (seq![w] + ws) =~= acc@ + ws);
                    }
                }
                cur = p;
            },
        }
        j = j + 1;
    }
    proof {
        assert(spec_parse_wall_items(s@, cur as int, 0, version) == Some((Seq::<WallBase>::empty(), cur as int)));
        assert(acc@ + Seq::<WallBase>::empty() =~= acc@);
    }
    Some((acc, cur))
}

pub fn read_points(s: &Vec<u8>, pos: usize) -> (r: Option<(Vec<Point>, usize)>)
    ensures
        match r {
            Some((v, p)) => spec_parse_points(s@, pos as int) == Some((v@, p as int)),
            None => spec_parse_points(s@, pos as int) is None,
        },
{
    let (n, start) = match read_u32(s, pos) {
        None => { return None; },
        Some(x) => x,
    };
    let ghost total = n as int;
    let mut acc: Vec<Point> = Vec::new();
    let mut cur: usize = start;
    let mut j: u32 = 0;
    while j < n
        invariant
            j <= n,
            spec_parse_u32(s@, pos as int) == Some((n, start as int)),
            spec_parse_point_items(s@, start as int, total) == match spec_parse_point_items(s@, cur as int, total - j) {
                None => None::<(Seq<Point>, int)>,
                Some((ps, p)) => Some((acc@ + ps, p)),
            },
            total == n as int,
        decreases n - j,
    {
        match read_point(s, cur) {
            None => {
                proof {
                    assert(spec_parse_point_items(s@, cur as int, total - j) is None);
                }
                return None;
            },
            Some((v, p)) => {
                let ghost old_acc = acc@;
                acc.push(v);
                proof {
                    assert forall|ps: Seq<Point>, q: int|
                        spec_parse_point_items(s@, p as int, total - j - 1) == Some((ps, q))
                        implies old_acc + (seq![v] + ps) == acc@ + ps by {
                        assert(old_acc + (seq![v] + ps) =~= acc@ + ps);
                    }
                }
                cur = p;
            },
        }
        j = j + 1;
    }
    proof {
        assert(spec_parse_point_items(s@, cur as int, 0) == Some((Seq::<Point>::empty(), cur as int)));
        assert(acc@ + Seq::<Point>::empty() =~= acc@);
    }
    Some((acc, cur))
}

pub fn read_bools(s: &Vec<u8>, pos: usize) -> (r: Option<(Vec<bool>, usize)>)
    ensures
        match r {
            Some((v, p)) => spec_parse_bools(s@, pos as int) == Some((v@, p as int)),
            None => spec_parse_bools(s@, pos as int) is None,
        },
{
    let (n, start) = match read_u32(s, pos) {
        None => { return None; },
        Some(x) => x,
    };
    let ghost total = n as int;
    let mut acc: Vec<bool> = Vec::new();
    let mut cur: usize = start;
    let mut j: u32 = 0;
    while j < n
        invariant
            j <= n,
            spec_parse_u32(s@, pos as int) == Some((n, start as int)),
            spec_parse_bool_items(s@, start as int, total) == match spec_parse_bool_items(s@, cur as int, total - j) {
                None => None::<(Seq<bool>, int)>,
                Some((bs, p)) => Some((acc@ + bs, p)),
            },
            total == n as int,
        decreases n - j,
    {
        match read_bool(s, cur) {
            None => {
                proof {
                    assert(spec_parse_bool_items(s@, cur as int, total - j) is None);
                }
                return None;
            },
            Some((v, p)) => {
                let ghost old_acc = acc@;
                acc.push(v);
                proof {
                    assert forall|bs: Seq<bool>, q: int|
                        spec_parse_bool_items(s@, p as int, total - j - 1) == Some((bs, q))
                        implies old_acc + (seq![v] + bs) == acc@ + bs by {
                        assert(old_acc + (seq![v] + bs) =~= acc@ + bs);
                    }
                }
                cur = p;
            },
        }
        j = j + 1;
    }
    proof {
        assert(spec_parse_bool_items(s@, cur as int, 0) == Some((Seq::<bool>::empty(), cur as int)));
        assert(acc@ + Seq::<bool>::empty() =~= acc@);
    }
    Some((acc, cur))
}

/// Parsing serialized wall items from the middle of any stream yields the
/// items back and consumes exactly their bytes.
#[verifier::rlimit(100)]
pub proof fn lemma_parse_wall_items_of_ser(s: Seq<u8>, pos: int, ws: Seq<WallBase>)
    requires
        0 <= pos,
        pos + spec_ser_wall_items(ws).len() <= s.len(),
        s.subrange(pos, pos + spec_ser_wall_items(ws).len()) == spec_ser_wall_items(ws),
    ensures
        spec_parse_wall_items(s, pos, ws.len() as int, CURRENT_VERSION)
            == Some((ws, pos + spec_ser_wall_items(ws).len())),
    decreases ws.len(),
{
    if ws.len() == 0 {
        assert(ws =~= Seq::<WallBase>::empty());
    } else {
        lemma_split_subrange(s, pos, spec_ser_wall(ws[0]), spec_ser_wall_items(ws.skip(1)));
        lemma_parse_wall_of_ser(s, pos, ws[0]);
        lemma_parse_wall_items_of_ser(s, pos + spec_ser_wall(ws[0]).len(), ws.skip(1));
        assert(seq![ws[0]] + ws.skip(1) =~= ws);
    }
}

/// Parsing serialized point items from the middle of any stream yields the
/// items back and consumes exactly their bytes.
pub proof fn lemma_parse_point_items_of_ser(s: Seq<u8>, pos: int, ps: Seq<Point>)
    requires
        0 <= pos,
        pos + spec_ser_point_items(ps).len() <= s.len(),
        s.subrange(pos, pos + spec_ser_point_items(ps).len()) == spec_ser_point_items(ps),
    ensures
        spec_parse_point_items(s, pos, ps.len() as int) == Some((ps, pos + spec_ser_point_items(ps).len())),
    decreases ps.len(),
{
    if ps.len() == 0 {
        assert(ps =~= Seq::<Point>::empty());
    } else {
        lemma_split_subrange(s, pos, spec_ser_point(ps[0]), spec_ser_point_items(ps.skip(1)));
        lemma_parse_point_of_ser(s, pos, ps[0]);
        lemma_parse_point_items_of_ser(s, pos + 16, ps.skip(1));
        assert(seq![ps[0]] + ps.skip(1) =~= ps);
    }
}

/// Parsing serialized bool items from the middle of any stream yields the
/// items back and consumes exactly their bytes.
pub proof fn lemma_parse_bool_items_of_ser(s: Seq<u8>, pos: int, bs: Seq<bool>)
    requires
        0 <= pos,
        pos + spec_ser_bool_items(bs).len() <= s.len(),
        s.subrange(pos, pos + spec_ser_bool_items(bs).len()) == spec_ser_bool_items(bs),
    ensures
        spec_parse_bool_items(s, pos, bs.len() as int) == Some((bs, pos + spec_ser_bool_items(bs).len())),
    decreases bs.len(),
{
    if bs.len() == 0 {
        assert(bs =~= Seq::<bool>::empty());
    } else {
        lemma_split_subrange(s, pos, spec_ser_bool(bs[0]), spec_ser_bool_items(bs.skip(1)));
        lemma_parse_bool_of_ser(s, pos, bs[0]);
        lemma_parse_bool_items_of_ser(s, pos + 1, bs.skip(1));
        assert(seq![bs[0]] + bs.skip(1) =~= bs);
    }
}

/// Parsing a serialized counted wall vector yields the walls back.
pub proof fn lemma_parse_walls_of_ser(s: Seq<u8>, pos: int, ws: Seq<WallBase>)
    requires
        0 <= pos,
        ws.len() < 0x1_0000_0000,
        pos + spec_ser_walls(ws).len() <= s.len(),
        s.subrange(pos, pos + spec_ser_walls(ws).len()) == spec_ser_walls(ws),
    ensures
        spec_parse_walls(s, pos, CURRENT_VERSION) == Some((ws, pos + spec_ser_walls(ws).len())),
{
    lemma_split_subrange(s, pos, spec_ser_u32(ws.len() as u32), spec_ser_wall_items(ws));
    lemma_parse_u32_of_ser(s, pos, ws.len() as u32);
    lemma_parse_wall_items_of_ser(s, pos + 4, ws);
}

/// Parsing a serialized counted point vector yields the points back.
pub proof fn lemma_parse_points_of_ser(s: Seq<u8>, pos: int, ps: Seq<Point>)
    requires
        0 <= pos,
        ps.len() < 0x1_0000_0000,
        pos + spec_ser_points(ps).len() <= s.len(),
        s.subrange(pos, pos + spec_ser_points(ps).len()) == spec_ser_points(ps),
    ensures
        spec_parse_points(s, pos) == Some((ps, pos + spec_ser_points(ps).len())),
{
    lemma_split_subrange(s, pos, spec_ser_u32(ps.len() as u32), spec_ser_point_items(ps));
    lemma_parse_u32_of_ser(s, pos, ps.len() as u32);
    lemma_parse_point_items_of_ser(s, pos + 4, ps);
}

/// Parsing a serialized counted bool vector yields the flags back.
pub proof fn lemma_parse_bools_of_ser(s: Seq<u8>, pos: int, bs: Seq<bool>)
    requires
        0 <= pos,
        bs.len() < 0x1_0000_0000,
        pos + spec_ser_bools(bs).len() <= s.len(),
        s.subrange(pos, pos + spec_ser_bools(bs).len()) == spec_ser_bools(bs),
    ensures
        spec_parse_bools(s, pos) == Some((bs, pos + spec_ser_bools(bs).len())),
{
    lemma_split_subrange(s, pos, spec_ser_u32(bs.len() as u32), spec_ser_bool_items(bs));
    lemma_parse_u32_of_ser(s, pos, bs.len() as u32);
    lemma_parse_bool_items_of_ser(s, pos + 4, bs);
}

// ---------------------------------------------------------------------------
// Whole computation requests and recorded test cases
// ---------------------------------------------------------------------------

/// A complete computation request as the envelope carries it: the scene's
/// walls and per-tile roof occlusion flags, the light source, and the
/// numeric parameters as IEEE-754 bit patterns.
#[derive(Debug)]
pub struct RaycastingCall {
    pub walls: Vec<WallBase>,
    pub roofs: Vec<bool>,
    pub origin: Point,
    pub height: u64,
    pub radius: u64,
    pub distance: u64,
    pub density: u64,
    pub angle: u64,
    pub rotation: u64,
    pub polygon_type: PolygonType,
}

/// Mathematical image of a `RaycastingCall`.
#[verifier::ext_equal]
pub struct CallRep {
    pub walls: Seq<WallBase>,
    pub roofs: Seq<bool>,
    pub origin: Point,
    pub height: u64,
    pub radius: u64,
    pub distance: u64,
    pub density: u64,
    pub angle: u64,
    pub rotation: u64,
    pub polygon_type: PolygonType,
}

impl View for RaycastingCall {
    type V = CallRep;

    open spec fn view(&self) -> CallRep {
        CallRep {
            walls: self.walls@,
            roofs: self.roofs@,
            origin: self.origin,
            height: self.height,
            radius: self.radius,
            distance: self.distance,
            density: self.density,
            angle: self.angle,
            rotation: self.rotation,
            polygon_type: self.polygon_type,
        }
    }
}

/// A recorded computation: the request plus the two polygons a reference
/// run produced for it.
#[derive(Debug)]
pub struct TestCase {
    pub call: RaycastingCall,
    pub los: Vec<Point>,
    pub fov: Vec<Point>,
}

/// Mathematical image of a `TestCase`.
#[verifier::ext_equal]
pub struct TestRep {
    pub call: CallRep,
    pub los: Seq<Point>,
    pub fov: Seq<Point>,
}

impl View for TestCase {
    type V = TestRep;

    open spec fn view(&self) -> TestRep {
        TestRep { call: self.call@, los: self.los@, fov: self.fov@ }
    }
}

/// Byte image of a request, as the current envelope version writes it.
pub open spec fn spec_ser_call(c: CallRep) -> Seq<u8> {
    spec_ser_walls(c.walls) + (spec_ser_bools(c.roofs) + (spec_ser_point(c.origin)
        + (spec_ser_u64(c.height) + (spec_ser_u64(c.radius) + (spec_ser_u64(c.distance)
        + (spec_ser_u64(c.density) + (spec_ser_u64(c.angle) + (spec_ser_u64(c.rotation)
        + seq![c.polygon_type.spec_byte()]))))))))
}

/// Parse of a request under any envelope version: fields missing from old
/// versions fall back exactly as the format prescribes (no roofs, light
/// height zero, sight polygons).
pub open spec fn spec_parse_call(s: Seq<u8>, pos: int, version: u8) -> Option<(CallRep, int)> {
    match spec_parse_walls(s, pos, version) {
        None => None,
        Some((walls, q1)) => {
            let roofs_step = if version >= 3 {
                spec_parse_bools(s, q1)
            } else {
                Some((Seq::<bool>::empty(), q1))
            };
            match roofs_step {
                None => None,
                Some((roofs, q2)) => match spec_parse_point(s, q2) {
                    None => None,
                    Some((origin, q3)) => {
                        let height_step = if version >= 2 {
                            spec_parse_u64(s, q3)
                        } else {
                            Some((0u64, q3))
                        };
                        match height_step {
                            None => None,
                            Some((height, q4)) => match spec_parse_u64(s, q4) {
                                None => None,
                                Some((radius, q5)) => match spec_parse_u64(s, q5) {
                                    None => None,
                                    Some((distance, q6)) => match spec_parse_u64(s, q6) {
                                        None => None,
                                        Some((density, q7)) => match spec_parse_u64(s, q7) {
                                            None => None,
                                            Some((angle, q8)) => match spec_parse_u64(s, q8) {
                                                None => None,
                                                Some((rotation, q9)) => {
                                                    let ptype_step = if version >= 3 {
                                                        spec_parse_polygon_type(s, q9)
                                                    } else {
                                                        Some((PolygonType::SIGHT, q9))
                                                    };
                                                    match ptype_step {
                                                        None => None,
                                                        Some((polygon_type, q10)) => Some((CallRep {
                                                            walls, roofs, origin, height, radius,
                                                            distance, density, angle, rotation,
                                                            polygon_type,
                                                        }, q10)),
                                                    }
                                                },
                                            },
                                        },
                                    },
                                },
                            },
                        }
                    },
                },
            }
        },
    }
}

pub fn write_call(out: &mut Vec<u8>, c: &RaycastingCall)
    requires
        c.walls@.len() < 0x1_0000_0000,
        c.roofs@.len() < 0x1_0000_0000,
    ensures
        final(out)@ == old(out)@ + spec_ser_call(c@),
{
    write_walls(out, &c.walls);
    write_bools(out, &c.roofs);
    write_point(out, c.origin);
    write_u64(out, c.height);
    write_u64(out, c.radius);
    write_u64(out, c.distance);
    write_u64(out, c.density);
    write_u64(out, c.angle);
    write_u64(out, c.rotation);
    write_u8(out, c.polygon_type.serialize_byte());
    proof {
        lemma_append_chunks10(
            old(out)@,
            spec_ser_walls(c.walls@),
            spec_ser_bools(c.roofs@),
            spec_ser_point(c.origin),
            spec_ser_u64(c.height),
            spec_ser_u64(c.radius),
            spec_ser_u64(c.distance),
            spec_ser_u64(c.density),
            spec_ser_u64(c.angle),
            spec_ser_u64(c.rotation),
            seq![c.polygon_type.spec_byte()],
        );
    }
}

pub fn read_call(s: &Vec<u8>, pos: usize, version: u8) -> (r: Option<(RaycastingCall, usize)>)
    ensures
        match r {
            Some((c, p)) => spec_parse_call(s@, pos as int, version) == Some((c@, p as int)),
            None => spec_parse_call(s@, pos as int, version) is None,
        },
{
    let (walls, q1) = match read_walls(s, pos, version) {
        None => { return None; },
        Some(x) => x,
    };
    let (roofs, q2) = if version >= 3 {
        match read_bools(s, q1) {
            None => { return None; },
            Some(x) => x,
        }
    } else {
        (Vec::new(), q1)
    };
    let (origin, q3) = match read_point(s, q2) {
        None => { return None; },
        Some(x) => x,
    };
    let (height, q4) = if version >= 2 {
        match read_u64(s, q3) {
            None => { return None; },
            Some(x) => x,
        }
    } else {
        (0u64, q3)
    };
    let (radius, q5) = match read_u64(s, q4) {
        None => { return None; },
        Some(x) => x,
    };
    let (distance, q6) = match read_u64(s, q5) {
        None => { return None; },
        Some(x) => x,
    };
    let (density, q7) = match read_u64(s, q6) {
        None => { return None; },
        Some(x) => x,
    };
    let (angle, q8) = match read_u64(s, q7) {
        None => { return None; },
        Some(x) => x,
    };
    let (rotation, q9) = match read_u64(s, q8) {
        None => { return None; },
        Some(x) => x,
    };
    let (polygon_type, q10) = if version >= 3 {
        match read_polygon_type(s, q9) {
            None => { return None; },
            Some(x) => x,
        }
    } else {
        (PolygonType::SIGHT, q9)
    };
    let c = RaycastingCall {
        walls, roofs, origin, height, radius, distance, density, angle, rotation, polygon_type,
    };
    proof {
        assert(spec_parse_call(s@, pos as int, version) matches Some((m, q)) && m =~= c@ && q == q10 as int);
    }
    Some((c, q10))
}

/// Byte image of a recorded test case.
pub open spec fn spec_ser_test(t: TestRep) -> Seq<u8> {
    spec_ser_call(t.call) + (spec_ser_points(t.los) + spec_ser_points(t.fov))
}

/// Parse of a recorded test case under any envelope version.
pub open spec fn spec_parse_test(s: Seq<u8>, pos: int, version: u8) -> Option<(TestRep, int)> {
    match spec_parse_call(s, pos, version) {
        None => None,
        Some((call, q1)) => match spec_parse_points(s, q1) {
            None => None,
            Some((los, q2)) => match spec_parse_points(s, q2) {
                None => None,
                Some((fov, q3)) => Some((TestRep { call, los, fov }, q3)),
            },
        },
    }
}

/// Appending three chunks one by one builds the same bytes as appending
/// their right-nested concatenation at once.
proof fn lemma_append_chunks3(base: Seq<u8>, c1: Seq<u8>, c2: Seq<u8>, c3: Seq<u8>)
    ensures
        base + c1 + c2 + c3 == base + (c1 + (c2 + c3)),
{
    assert(base + c1 + c2 + c3 =~= base + (c1 + (c2 + c3)));
}

pub fn write_test(out: &mut Vec<u8>, t: &TestCase)
    requires
        t.call.walls@.len() < 0x1_0000_0000,
        t.call.roofs@.len() < 0x1_0000_0000,
        t.los@.len() < 0x1_0000_0000,
        t.fov@.len() < 0x1_0000_0000,
    ensures
        final(out)@ == old(out)@ + spec_ser_test(t@),
{
    write_call(out, &t.call);
    write_points(out, &t.los);
    write_points(out, &t.fov);
    proof {
        lemma_append_chunks3(old(out)@, spec_ser_call(t.call@), spec_ser_points(t.los@),
            spec_ser_points(t.fov@));
    }
}

pub fn read_test(s: &Vec<u8>, pos: usize, version: u8) -> (r: Option<(TestCase, usize)>)
    ensures
        match r {
            Some((t, p)) => spec_parse_test(s@, pos as int, version) == Some((t@, p as int)),
            None => spec_parse_test(s@, pos as int, version) is None,
        },
{
    let (call, q1) = match read_call(s, pos, version) {
        None => { return None; },
        Some(x) => x,
    };
    let (los, q2) = match read_points(s, q1) {
        None => { return None; },
        Some(x) => x,
    };
    let (fov, q3) = match read_points(s, q2) {
        None => { return None; },
        Some(x) => x,
    };
    let t = TestCase { call, los, fov };
    proof {
        assert(spec_parse_test(s@, pos as int, version) matches Some((m, q)) && m =~= t@ && q == q3 as int);
    }
    Some((t, q3))
}

/// Parsing a request serialized by the current version yields the request
/// back and consumes exactly its bytes.
#[verifier::rlimit(100)]
pub proof fn lemma_parse_call_of_ser(s: Seq<u8>, pos: int, c: CallRep)
    requires
        0 <= pos,
        c.walls.len() < 0x1_0000_0000,
        c.roofs.len() < 0x1_0000_0000,
        pos + spec_ser_call(c).len() <= s.len(),
        s.subrange(pos, pos + spec_ser_call(c).len()) == spec_ser_call(c),
    ensures
        spec_parse_call(s, pos, CURRENT_VERSION) == Some((c, pos + spec_ser_call(c).len())),
{
    let r1 = spec_ser_bools(c.roofs) + (spec_ser_point(c.origin) + (spec_ser_u64(c.height)
        + (spec_ser_u64(c.radius) + (spec_ser_u64(c.distance) + (spec_ser_u64(c.density)
        + (spec_ser_u64(c.angle) + (spec_ser_u64(c.rotation) + seq![c.polygon_type.spec_byte()])))))));
    let r2 = spec_ser_point(c.origin) + (spec_ser_u64(c.height) + (spec_ser_u64(c.radius)
        + (spec_ser_u64(c.distance) + (spec_ser_u64(c.density) + (spec_ser_u64(c.angle)
        + (spec_ser_u64(c.rotation) + seq![c.polygon_type.spec_byte()]))))));
    let r3 = spec_ser_u64(c.height) + (spec_ser_u64(c.radius) + (spec_ser_u64(c.distance)
        + (spec_ser_u64(c.density) + (spec_ser_u64(c.angle) + (spec_ser_u64(c.rotation)
        + seq![c.polygon_type.spec_byte()])))));
    let r4 = spec_ser_u64(c.radius) + (spec_ser_u64(c.distance) + (spec_ser_u64(c.density)
        + (spec_ser_u64(c.angle) + (spec_ser_u64(c.rotation) + seq![c.polygon_type.spec_byte()]))));
    let r5 = spec_ser_u64(c.distance) + (spec_ser_u64(c.density) + (spec_ser_u64(c.angle)
        + (spec_ser_u64(c.rotation) + seq![c.polygon_type.spec_byte()])));
    let r6 = spec_ser_u64(c.density) + (spec_ser_u64(c.angle) + (spec_ser_u64(c.rotation)
        + seq![c.polygon_type.spec_byte()]));
    let r7 = spec_ser_u64(c.angle) + (spec_ser_u64(c.rotation) + seq![c.polygon_type.spec_byte()]);
    let r8 = spec_ser_u64(c.rotation) + seq![c.polygon_type.spec_byte()];
    let q1 = pos + spec_ser_walls(c.walls).len() as int;
    let q2 = q1 + spec_ser_bools(c.roofs).len() as int;
    lemma_split_subrange(s, pos, spec_ser_walls(c.walls), r1);
    lemma_parse_walls_of_ser(s, pos, c.walls);
    lemma_split_subrange(s, q1, spec_ser_bools(c.roofs), r2);
    lemma_parse_bools_of_ser(s, q1, c.roofs);
    lemma_split_subrange(s, q2, spec_ser_point(c.origin), r3);
    lemma_parse_point_of_ser(s, q2, c.origin);
    lemma_split_subrange(s, q2 + 16, spec_ser_u64(c.height), r4);
    lemma_parse_u64_of_ser(s, q2 + 16, c.height);
    lemma_split_subrange(s, q2 + 24, spec_ser_u64(c.radius), r5);
    lemma_parse_u64_of_ser(s, q2 + 24, c.radius);
    lemma_split_subrange(s, q2 + 32, spec_ser_u64(c.distance), r6);
    lemma_parse_u64_of_ser(s, q2 + 32, c.distance);
    lemma_split_subrange(s, q2 + 40, spec_ser_u64(c.density), r7);
    lemma_parse_u64_of_ser(s, q2 + 40, c.density);
    lemma_split_subrange(s, q2 + 48, spec_ser_u64(c.angle), r8);
    lemma_parse_u64_of_ser(s, q2 + 48, c.angle);
    lemma_split_subrange(s, q2 + 56, spec_ser_u64(c.rotation), seq![c.polygon_type.spec_byte()]);
    lemma_parse_u64_of_ser(s, q2 + 56, c.rotation);
    assert(s.subrange(q2 + 64, q2 + 65)[0] == s[q2 + 64]);
}

/// Parsing a test case serialized by the current version yields it back
/// and consumes exactly its bytes.
pub proof fn lemma_parse_test_of_ser(s: Seq<u8>, pos: int, t: TestRep)
    requires
        0 <= pos,
        t.call.walls.len() < 0x1_0000_0000,
        t.call.roofs.len() < 0x1_0000_0000,
        t.los.len() < 0x1_0000_0000,
        t.fov.len() < 0x1_0000_0000,
        pos + spec_ser_test(t).len() <= s.len(),
        s.subrange(pos, pos + spec_ser_test(t).len()) == spec_ser_test(t),
    ensures
        spec_parse_test(s, pos, CURRENT_VERSION) == Some((t, pos + spec_ser_test(t).len())),
{
    let q1 = pos + spec_ser_call(t.call).len() as int;
    let q2 = q1 + spec_ser_points(t.los).len() as int;
    lemma_split_subrange(s, pos, spec_ser_call(t.call), spec_ser_points(t.los) + spec_ser_points(t.fov));
    lemma_parse_call_of_ser(s, pos, t.call);
    lemma_split_subrange(s, q1, spec_ser_points(t.los), spec_ser_points(t.fov));
    lemma_parse_points_of_ser(s, q1, t.los);
    lemma_parse_points_of_ser(s, q2, t.fov);
}

/// Decoding inverts encoding: the byte image of a request, followed by
/// anything at all, parses back to the request under the current version.
pub proof fn lemma_call_round_trip(c: CallRep, rest: Seq<u8>)
    requires
        c.walls.len() < 0x1_0000_0000,
        c.roofs.len() < 0x1_0000_0000,
    ensures
        spec_parse_call(spec_ser_call(c) + rest, 0, CURRENT_VERSION)
            == Some((c, spec_ser_call(c).len() as int)),
{
    let s = spec_ser_call(c) + rest;
    assert(s.subrange(0, spec_ser_call(c).len() as int) =~= spec_ser_call(c));
    lemma_parse_call_of_ser(s, 0, c);
}

/// Serialization never conflates two requests: equal byte images mean
/// equal requests.
pub proof fn lemma_ser_call_injective(c1: CallRep, c2: CallRep)
    requires
        c1.walls.len() < 0x1_0000_0000,
        c1.roofs.len() < 0x1_0000_0000,
        c2.walls.len() < 0x1_0000_0000,
        c2.roofs.len() < 0x1_0000_0000,
        spec_ser_call(c1) == spec_ser_call(c2),
    ensures
        c1 == c2,
{
    lemma_call_round_trip(c1, Seq::empty());
    lemma_call_round_trip(c2, Seq::empty());
}

/// Decoding inverts encoding for recorded test cases as well.
pub proof fn lemma_test_round_trip(t: TestRep, rest: Seq<u8>)
    requires
        t.call.walls.len() < 0x1_0000_0000,
        t.call.roofs.len() < 0x1_0000_0000,
        t.los.len() < 0x1_0000_0000,
        t.fov.len() < 0x1_0000_0000,
    ensures
        spec_parse_test(spec_ser_test(t) + rest, 0, CURRENT_VERSION)
            == Some((t, spec_ser_test(t).len() as int)),
{
    let s = spec_ser_test(t) + rest;
    assert(s.subrange(0, spec_ser_test(t).len() as int) =~= spec_ser_test(t));
    lemma_parse_test_of_ser(s, 0, t);
}

} // verus!
