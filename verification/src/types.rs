//! Data model of the sweep engine: walls and their semantic attributes.
//!
//! Coordinates are IEEE-754 doubles owned by the host; inside the library a
//! coordinate is carried as its 64-bit pattern, which is also how points are
//! compared and serialized (bit-identical equality).

use vstd::prelude::*;

verus! {

/// Door kind of a wall.  The variant order fixes the byte values of the
/// binary envelope (`NONE` = 0, `DOOR` = 1, `SECRET` = 2).
#[derive(Debug, Copy, Clone, PartialEq, Eq, Structural)]
pub enum DoorType {
    NONE,
    DOOR,
    SECRET,
}

/// State of a door.  Variant order fixes the envelope byte values.
#[derive(Debug, Copy, Clone, PartialEq, Eq, Structural)]
pub enum DoorState {
    CLOSED,
    OPEN,
    LOCKED,
}

/// How strongly a wall blocks a sense.  Variant order fixes the envelope
/// byte values.
#[derive(Debug, Copy, Clone, PartialEq, Eq, Structural)]
pub enum WallSenseType {
    NONE,
    NORMAL,
    LIMITED,
}

/// Directionality of a wall: `LEFT`/`RIGHT` walls are transparent from one
/// side.  Variant order fixes the envelope byte values.
#[derive(Debug, Copy, Clone, PartialEq, Eq, Structural)]
pub enum WallDirection {
    BOTH,
    LEFT,
    RIGHT,
}

/// Which polygon a computation produces.  Variant order fixes the envelope
/// byte values.
#[derive(Debug, Copy, Clone, PartialEq, Eq, Structural)]
pub enum PolygonType {
    SIGHT,
    SOUND,
}

impl DoorType {
    /// Byte value of the variant in the binary envelope.
    pub open spec fn spec_byte(self) -> u8 {
        match self {
            DoorType::NONE => 0,
            DoorType::DOOR => 1,
            DoorType::SECRET => 2,
        }
    }

    /// Inverse of `spec_byte`, defined on every integer.
    pub open spec fn spec_try_from(value: usize) -> Result<DoorType, ()> {
        if value == 0 {
            Ok(DoorType::NONE)
        } else if value == 1 {
            Ok(DoorType::DOOR)
        } else if value == 2 {
            Ok(DoorType::SECRET)
        } else {
            Err(())
        }
    }

    pub fn serialize_byte(self) -> (r: u8)
        ensures
            r == self.spec_byte(),
    {
        match self {
            DoorType::NONE => 0,
            DoorType::DOOR => 1,
            DoorType::SECRET => 2,
        }
    }

    pub fn try_from(value: usize) -> (r: Result<DoorType, ()>)
        ensures
            r == Self::spec_try_from(value),
    {
        if value == 0 {
            Ok(DoorType::NONE)
        } else if value == 1 {
            Ok(DoorType::DOOR)
        } else if value == 2 {
            Ok(DoorType::SECRET)
        } else {
            Err(())
        }
    }
}

impl DoorState {
    /// Byte value of the variant in the binary envelope.
    pub open spec fn spec_byte(self) -> u8 {
        match self {
            DoorState::CLOSED => 0,
            DoorState::OPEN => 1,
            DoorState::LOCKED => 2,
        }
    }

    /// Inverse of `spec_byte`, defined on every integer.
    pub open spec fn spec_try_from(value: usize) -> Result<DoorState, ()> {
        if value == 0 {
            Ok(DoorState::CLOSED)
        } else if value == 1 {
            Ok(DoorState::OPEN)
        } else if value == 2 {
            Ok(DoorState::LOCKED)
        } else {
            Err(())
        }
    }

    pub fn serialize_byte(self) -> (r: u8)
        ensures
            r == self.spec_byte(),
    {
        match self {
            DoorState::CLOSED => 0,
            DoorState::OPEN => 1,
            DoorState::LOCKED => 2,
        }
    }

    pub fn try_from(value: usize) -> (r: Result<DoorState, ()>)
        ensures
            r == Self::spec_try_from(value),
    {
        if value == 0 {
            Ok(DoorState::CLOSED)
        } else if value == 1 {
            Ok(DoorState::OPEN)
        } else if value == 2 {
            Ok(DoorState::LOCKED)
        } else {
            Err(())
        }
    }
}

impl WallSenseType {
    /// Byte value of the variant in the binary envelope.
    pub open spec fn spec_byte(self) -> u8 {
        match self {
            WallSenseType::NONE => 0,
            WallSenseType::NORMAL => 1,
            WallSenseType::LIMITED => 2,
        }
    }

    /// Inverse of `spec_byte`, defined on every integer.
    pub open spec fn spec_try_from(value: usize) -> Result<WallSenseType, ()> {
        if value == 0 {
            Ok(WallSenseType::NONE)
        } else if value == 1 {
            Ok(WallSenseType::NORMAL)
        } else if value == 2 {
            Ok(WallSenseType::LIMITED)
        } else {
            Err(())
        }
    }

    pub fn serialize_byte(self) -> (r: u8)
        ensures
            r == self.spec_byte(),
    {
        match self {
            WallSenseType::NONE => 0,
            WallSenseType::NORMAL => 1,
            WallSenseType::LIMITED => 2,
        }
    }

    pub fn try_from(value: usize) -> (r: Result<WallSenseType, ()>)
        ensures
            r == Self::spec_try_from(value),
    {
        if value == 0 {
            Ok(WallSenseType::NONE)
        } else if value == 1 {
            Ok(WallSenseType::NORMAL)
        } else if value == 2 {
            Ok(WallSenseType::LIMITED)
        } else {
            Err(())
        }
    }
}

impl WallDirection {
    /// Byte value of the variant in the binary envelope.
    pub open spec fn spec_byte(self) -> u8 {
        match self {
            WallDirection::BOTH => 0,
            WallDirection::LEFT => 1,
            WallDirection::RIGHT => 2,
        }
    }

    /// Inverse of `spec_byte`, defined on every integer.
    pub open spec fn spec_try_from(value: usize) -> Result<WallDirection, ()> {
        if value == 0 {
            Ok(WallDirection::BOTH)
        } else if value == 1 {
            Ok(WallDirection::LEFT)
        } else if value == 2 {
            Ok(WallDirection::RIGHT)
        } else {
            Err(())
        }
    }

    pub fn serialize_byte(self) -> (r: u8)
        ensures
            r == self.spec_byte(),
    {
        match self {
            WallDirection::BOTH => 0,
            WallDirection::LEFT => 1,
            WallDirection::RIGHT => 2,
        }
    }

    pub fn try_from(value: usize) -> (r: Result<WallDirection, ()>)
        ensures
            r == Self::spec_try_from(value),
    {
        if value == 0 {
            Ok(WallDirection::BOTH)
        } else if value == 1 {
            Ok(WallDirection::LEFT)
        } else if value == 2 {
            Ok(WallDirection::RIGHT)
        } else {
            Err(())
        }
    }
}

impl PolygonType {
    /// Byte value of the variant in the binary envelope.
    pub open spec fn spec_byte(self) -> u8 {
        match self {
            PolygonType::SIGHT => 0,
            PolygonType::SOUND => 1,
        }
    }

    /// Inverse of `spec_byte`, defined on every integer.
    pub open spec fn spec_try_from(value: usize) -> Result<PolygonType, ()> {
        if value == 0 {
            Ok(PolygonType::SIGHT)
        } else if value == 1 {
            Ok(PolygonType::SOUND)
        } else {
            Err(())
        }
    }

    pub fn serialize_byte(self) -> (r: u8)
        ensures
            r == self.spec_byte(),
    {
        match self {
            PolygonType::SIGHT => 0,
            PolygonType::SOUND => 1,
        }
    }

    pub fn try_from(value: usize) -> (r: Result<PolygonType, ()>)
        ensures
            r == Self::spec_try_from(value),
    {
        if value == 0 {
            Ok(PolygonType::SIGHT)
        } else if value == 1 {
            Ok(PolygonType::SOUND)
        } else {
            Err(())
        }
    }
}

impl PolygonType {
    /// The polygon type a host names by string: `"sound"` means sound;
    /// `"sight"`, its alias `"light"`, and any unknown name mean sight.
    pub open spec fn spec_from_name(s: Seq<char>) -> PolygonType {
        if s == "sound"@ {
            PolygonType::SOUND
        } else {
            PolygonType::SIGHT
        }
    }

    pub fn from_name(value: &str) -> (r: PolygonType)
        ensures
            r == Self::spec_from_name(value@),
    {
        proof {
            reveal_strlit("sound");
        }
        let len: usize = value.unicode_len();
        if len == 5 && value.get_char(0) == 's' && value.get_char(1) == 'o'
            && value.get_char(2) == 'u' && value.get_char(3) == 'n' && value.get_char(4) == 'd' {
            proof {
                assert(value@ =~= "sound"@);
            }
            PolygonType::SOUND
        } else {
            PolygonType::SIGHT
        }
    }
}

/// A point of the plane.  `x` and `y` hold the IEEE-754 bit patterns of the
/// host's double coordinates; equality is bit-pattern equality, exactly as
/// the host compares and hashes points.
#[derive(Debug, Copy, Clone, PartialEq, Eq, Hash, Structural)]
pub struct Point {
    pub x: u64,
    pub y: u64,
}

impl Point {
    pub fn new(x: u64, y: u64) -> (r: Point)
        ensures
            r.x == x,
            r.y == y,
    {
        Point { x, y }
    }
}

/// Bit pattern of the double `+inf`.
pub const F64_POS_INFINITY_BITS: u64 = 0x7FF0_0000_0000_0000;

/// Bit pattern of the double `-inf`.
pub const F64_NEG_INFINITY_BITS: u64 = 0xFFF0_0000_0000_0000;

/// Vertical extent of a wall, as the bit patterns of two doubles.  A wall
/// without a stated height spans `(-inf, +inf)`.
#[derive(Debug, Copy, Clone, PartialEq, Eq, Structural)]
pub struct WallHeight {
    pub top: u64,
    pub bottom: u64,
}

impl Default for WallHeight {
    /// The full vertical extent: top `+inf`, bottom `-inf`.
    fn default() -> (r: Self)
        ensures
            r.top == F64_POS_INFINITY_BITS,
            r.bottom == F64_NEG_INFINITY_BITS,
    {
        WallHeight { top: F64_POS_INFINITY_BITS, bottom: F64_NEG_INFINITY_BITS }
    }
}

/// An input wall as the host hands it in: two endpoints plus semantic
/// attributes.  `roof` optionally names the tile whose occlusion state
/// decides whether the wall counts as an interior wall.
#[derive(Debug, Copy, Clone, PartialEq, Eq)]
pub struct WallBase {
    pub p1: Point,
    pub p2: Point,
    pub movement: WallSenseType,
    pub sense: WallSenseType,
    pub sound: WallSenseType,
    pub door: DoorType,
    pub ds: DoorState,
    pub dir: WallDirection,
    pub height: WallHeight,
    pub roof: Option<u32>,
}

impl WallBase {
    /// Sense of this wall for the given polygon type, honouring the interior
    /// override: for sight polygons a wall under a roof tile that is *not*
    /// occluded blocks vision like a normal wall, whatever its stored sense.
    pub open spec fn spec_current_sense(self, occluded: Seq<bool>, polygon_type: PolygonType) -> WallSenseType {
        match polygon_type {
            PolygonType::SIGHT => {
                if self.spec_is_interior(occluded) {
                    WallSenseType::NORMAL
                } else {
                    self.sense
                }
            },
            PolygonType::SOUND => self.sound,
        }
    }

    /// A wall is an interior wall when it belongs to a roof tile whose
    /// occlusion flag is off (the interior is revealed).
    pub open spec fn spec_is_interior(self, occluded: Seq<bool>) -> bool {
        match self.roof {
            Some(id) => id < occluded.len() && !occluded[id as int],
            None => false,
        }
    }

    /// Resolves the sense that applies to the given polygon type, with
    /// `occluded` the per-tile occlusion flags of the scene.
    pub fn current_sense(&self, occluded: &Vec<bool>, polygon_type: PolygonType) -> (r: WallSenseType)
        ensures
            r == self.spec_current_sense(occluded@, polygon_type),
    {
        match polygon_type {
            PolygonType::SIGHT => {
                let is_interior: bool = match self.roof {
                    Some(id) => (id as usize) < occluded.len() && !occluded[id as usize],
                    None => false,
                };
                if is_interior {
                    WallSenseType::NORMAL
                } else {
                    self.sense
                }
            },
            PolygonType::SOUND => self.sound,
        }
    }

    /// An open door blocks nothing.
    pub open spec fn spec_is_open_door(self) -> bool {
        self.door != DoorType::NONE && self.ds == DoorState::OPEN
    }

    /// The preparation stage drops a wall outright when it is an open door
    /// or its resolved sense is `NONE`; such a wall influences no polygon.
    pub open spec fn spec_is_ignored(self, occluded: Seq<bool>, polygon_type: PolygonType) -> bool {
        self.spec_is_open_door() || self.spec_current_sense(occluded, polygon_type) == WallSenseType::NONE
    }

    pub fn is_open_door(&self) -> (r: bool)
        ensures
            r == self.spec_is_open_door(),
    {
        self.door != DoorType::NONE && self.ds == DoorState::OPEN
    }

    pub fn is_ignored(&self, occluded: &Vec<bool>, polygon_type: PolygonType) -> (r: bool)
        ensures
            r == self.spec_is_ignored(occluded@, polygon_type),
    {
        self.is_open_door() || self.current_sense(occluded, polygon_type) == WallSenseType::NONE
    }
}

/// A wall whose sense is `NONE` for the polygon at hand, or whose door
/// stands open, is ignored by the sweep: keeping it in the scene or leaving
/// it out makes no difference to the computed polygons.
pub proof fn lemma_open_or_senseless_wall_ignored(w: WallBase, occluded: Seq<bool>, polygon_type: PolygonType)
    requires
        w.spec_is_open_door() || w.spec_current_sense(occluded, polygon_type) == WallSenseType::NONE,
    ensures
        w.spec_is_ignored(occluded, polygon_type),
{
}

/// For sight polygons the interior override wins over the stored sense: a
/// wall under a non-occluded roof resolves to `NORMAL` whatever its stored
/// sense says.
pub proof fn lemma_interior_wall_is_normal_for_sight(w: WallBase, occluded: Seq<bool>)
    requires
        w.spec_is_interior(occluded),
    ensures
        w.spec_current_sense(occluded, PolygonType::SIGHT) == WallSenseType::NORMAL,
{
}

} // verus!
