//! Value types of the simulation core: input keys, directions, cell states,
//! grid coordinates, and the two bounding policies that resolve a tentative
//! (unchecked) coordinate against grid bounds.

use vstd::prelude::*;

verus! {

use core::cmp::Ordering;
use crate::zorder;

/// The component type of a coordinate: one tile position along one axis.
pub type SmallNat = u16;

/// A raw input code as delivered by the host environment.
#[derive(Debug, Copy, Clone, Eq, PartialEq, Structural)]
pub struct Key {
    code: u8,
}

impl Key {
    pub closed spec fn spec_code(self) -> u8 {
        self.code
    }

    /// The mapping from raw input codes to direction commands; any code
    /// other than the four arrow codes means "no direction".
    pub open spec fn spec_direction(self) -> Option<Direction> {
        if self.spec_code() == 37 {
            Some(Direction::West)
        } else if self.spec_code() == 38 {
            Some(Direction::North)
        } else if self.spec_code() == 39 {
            Some(Direction::East)
        } else if self.spec_code() == 40 {
            Some(Direction::South)
        } else {
            None
        }
    }

    /// The key that no input maps to a direction: code zero.
    pub fn none() -> (r: Key)
        ensures
            r.spec_code() == 0,
    {
        Key { code: 0 }
    }

    pub fn from_code(code: u8) -> (r: Key)
        ensures
            r.spec_code() == code,
    {
        Key { code }
    }

    /// The direction command this key stands for, if any.
    pub fn direction(self) -> (r: Option<Direction>)
        ensures
            r == self.spec_direction(),
    {
        if self.code == 37 {
            Some(Direction::West)
        } else if self.code == 38 {
            Some(Direction::North)
        } else if self.code == 39 {
            Some(Direction::East)
        } else if self.code == 40 {
            Some(Direction::South)
        } else {
            None
        }
    }

    pub fn is_direction_key(self) -> (r: bool)
        ensures
            r == (self.spec_direction() is Some),
    {
        let dir: Option<Direction> = self.direction();
        dir.is_some()
    }
}

/// One of the four axis-aligned movement directions.
#[derive(Debug, Copy, Clone, Eq, PartialEq, Structural)]
pub enum Direction {
    North,
    South,
    East,
    West,
}

impl Direction {
    pub open spec fn spec_opposite(self) -> Direction {
        match self {
            Direction::North => Direction::South,
            Direction::South => Direction::North,
            Direction::East => Direction::West,
            Direction::West => Direction::East,
        }
    }

    pub fn opposite(self) -> (r: Direction)
        ensures
            r == self.spec_opposite(),
    {
        match self {
            Direction::North => Direction::South,
            Direction::South => Direction::North,
            Direction::East => Direction::West,
            Direction::West => Direction::East,
        }
    }

    pub open spec fn spec_turn_left(self) -> Direction {
        match self {
            Direction::North => Direction::West,
            Direction::South => Direction::East,
            Direction::East => Direction::North,
            Direction::West => Direction::South,
        }
    }

    pub fn turn_left(self) -> (r: Direction)
        ensures
            r == self.spec_turn_left(),
    {
        match self {
            Direction::North => Direction::West,
            Direction::South => Direction::East,
            Direction::East => Direction::North,
            Direction::West => Direction::South,
        }
    }

    pub fn turn_right(self) -> (r: Direction)
        ensures
            r == self.spec_opposite().spec_turn_left(),
    {
        self.opposite().turn_left()
    }
}

/// Law: `opposite` is an involution — taking the opposite twice gives back
/// the original direction.
pub proof fn lemma_opposite_involution(d: Direction)
    ensures
        d.spec_opposite().spec_opposite() == d,
{
}

/// The state of one grid cell.  `OutOfBound` is a sentinel for dense-array
/// slots whose Z-order index does not decode to a cell of the logical
/// rectangle; it never describes a real cell.
#[derive(Debug, Copy, Clone, Eq, PartialEq, Structural)]
pub enum Block<T = Direction> {
    Empty,
    Snake(T),
    Food,
    OutOfBound,
}

impl<T> Block<T> {
    pub fn is_empty(self) -> (r: bool)
        ensures
            r == (self is Empty),
    {
        match self {
            Block::Empty => true,
            _ => false,
        }
    }

    pub open spec fn spec_snake(self) -> Option<T> {
        match self {
            Block::Snake(s) => Some(s),
            _ => None,
        }
    }

    /// The direction payload of an occupied cell, if the cell holds one.
    pub fn snake(self) -> (r: Option<T>)
        ensures
            r == self.spec_snake(),
    {
        match self {
            Block::Snake(s) => Some(s),
            _ => None,
        }
    }

    pub fn snake_or_err<E>(self, err: E) -> (r: Result<T, E>)
        ensures
            r == match self.spec_snake() {
                Some(s) => Ok::<T, E>(s),
                None => Err::<T, E>(err),
            },
    {
        match self {
            Block::Snake(s) => Ok(s),
            _ => Err(err),
        }
    }

    pub fn from_direction(dir: T) -> (r: Block<T>)
        ensures
            r == Block::Snake(dir),
    {
        Block::Snake(dir)
    }
}

/// A definite position inside some grid: a pair of bounded unsigned
/// components.
#[derive(Debug, Copy, Clone, Eq, PartialEq, Structural, Default)]
pub struct Coordinate {
    pub x: SmallNat,
    pub y: SmallNat,
}

impl Coordinate {
    /// The dense Z-order storage index of this coordinate.
    pub open spec fn spec_encode(self) -> u32 {
        zorder::spec_interleave(self.x, self.y)
    }

    /// The coordinate whose Z-order storage index is `z`.
    pub open spec fn spec_decode(z: u32) -> Coordinate {
        Coordinate { x: zorder::spec_deinterleave(z).0, y: zorder::spec_deinterleave(z).1 }
    }

    /// The neighbour one step towards `dir`, with wraparound arithmetic on
    /// the raw 16-bit components and no bounds check yet.
    pub open spec fn spec_move_towards(self, dir: Direction) -> Coordinate {
        match dir {
            Direction::North => Coordinate { x: self.x, y: self.y.wrapping_sub(1) },
            Direction::South => Coordinate { x: self.x, y: self.y.wrapping_add(1) },
            Direction::East => Coordinate { x: self.x.wrapping_add(1), y: self.y },
            Direction::West => Coordinate { x: self.x.wrapping_sub(1), y: self.y },
        }
    }

    pub fn move_towards(self, dir: Direction) -> (r: UncheckedCoordinate)
        ensures
            r.spec_inner() == self.spec_move_towards(dir),
    {
        let Coordinate { x, y } = self;
        match dir {
            Direction::North => UncheckedCoordinate::new(x, y.wrapping_sub(1)),
            Direction::South => UncheckedCoordinate::new(x, y.wrapping_add(1)),
            Direction::East => UncheckedCoordinate::new(x.wrapping_add(1), y),
            Direction::West => UncheckedCoordinate::new(x.wrapping_sub(1), y),
        }
    }

    pub fn encode_usize(self) -> (r: usize)
        ensures
            r == self.spec_encode(),
    {
        zorder::interleave(self.x, self.y) as usize
    }

    pub fn decode_usize(n: usize) -> (r: Coordinate)
        ensures
            r == Coordinate::spec_decode(n as u32),
    {
        let z: u32 = #[verifier::truncate] (n as u32);
        let (x, y) = zorder::deinterleave(z);
        Coordinate { x, y }
    }

    pub fn from_usizes(x: usize, y: usize) -> (r: Coordinate)
        ensures
            r.x == x as u16,
            r.y == y as u16,
    {
        Coordinate {
            x: #[verifier::truncate] (x as SmallNat),
            y: #[verifier::truncate] (y as SmallNat),
        }
    }
}

/// Three-way comparison of two 16-bit components.
pub open spec fn spec_cmp_u16(a: u16, b: u16) -> Ordering {
    if a < b {
        Ordering::Less
    } else if a == b {
        Ordering::Equal
    } else {
        Ordering::Greater
    }
}

impl vstd::std_specs::cmp::PartialOrdSpecImpl for Coordinate {
    open spec fn obeys_partial_cmp_spec() -> bool {
        true
    }

    /// Coordinates are ordered only where the componentwise comparisons
    /// agree; axes that disagree in direction leave the pair incomparable.
    open spec fn partial_cmp_spec(&self, other: &Coordinate) -> Option<Ordering> {
        match (spec_cmp_u16(self.x, other.x), spec_cmp_u16(self.y, other.y)) {
            (Ordering::Equal, o) => Some(o),
            (o, Ordering::Equal) => Some(o),
            (Ordering::Less, Ordering::Less) => Some(Ordering::Less),
            (Ordering::Greater, Ordering::Greater) => Some(Ordering::Greater),
            _ => None,
        }
    }
}

impl PartialOrd for Coordinate {
    fn partial_cmp(&self, other: &Coordinate) -> (r: Option<Ordering>) {
        match (self.x.cmp(&other.x), self.y.cmp(&other.y)) {
            (Ordering::Equal, o) => Some(o),
            (o, Ordering::Equal) => Some(o),
            (Ordering::Less, Ordering::Less) => Some(Ordering::Less),
            (Ordering::Greater, Ordering::Greater) => Some(Ordering::Greater),
            _ => None,
        }
    }
}

/// Law: where two coordinates are comparable at all, their order agrees
/// with the numeric order of their Z-order storage indices.
pub proof fn lemma_partial_cmp_matches_encode(a: Coordinate, b: Coordinate)
    ensures
        vstd::std_specs::cmp::PartialOrdSpec::partial_cmp_spec(&a, &b) matches Some(o) ==> o
            == spec_cmp_u32(a.spec_encode(), b.spec_encode()),
{
    if a.x <= b.x && a.y <= b.y {
        zorder::lemma_interleave_monotone(a.x, a.y, b.x, b.y);
    }
    if b.x <= a.x && b.y <= a.y {
        zorder::lemma_interleave_monotone(b.x, b.y, a.x, a.y);
    }
}

/// Three-way comparison of two 32-bit indices.
pub open spec fn spec_cmp_u32(a: u32, b: u32) -> Ordering {
    if a < b {
        Ordering::Less
    } else if a == b {
        Ordering::Equal
    } else {
        Ordering::Greater
    }
}

/// The result of an unchecked move: a possibly out-of-range coordinate
/// that must be resolved by exactly one bounding policy before use.
#[derive(Debug, Copy, Clone)]
pub struct UncheckedCoordinate {
    inner: Coordinate,
}

impl UncheckedCoordinate {
    /// The raw, not yet validated position.
    pub closed spec fn spec_inner(self) -> Coordinate {
        self.inner
    }

    pub fn new(x: SmallNat, y: SmallNat) -> (r: UncheckedCoordinate)
        ensures
            r.spec_inner() == (Coordinate { x, y }),
    {
        UncheckedCoordinate { inner: Coordinate { x, y } }
    }

    /// Clip policy on one tentative coordinate: succeed only where both
    /// components already lie inside the rectangle.
    pub open spec fn spec_bound_inside(self, bound_width: u16, bound_height: u16) -> Option<
        Coordinate,
    > {
        if self.spec_inner().x < bound_width && self.spec_inner().y < bound_height {
            Some(self.spec_inner())
        } else {
            None
        }
    }

    pub fn bound_inside(self, bound_width: SmallNat, bound_height: SmallNat) -> (r: Option<
        Coordinate,
    >)
        ensures
            r == self.spec_bound_inside(bound_width, bound_height),
    {
        if self.inner.x < bound_width && self.inner.y < bound_height {
            Some(self.inner)
        } else {
            None
        }
    }

    /// Wrap policy on one tentative coordinate: modular reduction of both
    /// components into the rectangle (toroidal topology).
    pub open spec fn spec_wrap_inside(self, bound_width: u16, bound_height: u16) -> Coordinate
        recommends
            bound_width > 0,
            bound_height > 0,
    {
        spec_wrap(self.spec_inner(), bound_width, bound_height)
    }

    pub fn wrap_inside(self, bound_width: SmallNat, bound_height: SmallNat) -> (r: Coordinate)
        requires
            bound_width > 0,
            bound_height > 0,
        ensures
            r == self.spec_wrap_inside(bound_width, bound_height),
            r.x < bound_width,
            r.y < bound_height,
    {
        let Coordinate { x, y } = self.inner;
        Coordinate { x: x.wrapping_add(bound_width) % bound_width, y: y.wrapping_add(bound_height)
            % bound_height }
    }
}

/// Wraparound reduction of both components of `c` into the rectangle.
pub open spec fn spec_wrap(c: Coordinate, bound_width: u16, bound_height: u16) -> Coordinate
    recommends
        bound_width > 0,
        bound_height > 0,
{
    Coordinate { x: spec_wrap1(c.x, bound_width), y: spec_wrap1(c.y, bound_height) }
}

/// Wraparound reduction of one 16-bit component into `[0, m)`: add the
/// bound with 16-bit wraparound, then reduce modulo the bound.
pub open spec fn spec_wrap1(v: u16, m: u16) -> u16
    recommends
        m > 0,
{
    (v.wrapping_add(m) % m) as u16
}

/// Wrapping one component that already lies inside the bound changes
/// nothing, as long as adding the bound stays within 16 bits.
proof fn lemma_wrap1_identity(v: u16, m: u16)
    requires
        0 < m,
        v < m,
        v + m <= u16::MAX,
    ensures
        spec_wrap1(v, m) == v,
{
    assert(v.wrapping_add(m) == (v + m) as u16);
    vstd::arithmetic::div_mod::lemma_mod_multiples_vanish(1, v as int, m as int);
    vstd::arithmetic::div_mod::lemma_small_mod(v as nat, m as nat);
}

/// Stepping one component up by one and re-wrapping advances it cyclically
/// within `[0, m)`, for bounds up to half the 16-bit range.
proof fn lemma_wrap1_up(v: u16, m: u16)
    requires
        0 < m,
        m <= 32768,
        v < m,
    ensures
        spec_wrap1(v.wrapping_add(1), m) == if v + 1 == m {
            0u16
        } else {
            (v + 1) as u16
        },
{
    let a = (v + 1) as u16;
    assert(v.wrapping_add(1) == a);
    if a + m <= u16::MAX {
        assert(a.wrapping_add(m) == (a + m) as u16);
        vstd::arithmetic::div_mod::lemma_mod_multiples_vanish(1, a as int, m as int);
        if a < m {
            vstd::arithmetic::div_mod::lemma_small_mod(a as nat, m as nat);
        } else {
            vstd::arithmetic::div_mod::lemma_mod_multiples_vanish(1, 0, m as int);
        }
    } else {
        assert(a == m && m == 32768);
        assert(a.wrapping_add(m) == 0);
        vstd::arithmetic::div_mod::lemma_small_mod(0, m as nat);
    }
}

/// Stepping one component down by one and re-wrapping retreats it
/// cyclically within `[0, m)`, for bounds up to half the 16-bit range.
proof fn lemma_wrap1_down(v: u16, m: u16)
    requires
        0 < m,
        m <= 32768,
        v < m,
    ensures
        spec_wrap1(v.wrapping_sub(1), m) == if v == 0 {
            (m - 1) as u16
        } else {
            (v - 1) as u16
        },
{
    if v == 0 {
        let a: u16 = u16::MAX;
        assert(v.wrapping_sub(1) == a);
        assert(a.wrapping_add(m) == (m - 1) as u16);
        vstd::arithmetic::div_mod::lemma_small_mod((m - 1) as nat, m as nat);
    } else {
        let a = (v - 1) as u16;
        assert(v.wrapping_sub(1) == a);
        assert(a.wrapping_add(m) == (a + m) as u16);
        vstd::arithmetic::div_mod::lemma_mod_multiples_vanish(1, a as int, m as int);
        vstd::arithmetic::div_mod::lemma_small_mod(a as nat, m as nat);
    }
}

/// Law: wherever the clip policy succeeds, the wrap policy resolves the
/// same tentative coordinate to the same result.  The proviso that adding
/// the bound must not overflow the 16-bit wraparound arithmetic is needed:
/// with a component inside a bound above half the 16-bit range, the
/// wraparound add spills and the two policies part ways.
pub proof fn lemma_clip_agrees_with_wrap(t: UncheckedCoordinate, bound_width: u16, bound_height: u16)
    requires
        bound_width > 0,
        bound_height > 0,
        t.spec_inner().x + bound_width <= u16::MAX,
        t.spec_inner().y + bound_height <= u16::MAX,
        t.spec_bound_inside(bound_width, bound_height) is Some,
    ensures
        <Bounding as BoundingBehavior>::spec_resolve(t, bound_width, bound_height)
            == <Wrapping as BoundingBehavior>::spec_resolve(t, bound_width, bound_height),
{
    lemma_wrap1_identity(t.spec_inner().x, bound_width);
    lemma_wrap1_identity(t.spec_inner().y, bound_height);
}

/// Law: moving one step towards `d` and then one step towards the
/// opposite of `d`, re-wrapping after each move, returns to the original
/// wrapped coordinate, for bounds up to half the 16-bit range.
pub proof fn lemma_opposite_moves_cancel(
    t: UncheckedCoordinate,
    d: Direction,
    bound_width: u16,
    bound_height: u16,
)
    requires
        0 < bound_width,
        bound_width <= 32768,
        0 < bound_height,
        bound_height <= 32768,
    ensures
        ({
            let c0 = t.spec_wrap_inside(bound_width, bound_height);
            let c1 = spec_wrap(c0.spec_move_towards(d), bound_width, bound_height);
            let c2 = spec_wrap(c1.spec_move_towards(d.spec_opposite()), bound_width, bound_height);
            c2 == c0
        }),
{
    let c0 = t.spec_wrap_inside(bound_width, bound_height);
    let c1 = spec_wrap(c0.spec_move_towards(d), bound_width, bound_height);
    match d {
        Direction::North | Direction::South => {
            lemma_wrap1_identity(c0.x, bound_width);
            lemma_wrap1_identity(c1.x, bound_width);
            if d is North {
                lemma_wrap1_down(c0.y, bound_height);
                lemma_wrap1_up(c1.y, bound_height);
            } else {
                lemma_wrap1_up(c0.y, bound_height);
                lemma_wrap1_down(c1.y, bound_height);
            }
        },
        Direction::East | Direction::West => {
            lemma_wrap1_identity(c0.y, bound_height);
            lemma_wrap1_identity(c1.y, bound_height);
            if d is East {
                lemma_wrap1_up(c0.x, bound_width);
                lemma_wrap1_down(c1.x, bound_width);
            } else {
                lemma_wrap1_down(c0.x, bound_width);
                lemma_wrap1_up(c1.x, bound_width);
            }
        },
    }
}

/// Law: the four moves East, North, West, South in sequence, each
/// re-wrapped, return to the starting wrapped coordinate, for bounds up to
/// half the 16-bit range.
pub proof fn lemma_enws_moves_cancel(t: UncheckedCoordinate, bound_width: u16, bound_height: u16)
    requires
        0 < bound_width,
        bound_width <= 32768,
        0 < bound_height,
        bound_height <= 32768,
    ensures
        ({
            let c0 = t.spec_wrap_inside(bound_width, bound_height);
            let c1 = spec_wrap(c0.spec_move_towards(Direction::East), bound_width, bound_height);
            let c2 = spec_wrap(c1.spec_move_towards(Direction::North), bound_width, bound_height);
            let c3 = spec_wrap(c2.spec_move_towards(Direction::West), bound_width, bound_height);
            let c4 = spec_wrap(c3.spec_move_towards(Direction::South), bound_width, bound_height);
            c4 == c0
        }),
{
    let c0 = t.spec_wrap_inside(bound_width, bound_height);
    let c1 = spec_wrap(c0.spec_move_towards(Direction::East), bound_width, bound_height);
    let c2 = spec_wrap(c1.spec_move_towards(Direction::North), bound_width, bound_height);
    let c3 = spec_wrap(c2.spec_move_towards(Direction::West), bound_width, bound_height);
    lemma_wrap1_up(c0.x, bound_width);
    lemma_wrap1_identity(c0.y, bound_height);
    lemma_wrap1_identity(c1.x, bound_width);
    lemma_wrap1_down(c1.y, bound_height);
    lemma_wrap1_down(c2.x, bound_width);
    lemma_wrap1_identity(c2.y, bound_height);
    lemma_wrap1_identity(c3.x, bound_width);
    lemma_wrap1_up(c3.y, bound_height);
}

/// Capability that resolves a tentative coordinate against grid bounds,
/// chosen statically at each call site so movement logic stays policy-free.
pub trait BoundingBehavior {
    spec fn spec_resolve(t: UncheckedCoordinate, width: u16, height: u16) -> Option<Coordinate>;

    fn resolve(t: UncheckedCoordinate, width: u16, height: u16) -> (r: Option<Coordinate>)
        requires
            width > 0,
            height > 0,
        ensures
            r == Self::spec_resolve(t, width, height),
    ;
}

/// Policy: wrap out-of-range components around (toroidal grid); always
/// yields a coordinate.
#[derive(Copy, Clone)]
pub struct Wrapping;

/// Policy: reject out-of-range coordinates; yields nothing for them.
#[derive(Copy, Clone)]
pub struct Bounding;

impl BoundingBehavior for Wrapping {
    open spec fn spec_resolve(t: UncheckedCoordinate, width: u16, height: u16) -> Option<
        Coordinate,
    > {
        Some(t.spec_wrap_inside(width, height))
    }

    fn resolve(t: UncheckedCoordinate, width: u16, height: u16) -> (r: Option<Coordinate>) {
        Some(t.wrap_inside(width, height))
    }
}

impl BoundingBehavior for Bounding {
    open spec fn spec_resolve(t: UncheckedCoordinate, width: u16, height: u16) -> Option<
        Coordinate,
    > {
        t.spec_bound_inside(width, height)
    }

    fn resolve(t: UncheckedCoordinate, width: u16, height: u16) -> (r: Option<Coordinate>) {
        t.bound_inside(width, height)
    }
}

} // verus!
