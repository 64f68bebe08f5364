use vstd::prelude::*;

verus! {

/// Number of children of every inner node of the octree.
pub const CHILDREN_PER_NODE: u32 = 8;

/// One of the three main axes.
#[derive(Clone, Copy, Debug, PartialEq, Eq, Structural)]
pub enum Axis {
    X,
    Y,
    Z,
}

/// Position of an axis in `(x, y, z)` order.
pub open spec fn axis_number(axis: Axis) -> nat {
    match axis {
        Axis::X => 0,
        Axis::Y => 1,
        Axis::Z => 2,
    }
}

impl Axis {
    /// All three axes, in `(x, y, z)` order.
    pub fn all_axis() -> (axes: [Self; 3])
        ensures
            axes@ == seq![Axis::X, Axis::Y, Axis::Z],
    {
        let axes = [Self::X, Self::Y, Self::Z];
        assert(axes@ =~= seq![Axis::X, Axis::Y, Axis::Z]);
        axes
    }

    /// The axis as a `u32` (x = 0, y = 1, z = 2).
    pub fn to_u32(self) -> (n: u32)
        ensures
            n == axis_number(self),
    {
        match self {
            Axis::X => 0,
            Axis::Y => 1,
            Axis::Z => 2,
        }
    }

    /// The axis as an `i32` (x = 0, y = 1, z = 2).
    pub fn to_i32(self) -> (n: i32)
        ensures
            n == axis_number(self),
    {
        match self {
            Axis::X => 0,
            Axis::Y => 1,
            Axis::Z => 2,
        }
    }

    /// The axis as a `usize` (x = 0, y = 1, z = 2).
    pub fn to_usize(self) -> (n: usize)
        ensures
            n == axis_number(self),
    {
        match self {
            Axis::X => 0,
            Axis::Y => 1,
            Axis::Z => 2,
        }
    }
}

impl From<Axis> for u32 {
    /// The axis as a `u32` (x = 0, y = 1, z = 2).
    fn from(axis: Axis) -> (n: u32)
        ensures
            n == axis_number(axis),
    {
        axis.to_u32()
    }
}

impl vstd::std_specs::convert::FromSpecImpl<Axis> for u32 {
    open spec fn obeys_from_spec() -> bool {
        true
    }

    open spec fn from_spec(v: Axis) -> u32 {
        axis_number(v) as u32
    }
}

impl From<Axis> for i32 {
    /// The axis as an `i32` (x = 0, y = 1, z = 2).
    fn from(axis: Axis) -> (n: i32)
        ensures
            n == axis_number(axis),
    {
        axis.to_i32()
    }
}

impl vstd::std_specs::convert::FromSpecImpl<Axis> for i32 {
    open spec fn obeys_from_spec() -> bool {
        true
    }

    open spec fn from_spec(v: Axis) -> i32 {
        axis_number(v) as i32
    }
}

impl From<Axis> for usize {
    /// The axis as a `usize` (x = 0, y = 1, z = 2).
    fn from(axis: Axis) -> (n: usize)
        ensures
            n == axis_number(axis),
    {
        axis.to_usize()
    }
}

impl vstd::std_specs::convert::FromSpecImpl<Axis> for usize {
    open spec fn obeys_from_spec() -> bool {
        true
    }

    open spec fn from_spec(v: Axis) -> usize {
        axis_number(v) as usize
    }
}

/// Orientation along an axis.
#[derive(Clone, Copy, Debug, PartialEq, Eq, Structural)]
pub enum Sign {
    Pos,
    Neg,
}

/// `1` for the positive orientation, `-1` for the negative one.
pub open spec fn sign_number(sign: Sign) -> int {
    match sign {
        Sign::Pos => 1,
        Sign::Neg => -1,
    }
}

impl Sign {
    /// The sign as an `i32`: `1` or `-1`.
    pub fn to_i32(self) -> (n: i32)
        ensures
            n == sign_number(self),
    {
        match self {
            Sign::Pos => 1,
            Sign::Neg => -1,
        }
    }
}

impl From<Sign> for i32 {
    /// The sign as an `i32`: `1` or `-1`.
    fn from(sign: Sign) -> (n: i32)
        ensures
            n == sign_number(sign),
    {
        sign.to_i32()
    }
}

impl vstd::std_specs::convert::FromSpecImpl<Sign> for i32 {
    open spec fn obeys_from_spec() -> bool {
        true
    }

    open spec fn from_spec(v: Sign) -> i32 {
        sign_number(v) as i32
    }
}

/// One of the six main directions: an axis and an orientation.
#[derive(Clone, Copy, Debug, PartialEq, Eq, Structural)]
pub struct Direction {
    pub axis: Axis,
    pub sign: Sign,
}

impl Direction {
    pub fn new(axis: Axis, sign: Sign) -> (direction: Self)
        ensures
            direction.axis == axis,
            direction.sign == sign,
    {
        Self { axis, sign }
    }
}

/// Index of the neighbour texture (and of the anisotropic colour texture)
/// that belongs to a direction: `+X, -X, +Y, -Y, +Z, -Z` are `0..6`.
pub open spec fn spec_neighbor_texture_index(direction: Direction) -> nat {
    2 * axis_number(direction.axis) + match direction.sign {
        Sign::Pos => 0nat,
        Sign::Neg => 1nat,
    }
}

/// Index of the neighbour texture (and of the anisotropic colour texture)
/// that belongs to `direction`.
pub fn neighbor_texture_index(direction: Direction) -> (index: usize)
    ensures
        index == spec_neighbor_texture_index(direction),
        index < 6,
{
    let base: usize = match direction.axis {
        Axis::X => 0,
        Axis::Y => 2,
        Axis::Z => 4,
    };
    match direction.sign {
        Sign::Pos => base,
        Sign::Neg => base + 1,
    }
}

/// The two axes other than `axis`, in `(x, y, z)` order.
pub fn other_axes(axis: Axis) -> (axes: [Axis; 2])
    ensures
        axes[0] != axis,
        axes[1] != axis,
        axis_number(axes[0]) < axis_number(axes[1]),
{
    if axis == Axis::X {
        [Axis::Y, Axis::Z]
    } else if axis == Axis::Y {
        [Axis::X, Axis::Z]
    } else {
        [Axis::X, Axis::Y]
    }
}

/// Two directions share a neighbour texture exactly when they are the same
/// direction, and every index below six belongs to some direction.
pub proof fn lemma_neighbor_texture_index_bijective(a: Direction, b: Direction, index: nat)
    ensures
        spec_neighbor_texture_index(a) == spec_neighbor_texture_index(b) <==> a == b,
        spec_neighbor_texture_index(a) < 6,
        spec_neighbor_texture_index(a) / 2 == axis_number(a.axis),
        (spec_neighbor_texture_index(a) % 2 == 1) <==> (a.sign == Sign::Neg),
        index < 6 ==> exists|d: Direction| spec_neighbor_texture_index(d) == index,
{
    if index < 6 {
        let axis = if index / 2 == 0 { Axis::X } else if index / 2 == 1 { Axis::Y } else { Axis::Z };
        let sign = if index % 2 == 0 { Sign::Pos } else { Sign::Neg };
        let d = Direction { axis, sign };
        assert(spec_neighbor_texture_index(d) == index);
    }
}

/// The axis numbers are the positions of the axes in `Axis::all_axis()`,
/// and distinct axes have distinct numbers.
pub proof fn lemma_axis_number_injective(a: Axis, b: Axis)
    ensures
        axis_number(a) == axis_number(b) <==> a == b,
        axis_number(a) < 3,
        seq![Axis::X, Axis::Y, Axis::Z][axis_number(a) as int] == a,
{
}

} // verus!
