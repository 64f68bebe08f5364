use vstd::prelude::*;

verus! {

/// Which of the three `z` layers of a node's brick are drawn.
///
/// The flags are numbered for the contracts: `0` for layer `z0`, `1` for
/// `z1` and `2` for `z2`.
#[derive(Debug, Clone, Copy)]
pub struct BricksToShow {
    show_z0: bool,
    show_z1: bool,
    show_z2: bool,
}

impl BricksToShow {
    /// Flag number `i`; `false` outside `0..3`.
    pub closed spec fn layer(self, i: int) -> bool {
        if i == 0 {
            self.show_z0
        } else if i == 1 {
            self.show_z1
        } else if i == 2 {
            self.show_z2
        } else {
            false
        }
    }

    /// `after` is `before` with layer `k` flipped and the others kept.
    pub open spec fn flipped(before: Self, after: Self, k: int) -> bool {
        forall|i: int| 0 <= i < 3 ==> #[trigger] after.layer(i) == (before.layer(i) != (i == k))
    }

    /// The bit mask handed to the shaders: bit `i` is set exactly when layer
    /// `i` is shown.
    pub open spec fn spec_bits(self) -> nat {
        (if self.layer(0) { 1nat } else { 0nat }) + (if self.layer(1) { 2nat } else { 0nat }) + (
        if self.layer(2) { 4nat } else { 0nat })
    }

    /// Two values are equal exactly when they show the same layers.
    pub proof fn lemma_layers_determine(a: Self, b: Self)
        requires
            forall|i: int| 0 <= i < 3 ==> #[trigger] a.layer(i) == b.layer(i),
        ensures
            a == b,
    {
        assert(a.layer(0) == b.layer(0));
        assert(a.layer(1) == b.layer(1));
        assert(a.layer(2) == b.layer(2));
    }

    /// Toggling the same layer twice gives back the value one started from.
    pub proof fn lemma_toggle_twice(a: Self, b: Self, c: Self, k: int)
        requires
            Self::flipped(a, b, k),
            Self::flipped(b, c, k),
        ensures
            c == a,
    {
        assert forall|i: int| 0 <= i < 3 implies #[trigger] c.layer(i) == a.layer(i) by {
            assert(b.layer(i) == (a.layer(i) != (i == k)));
        }
        Self::lemma_layers_determine(c, a);
    }

    /// The mask names every layer: layer `i` is shown exactly when bit `i`
    /// of the mask is set, so distinct values have distinct masks; and some
    /// layer is shown exactly when the mask is not zero.
    pub proof fn lemma_bits_encode_layers(a: Self, b: Self)
        ensures
            a.spec_bits() < 8,
            forall|i: int|
                0 <= i < 3 ==> (#[trigger] a.layer(i) <==> (a.spec_bits() / pow2_of(i)) % 2
                    == 1),
            a.spec_bits() == b.spec_bits() <==> a == b,
            (a.spec_bits() != 0) <==> (a.layer(0) || a.layer(1) || a.layer(2)),
    {
        let b0: int = if a.layer(0) { 1 } else { 0 };
        let b1: int = if a.layer(1) { 1 } else { 0 };
        let b2: int = if a.layer(2) { 1 } else { 0 };
        assert(a.spec_bits() == b0 + 2 * b1 + 4 * b2);
        assert(a.spec_bits() / 1 == b0 + 2 * b1 + 4 * b2);
        assert(a.spec_bits() / 2 == b1 + 2 * b2);
        assert(a.spec_bits() / 4 == b2);
        assert forall|i: int| 0 <= i < 3 implies (#[trigger] a.layer(i) <==> (a.spec_bits()
            / pow2_of(i)) % 2 == 1) by {
            if i == 0 {
                assert((b0 + 2 * b1 + 4 * b2) % 2 == b0);
            } else if i == 1 {
                assert((b1 + 2 * b2) % 2 == b1);
            } else {
                assert(b2 % 2 == b2);
            }
        }
        if a.spec_bits() == b.spec_bits() {
            assert forall|i: int| 0 <= i < 3 implies #[trigger] a.layer(i) == b.layer(i) by {
                if i == 0 {
                } else if i == 1 {
                } else {
                }
            }
            Self::lemma_layers_determine(a, b);
        }
    }

    pub fn toggle_z0(&mut self)
        ensures
            Self::flipped(*old(self), *final(self), 0),
    {
        self.show_z0 = !self.show_z0;
    }

    pub fn toggle_z1(&mut self)
        ensures
            Self::flipped(*old(self), *final(self), 1),
    {
        self.show_z1 = !self.show_z1;
    }

    pub fn toggle_z2(&mut self)
        ensures
            Self::flipped(*old(self), *final(self), 2),
    {
        self.show_z2 = !self.show_z2;
    }

    /// Some layer is shown.
    pub fn at_least_one(&self) -> (b: bool)
        ensures
            b == (self.layer(0) || self.layer(1) || self.layer(2)),
    {
        self.show_z0 || self.show_z1 || self.show_z2
    }

    pub fn z0(&self) -> (b: bool)
        ensures
            b == self.layer(0),
    {
        self.show_z0
    }

    pub fn z1(&self) -> (b: bool)
        ensures
            b == self.layer(1),
    {
        self.show_z1
    }

    pub fn z2(&self) -> (b: bool)
        ensures
            b == self.layer(2),
    {
        self.show_z2
    }

    /// The bit mask handed to the shaders (`z0` is bit 0, `z1` bit 1, `z2` bit 2).
    pub fn to_bits(self) -> (bits: u32)
        ensures
            bits == self.spec_bits(),
    {
        let b0: u32 = if self.show_z0 { 1 } else { 0 };
        let b1: u32 = if self.show_z1 { 2 } else { 0 };
        let b2: u32 = if self.show_z2 { 4 } else { 0 };
        b0 + b1 + b2
    }
}

/// `2` to the power `i`, for the three layer bits.
pub open spec fn pow2_of(i: int) -> nat {
    if i == 0 {
        1
    } else if i == 1 {
        2
    } else {
        4
    }
}

impl From<BricksToShow> for u32 {
    /// The bit mask handed to the shaders, as [`BricksToShow::to_bits`].
    fn from(bricks: BricksToShow) -> (bits: u32)
        ensures
            bits == bricks.spec_bits(),
    {
        bricks.to_bits()
    }
}

impl vstd::std_specs::convert::FromSpecImpl<BricksToShow> for u32 {
    open spec fn obeys_from_spec() -> bool {
        true
    }

    open spec fn from_spec(v: BricksToShow) -> u32 {
        v.spec_bits() as u32
    }
}

impl Default for BricksToShow {
    /// No layer is shown.
    fn default() -> (bricks: Self)
        ensures
            forall|i: int| !#[trigger] bricks.layer(i),
    {
        BricksToShow { show_z0: false, show_z1: false, show_z2: false }
    }
}

} // verus!
