use std::collections::HashSet;

use vstd::prelude::*;
use vstd::std_specs::hash::spec_hash_keys_iter;
use vstd::std_specs::iter::IteratorSpec;

use crate::menu::DebugNode;

verus! {

broadcast use vstd::std_specs::hash::group_hash_axioms;

/// Which images the cone tracer shows.
///
/// The flags are numbered for the contracts: `0` colour, `1` direct light,
/// `2` indirect diffuse light, `3` indirect specular light, `4` ambient
/// occlusion.
#[derive(Debug)]
pub struct Toggles {
    should_show_color: bool,
    should_show_direct: bool,
    should_show_indirect: bool,
    should_show_indirect_specular: bool,
    should_show_ambient_occlusion: bool,
}

impl Toggles {
    /// Flag number `i` (see the type's documentation); `false` outside `0..5`.
    pub closed spec fn flag(self, i: int) -> bool {
        if i == 0 {
            self.should_show_color
        } else if i == 1 {
            self.should_show_direct
        } else if i == 2 {
            self.should_show_indirect
        } else if i == 3 {
            self.should_show_indirect_specular
        } else if i == 4 {
            self.should_show_ambient_occlusion
        } else {
            false
        }
    }

    /// `after` is `before` with flag `k` flipped and every other flag kept.
    pub open spec fn flipped(before: Self, after: Self, k: int) -> bool {
        forall|i: int| 0 <= i < 5 ==> #[trigger] after.flag(i) == (before.flag(i) != (i == k))
    }

    /// Toggles are equal exactly when all their flags are.
    pub proof fn lemma_flags_determine(a: Self, b: Self)
        requires
            forall|i: int| 0 <= i < 5 ==> #[trigger] a.flag(i) == b.flag(i),
        ensures
            a == b,
    {
        assert(a.flag(0) == b.flag(0));
        assert(a.flag(1) == b.flag(1));
        assert(a.flag(2) == b.flag(2));
        assert(a.flag(3) == b.flag(3));
        assert(a.flag(4) == b.flag(4));
    }

    /// Toggling the same image twice gives back the toggles one started from.
    pub proof fn lemma_toggle_twice(a: Self, b: Self, c: Self, k: int)
        requires
            Self::flipped(a, b, k),
            Self::flipped(b, c, k),
        ensures
            c == a,
    {
        assert forall|i: int| 0 <= i < 5 implies #[trigger] c.flag(i) == a.flag(i) by {
            assert(b.flag(i) == (a.flag(i) != (i == k)));
            assert(c.flag(i) == (b.flag(i) != (i == k)));
        }
        Self::lemma_flags_determine(c, a);
    }

    pub fn should_show_color(&self) -> (b: bool)
        ensures
            b == self.flag(0),
    {
        self.should_show_color
    }

    pub fn toggle_color(&mut self)
        ensures
            Self::flipped(*old(self), *final(self), 0),
    {
        self.should_show_color = !self.should_show_color;
    }

    pub fn should_show_direct(&self) -> (b: bool)
        ensures
            b == self.flag(1),
    {
        self.should_show_direct
    }

    pub fn toggle_direct(&mut self)
        ensures
            Self::flipped(*old(self), *final(self), 1),
    {
        self.should_show_direct = !self.should_show_direct;
    }

    pub fn should_show_indirect(&self) -> (b: bool)
        ensures
            b == self.flag(2),
    {
        self.should_show_indirect
    }

    pub fn toggle_indirect(&mut self)
        ensures
            Self::flipped(*old(self), *final(self), 2),
    {
        self.should_show_indirect = !self.should_show_indirect;
    }

    pub fn should_show_indirect_specular(&self) -> (b: bool)
        ensures
            b == self.flag(3),
    {
        self.should_show_indirect_specular
    }

    pub fn toggle_indirect_specular(&mut self)
        ensures
            Self::flipped(*old(self), *final(self), 3),
    {
        self.should_show_indirect_specular = !self.should_show_indirect_specular;
    }

    pub fn should_show_ambient_occlusion(&self) -> (b: bool)
        ensures
            b == self.flag(4),
    {
        self.should_show_ambient_occlusion
    }

    pub fn toggle_ambient_occlusion(&mut self)
        ensures
            Self::flipped(*old(self), *final(self), 4),
    {
        self.should_show_ambient_occlusion = !self.should_show_ambient_occlusion;
    }

    /// The final image quad is drawn when at least one image is shown.
    pub fn should_show_final_image_quad(&self) -> (b: bool)
        ensures
            b == exists|i: int| 0 <= i < 5 && #[trigger] self.flag(i),
    {
        let b = self.should_show_color || self.should_show_direct || self.should_show_indirect
            || self.should_show_indirect_specular || self.should_show_ambient_occlusion;
        if b {
            if self.should_show_color {
                assert(self.flag(0));
            } else if self.should_show_direct {
                assert(self.flag(1));
            } else if self.should_show_indirect {
                assert(self.flag(2));
            } else if self.should_show_indirect_specular {
                assert(self.flag(3));
            } else {
                assert(self.flag(4));
            }
        }
        b
    }
}

impl Clone for Toggles {
    fn clone(&self) -> (copy: Self)
        ensures
            copy == *self,
    {
        Toggles {
            should_show_color: self.should_show_color,
            should_show_direct: self.should_show_direct,
            should_show_indirect: self.should_show_indirect,
            should_show_indirect_specular: self.should_show_indirect_specular,
            should_show_ambient_occlusion: self.should_show_ambient_occlusion,
        }
    }
}

impl Default for Toggles {
    /// No image is shown.
    fn default() -> (toggles: Self)
        ensures
            forall|i: int| !#[trigger] toggles.flag(i),
    {
        Toggles {
            should_show_color: false,
            should_show_direct: false,
            should_show_indirect: false,
            should_show_indirect_specular: false,
            should_show_ambient_occlusion: false,
        }
    }
}

/// Description of the nodes the debug cone picks.
pub open spec fn picked_by_cone_text() -> Seq<char> {
    "picked by cone"@
}

/// The nodes the debug cone passed through this frame, after the shader
/// recorded `total_nodes_queried` node indices at the start of `values`.
///
/// When they are the same set of nodes as `previous_values`, nothing changes
/// and the result is `None`. Otherwise the result holds the new set and one
/// debug node per node in it, described as picked by the cone; the order of
/// the debug nodes is not part of the contract (it is that of first
/// occurrence in `values`).
#[verifier::spinoff_prover]
pub fn cone_picked_nodes(
    values: &Vec<u32>,
    total_nodes_queried: usize,
    previous_values: &HashSet<u32>,
) -> (picked: Option<(HashSet<u32>, Vec<DebugNode>)>)
    requires
        total_nodes_queried <= values@.len(),
    ensures
        ({
            let queried = values@.subrange(0, total_nodes_queried as int).to_set();
            &&& picked is None <==> queried == previous_values@
            &&& picked matches Some((set, nodes)) ==> {
                &&& set@ == queried
                &&& nodes@.len() == queried.len()
                &&& forall|i: int|
                    0 <= i < nodes@.len() ==> queried.contains((#[trigger] nodes@[i]).spec_index())
                        && nodes@[i].spec_text() == picked_by_cone_text()
                &&& forall|v: u32|
                    queried.contains(v) ==> exists|i: int|
                        0 <= i < nodes@.len() && (#[trigger] nodes@[i]).spec_index() == v
                &&& forall|a: int, b: int|
                    0 <= a < nodes@.len() && 0 <= b < nodes@.len() && a != b ==> (
                    #[trigger] nodes@[a]).spec_index() != (#[trigger] nodes@[b]).spec_index()
            }
        }),
{
    let ghost queried_seq = values@.subrange(0, total_nodes_queried as int);
    let mut values_set: HashSet<u32> = HashSet::new();
    let mut nodes: Vec<DebugNode> = Vec::new();
    let mut all_in_previous = true;
    let mut i: usize = 0;
    while i < total_nodes_queried
        invariant
            i <= total_nodes_queried <= values@.len(),
            queried_seq == values@.subrange(0, total_nodes_queried as int),
            values_set@ == values@.subrange(0, i as int).to_set(),
            all_in_previous == values@.subrange(0, i as int).to_set().subset_of(previous_values@),
            nodes@.len() == values_set@.len(),
            values_set@.finite(),
            forall|k: int|
                0 <= k < nodes@.len() ==> values_set@.contains((#[trigger] nodes@[k]).spec_index())
                    && nodes@[k].spec_text() == picked_by_cone_text(),
            forall|v: u32|
                values_set@.contains(v) ==> exists|k: int|
                    0 <= k < nodes@.len() && (#[trigger] nodes@[k]).spec_index() == v,
            forall|a: int, b: int|
                0 <= a < nodes@.len() && 0 <= b < nodes@.len() && a != b ==> (
                #[trigger] nodes@[a]).spec_index() != (#[trigger] nodes@[b]).spec_index(),
        decreases total_nodes_queried - i,
    {
        let value = values[i];
        proof {
            assert(values@.subrange(0, i + 1) =~= values@.subrange(0, i as int).push(value));
            values@.subrange(0, i as int).lemma_push_to_set_commute(value);
        }
        if !previous_values.contains(&value) {
            all_in_previous = false;
        }
        if !values_set.contains(&value) {
            let ghost before = nodes@;
            let text = String::from_str("picked by cone");
            nodes.push(DebugNode::new(value, text));
            values_set.insert(value);
            proof {
                assert forall|v: u32| values_set@.contains(v) implies exists|k: int|
                    0 <= k < nodes@.len() && (#[trigger] nodes@[k]).spec_index() == v by {
                    if v == value {
                        assert(nodes@[before.len() as int].spec_index() == v);
                    } else {
                        let k = choose|k: int|
                            0 <= k < before.len() && (#[trigger] before[k]).spec_index() == v;
                        assert(nodes@[k] == before[k]);
                    }
                }
                assert forall|a: int, b: int|
                    0 <= a < nodes@.len() && 0 <= b < nodes@.len() && a != b implies (
                    #[trigger] nodes@[a]).spec_index() != (#[trigger] nodes@[b]).spec_index() by {
                    if a < before.len() && b < before.len() {
                        assert(nodes@[a] == before[a]);
                        assert(nodes@[b] == before[b]);
                    } else if a < before.len() {
                        assert(nodes@[a] == before[a]);
                    } else if b < before.len() {
                        assert(nodes@[b] == before[b]);
                    }
                }
                assert forall|k: int| 0 <= k < nodes@.len() implies values_set@.contains(
                    (#[trigger] nodes@[k]).spec_index(),
                ) && nodes@[k].spec_text() == picked_by_cone_text() by {
                    if k < before.len() {
                        assert(nodes@[k] == before[k]);
                    }
                }
            }
        }
        i = i + 1;
    }
    proof {
        assert(values@.subrange(0, i as int) == queried_seq);
        vstd::seq_lib::seq_to_set_is_finite(queried_seq);
        let keys = spec_hash_keys_iter(previous_values).remaining();
        vstd::seq_lib::seq_to_set_is_finite(keys.unref());
        assert(previous_values@.finite());
    }
    let new_len = values_set.len();
    let previous_len = previous_values.len();
    assert(new_len == values_set@.len());
    assert(previous_len == previous_values@.len());
    let same = all_in_previous && new_len == previous_len;
    if same {
        proof {
            vstd::set_lib::lemma_subset_equality(values_set@, previous_values@);
            assert(values_set@ == previous_values@);
            assert(queried_seq.to_set() == previous_values@);
        }
        None
    } else {
        proof {
            if values_set@ == previous_values@ {
                assert(values_set@.subset_of(previous_values@));
                assert(all_in_previous);
                assert(new_len == previous_len);
            }
            assert(queried_seq.to_set() != previous_values@);
            assert(values_set@ == queried_seq.to_set());
        }
        Some((values_set, nodes))
    }
}

} // verus!
