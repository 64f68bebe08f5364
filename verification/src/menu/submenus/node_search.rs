use vstd::prelude::*;

use crate::menu::DebugNode;
use crate::text::{contains, contains_str, decimal, decimal_string, starts_with};

verus! {

/// Maximum number of unselected nodes the node search window lists.
pub const MAX_LISTED_ITEMS: usize = 20;

/// Some node of `selected` has index `index`.
pub open spec fn is_selected(selected: Seq<DebugNode>, index: u32) -> bool {
    exists|s: int| 0 <= s < selected.len() && (#[trigger] selected[s]).spec_index() == index
}

/// No two nodes of `nodes` have the same index.
pub open spec fn distinct_indices(nodes: Seq<DebugNode>) -> bool {
    forall|a: int, b: int|
        0 <= a < nodes.len() && 0 <= b < nodes.len() && a != b ==> (#[trigger] nodes[a]).spec_index()
            != (#[trigger] nodes[b]).spec_index()
}

/// Item `i` of `items` is listed: it is not selected, and the filter is a
/// prefix of its position written in decimal or occurs in its description.
pub open spec fn item_matches(
    items: Seq<DebugNode>,
    selected: Seq<DebugNode>,
    filter: Seq<char>,
    i: int,
) -> bool {
    &&& !is_selected(selected, i as u32)
    &&& (filter.is_prefix_of(decimal(i as nat)) || contains_str(items[i].spec_text(), filter))
}

/// Positions, in increasing order, of the items among the first `n` that match.
pub open spec fn matching_items(
    items: Seq<DebugNode>,
    selected: Seq<DebugNode>,
    filter: Seq<char>,
    n: nat,
) -> Seq<int>
    decreases n,
{
    if n == 0 {
        Seq::empty()
    } else {
        let before = matching_items(items, selected, filter, (n - 1) as nat);
        if item_matches(items, selected, filter, n - 1) {
            before.push(n - 1)
        } else {
            before
        }
    }
}

/// At most the first `MAX_LISTED_ITEMS` elements of `s`.
pub open spec fn first_listed(s: Seq<int>) -> Seq<int> {
    if s.len() <= 20 {
        s
    } else {
        s.take(20)
    }
}

/// Positions of the items the node search window lists: the first twenty
/// matching ones.
pub open spec fn spec_listed_items(
    items: Seq<DebugNode>,
    selected: Seq<DebugNode>,
    filter: Seq<char>,
) -> Seq<int> {
    first_listed(matching_items(items, selected, filter, items.len()))
}

/// Position of the first node of `selected` whose index is `index`.
pub open spec fn first_position(selected: Seq<DebugNode>, index: u32, p: int) -> bool {
    &&& 0 <= p < selected.len()
    &&& selected[p].spec_index() == index
    &&& forall|q: int| 0 <= q < p ==> (#[trigger] selected[q]).spec_index() != index
}

/// What the node search window hands to the renderer.
#[derive(Debug)]
pub struct NodeSearchMenuOutput {
    pub selected_items: Vec<DebugNode>,
    pub filter_text: String,
    pub should_show_neighbors: bool,
    pub selected_items_updated: bool,
}

impl Default for NodeSearchMenuOutput {
    fn default() -> (output: Self)
        ensures
            output.selected_items@.len() == 0,
            output.filter_text@.len() == 0,
            !output.should_show_neighbors,
            !output.selected_items_updated,
    {
        NodeSearchMenuOutput {
            selected_items: Vec::new(),
            filter_text: String::new(),
            should_show_neighbors: false,
            selected_items_updated: false,
        }
    }
}

/// The nodes the node search window searches.
pub struct NodeSearchMenuInput {
    items: Vec<DebugNode>,
}

impl NodeSearchMenuInput {
    pub closed spec fn spec_items(&self) -> Seq<DebugNode> {
        self.items@
    }

    pub fn new(items: Vec<DebugNode>) -> (input: Self)
        ensures
            input.spec_items() == items@,
    {
        Self { items }
    }

    /// The nodes searched.
    pub fn items(&self) -> (items: &Vec<DebugNode>)
        ensures
            items@ == self.spec_items(),
    {
        &self.items
    }
}

/// Window that searches nodes by index or description and selects some of
/// them for debugging.
#[derive(Debug)]
pub struct NodeSearchMenu {
    is_showing: bool,
    output: NodeSearchMenuOutput,
}

impl NodeSearchMenu {
    pub closed spec fn spec_is_showing(&self) -> bool {
        self.is_showing
    }

    pub closed spec fn spec_selected(&self) -> Seq<DebugNode> {
        self.output.selected_items@
    }

    pub closed spec fn spec_filter(&self) -> Seq<char> {
        self.output.filter_text@
    }

    pub closed spec fn spec_show_neighbors(&self) -> bool {
        self.output.should_show_neighbors
    }

    pub closed spec fn spec_updated(&self) -> bool {
        self.output.selected_items_updated
    }

    pub fn is_showing(&self) -> (b: bool)
        ensures
            b == self.spec_is_showing(),
    {
        self.is_showing
    }

    pub fn toggle_showing(&mut self)
        ensures
            final(self).spec_is_showing() == !old(self).spec_is_showing(),
            final(self).spec_selected() == old(self).spec_selected(),
            final(self).spec_filter() == old(self).spec_filter(),
            final(self).spec_show_neighbors() == old(self).spec_show_neighbors(),
            final(self).spec_updated() == old(self).spec_updated(),
    {
        self.is_showing = !self.is_showing;
    }

    pub fn get_data(&self) -> (output: &NodeSearchMenuOutput)
        ensures
            output.selected_items@ == self.spec_selected(),
            output.filter_text@ == self.spec_filter(),
            output.should_show_neighbors == self.spec_show_neighbors(),
            output.selected_items_updated == self.spec_updated(),
    {
        &self.output
    }

    /// The neighbours toggle was clicked.
    pub fn toggle_neighbors(&mut self)
        ensures
            final(self).spec_show_neighbors() == !old(self).spec_show_neighbors(),
            final(self).spec_is_showing() == old(self).spec_is_showing(),
            final(self).spec_selected() == old(self).spec_selected(),
            final(self).spec_filter() == old(self).spec_filter(),
            final(self).spec_updated() == old(self).spec_updated(),
    {
        self.output.should_show_neighbors = !self.output.should_show_neighbors;
    }

    /// The filter was edited to `filter_text`.
    pub fn set_filter_text(&mut self, filter_text: String)
        ensures
            final(self).spec_filter() == filter_text@,
            final(self).spec_is_showing() == old(self).spec_is_showing(),
            final(self).spec_selected() == old(self).spec_selected(),
            final(self).spec_show_neighbors() == old(self).spec_show_neighbors(),
            final(self).spec_updated() == old(self).spec_updated(),
    {
        self.output.filter_text = filter_text;
    }

    /// Whether item `item_index` of `items` is listed.
    fn item_is_listed(&self, items: &Vec<DebugNode>, item_index: usize) -> (b: bool)
        requires
            item_index < items@.len(),
        ensures
            b == item_matches(items@, self.spec_selected(), self.spec_filter(), item_index as int),
    {
        let selected = &self.output.selected_items;
        let mut s: usize = 0;
        while s < selected.len()
            invariant
                s <= selected@.len(),
                selected@ == self.spec_selected(),
                forall|t: int| 0 <= t < s ==> (#[trigger] selected@[t]).spec_index() != item_index as u32,
            decreases selected@.len() - s,
        {
            if selected[s].index() == item_index as u32 {
                assert(is_selected(selected@, item_index as u32));
                return false;
            }
            s = s + 1;
        }
        let position = decimal_string(item_index as u64);
        let filter = self.output.filter_text.as_str();
        if starts_with(position.as_str(), filter) {
            return true;
        }
        contains(items[item_index].text(), filter)
    }

    /// Positions, in increasing order, of the nodes of `input` the window
    /// lists: the first twenty that are not selected and whose position
    /// starts with the filter or whose description holds it.
    pub fn listed_items(&self, input: &NodeSearchMenuInput) -> (listed: Vec<usize>)
        ensures
            listed@.len() == spec_listed_items(
                input.spec_items(),
                self.spec_selected(),
                self.spec_filter(),
            ).len(),
            forall|j: int|
                0 <= j < listed@.len() ==> #[trigger] listed@[j] as int == spec_listed_items(
                    input.spec_items(),
                    self.spec_selected(),
                    self.spec_filter(),
                )[j],
            listed@.len() <= 20,
            forall|j: int|
                0 <= j < listed@.len() ==> {
                    let i = #[trigger] listed@[j] as int;
                    &&& i < input.spec_items().len()
                    &&& !is_selected(self.spec_selected(), i as u32)
                    &&& (self.spec_filter().is_prefix_of(decimal(i as nat)) || contains_str(
                        input.spec_items()[i].spec_text(),
                        self.spec_filter(),
                    ))
                },
            forall|i: int|
                #![trigger listed_or_full(listed@, i)]
                0 <= i < input.spec_items().len() && !is_selected(self.spec_selected(), i as u32)
                    && (self.spec_filter().is_prefix_of(decimal(i as nat)) || contains_str(
                    input.spec_items()[i].spec_text(),
                    self.spec_filter(),
                )) ==> listed_or_full(listed@, i),
    {
        let items = &input.items;
        let ghost sel = self.spec_selected();
        let ghost filter = self.spec_filter();
        let mut listed: Vec<usize> = Vec::new();
        let mut i: usize = 0;
        while i < items.len()
            invariant
                i <= items@.len(),
                items@ == input.spec_items(),
                sel == self.spec_selected(),
                filter == self.spec_filter(),
                listed@.len() == first_listed(matching_items(items@, sel, filter, i as nat)).len(),
                forall|j: int|
                    0 <= j < listed@.len() ==> #[trigger] listed@[j] as int == first_listed(
                        matching_items(items@, sel, filter, i as nat),
                    )[j],
            decreases items@.len() - i,
        {
            let ghost before = matching_items(items@, sel, filter, i as nat);
            let listed_here = self.item_is_listed(items, i);
            proof {
                lemma_matching_items_len(items@, sel, filter, i as nat);
            }
            if listed_here && listed.len() < MAX_LISTED_ITEMS {
                listed.push(i);
            }
            i = i + 1;
            proof {
                let after = matching_items(items@, sel, filter, i as nat);
                if listed_here {
                    assert(after == before.push((i - 1) as int));
                    if before.len() < 20 {
                        assert(first_listed(after) =~= first_listed(before).push((i - 1) as int));
                    } else {
                        assert(first_listed(after) =~= first_listed(before));
                    }
                } else {
                    assert(after == before);
                }
            }
        }
        proof {
            let spec_list = spec_listed_items(items@, sel, filter);
            lemma_listed_items_by_filter(items@, sel, filter);
            assert(items@ == input.spec_items());
            lemma_listed_positions_complete(items@, sel, filter, listed@);
            assert forall|j: int| 0 <= j < listed@.len() implies {
                let i = #[trigger] listed@[j] as int;
                &&& i < items@.len()
                &&& !is_selected(sel, i as u32)
                &&& (filter.is_prefix_of(decimal(i as nat)) || contains_str(
                    items@[i].spec_text(),
                    filter,
                ))
            } by {
                assert(listed@[j] as int == spec_list[j]);
            }
        }
        listed
    }

    /// Unselected item `item_index` of `input` was clicked; `shift` tells
    /// whether the left shift key is held. Without shift the selection is
    /// replaced by the item, with shift the item is added to it. An item
    /// that is already selected (the list never shows one) is removed at
    /// position `item_index` of the selection.
    pub fn click_item(&mut self, input: &NodeSearchMenuInput, item_index: usize, shift: bool)
        requires
            item_index < input.spec_items().len(),
            is_selected(old(self).spec_selected(), item_index as u32) ==> item_index < old(
                self,
            ).spec_selected().len(),
        ensures
            final(self).spec_selected() == if is_selected(
                old(self).spec_selected(),
                item_index as u32,
            ) {
                old(self).spec_selected().remove(item_index as int)
            } else if !shift {
                seq![input.spec_items()[item_index as int]]
            } else {
                old(self).spec_selected().push(input.spec_items()[item_index as int])
            },
            final(self).spec_updated(),
            final(self).spec_is_showing() == old(self).spec_is_showing(),
            final(self).spec_filter() == old(self).spec_filter(),
            final(self).spec_show_neighbors() == old(self).spec_show_neighbors(),
    {
        let selected = &self.output.selected_items;
        let mut clicking_selected_item = false;
        let mut s: usize = 0;
        while s < selected.len()
            invariant
                s <= selected@.len(),
                selected@ == old(self).spec_selected(),
                clicking_selected_item == exists|t: int|
                    0 <= t < s && (#[trigger] selected@[t]).spec_index() == item_index as u32,
            decreases selected@.len() - s,
        {
            if selected[s].index() == item_index as u32 {
                clicking_selected_item = true;
            }
            s = s + 1;
        }
        if clicking_selected_item {
            self.output.selected_items.remove(item_index);
        } else {
            if !shift {
                self.output.selected_items.clear();
            }
            self.output.selected_items.push(input.items[item_index].clone());
        }
        self.output.selected_items_updated = true;
        assert(final(self).spec_selected() =~= if is_selected(
            old(self).spec_selected(),
            item_index as u32,
        ) {
            old(self).spec_selected().remove(item_index as int)
        } else if !shift {
            seq![input.spec_items()[item_index as int]]
        } else {
            old(self).spec_selected().push(input.spec_items()[item_index as int])
        });
    }

    /// Selected node number `selected_index` was clicked: the first selected
    /// node with its index leaves the selection.
    pub fn click_selected_item(&mut self, selected_index: usize)
        requires
            selected_index < old(self).spec_selected().len(),
        ensures
            exists|p: int|
                first_position(
                    old(self).spec_selected(),
                    old(self).spec_selected()[selected_index as int].spec_index(),
                    p,
                ) && final(self).spec_selected() == old(self).spec_selected().remove(p),
            final(self).spec_updated(),
            final(self).spec_is_showing() == old(self).spec_is_showing(),
            final(self).spec_filter() == old(self).spec_filter(),
            final(self).spec_show_neighbors() == old(self).spec_show_neighbors(),
    {
        let selected = &self.output.selected_items;
        let index = selected[selected_index].index();
        let mut p: usize = 0;
        while selected[p].index() != index
            invariant
                p <= selected_index,
                selected_index < selected@.len(),
                selected@ == old(self).spec_selected(),
                index == selected@[selected_index as int].spec_index(),
                forall|q: int| 0 <= q < p ==> (#[trigger] selected@[q]).spec_index() != index,
            decreases selected_index - p,
        {
            p = p + 1;
        }
        assert(first_position(old(self).spec_selected(), index, p as int));
        self.output.selected_items.remove(p);
        self.output.selected_items_updated = true;
    }
}

impl Default for NodeSearchMenu {
    fn default() -> (menu: Self)
        ensures
            !menu.spec_is_showing(),
            menu.spec_selected().len() == 0,
            menu.spec_filter().len() == 0,
            !menu.spec_show_neighbors(),
            !menu.spec_updated(),
    {
        NodeSearchMenu { is_showing: false, output: NodeSearchMenuOutput::default() }
    }
}

/// The matching items among the first `n` are no more than `n`.
pub proof fn lemma_matching_items_len(
    items: Seq<DebugNode>,
    selected: Seq<DebugNode>,
    filter: Seq<char>,
    n: nat,
)
    ensures
        matching_items(items, selected, filter, n).len() <= n,
        forall|j: int|
            0 <= j < matching_items(items, selected, filter, n).len() ==> 0 <= #[trigger] matching_items(
                items,
                selected,
                filter,
                n,
            )[j] < n,
    decreases n,
{
    if n > 0 {
        lemma_matching_items_len(items, selected, filter, (n - 1) as nat);
    }
}

/// Every listed item matches the filter and is not selected; the listed
/// positions increase, and there are at most twenty of them.
pub proof fn lemma_listed_items_match(
    items: Seq<DebugNode>,
    selected: Seq<DebugNode>,
    filter: Seq<char>,
)
    ensures
        spec_listed_items(items, selected, filter).len() <= 20,
        forall|j: int|
            0 <= j < spec_listed_items(items, selected, filter).len() ==> {
                let i = #[trigger] spec_listed_items(items, selected, filter)[j];
                &&& 0 <= i < items.len()
                &&& item_matches(items, selected, filter, i)
                &&& !is_selected(selected, i as u32)
            },
        forall|a: int, b: int|
            0 <= a < b < spec_listed_items(items, selected, filter).len() ==> #[trigger] spec_listed_items(
                items,
                selected,
                filter,
            )[a] < #[trigger] spec_listed_items(items, selected, filter)[b],
{
    lemma_matching_items_sorted_matching(items, selected, filter, items.len());
}

/// Position `i` is in `listed`, or `listed` is full with twenty positions
/// that all come before `i`.
pub open spec fn listed_or_full(listed: Seq<usize>, i: int) -> bool {
    ||| exists|j: int| 0 <= j < listed.len() && listed[j] as int == i
    ||| listed.len() == 20 && forall|k: int| 0 <= k < 20 ==> (listed[k] as int) < i
}

proof fn lemma_listed_positions_complete(
    items: Seq<DebugNode>,
    selected: Seq<DebugNode>,
    filter: Seq<char>,
    listed: Seq<usize>,
)
    requires
        listed.len() == spec_listed_items(items, selected, filter).len(),
        forall|j: int|
            0 <= j < listed.len() ==> #[trigger] listed[j] as int == spec_listed_items(
                items,
                selected,
                filter,
            )[j],
    ensures
        forall|i: int|
            #![trigger listed_or_full(listed, i)]
            0 <= i < items.len() && !is_selected(selected, i as u32) && (filter.is_prefix_of(
                decimal(i as nat),
            ) || contains_str(items[i].spec_text(), filter)) ==> listed_or_full(listed, i),
{
    let spec_list = spec_listed_items(items, selected, filter);
    lemma_listed_items_by_filter(items, selected, filter);
    assert forall|i: int|
        #![trigger listed_or_full(listed, i)]
        0 <= i < items.len() && !is_selected(selected, i as u32) && (filter.is_prefix_of(
            decimal(i as nat),
        ) || contains_str(items[i].spec_text(), filter)) implies listed_or_full(listed, i) by {
        if spec_list.contains(i) {
            let j = choose|j: int| 0 <= j < spec_list.len() && spec_list[j] == i;
            assert(listed[j] as int == spec_list[j]);
            assert(listed_or_full(listed, i));
        } else {
            assert(spec_list.len() == 20);
            assert forall|k: int| 0 <= k < 20 implies (listed[k] as int) < i by {
                assert(listed[k] as int == spec_list[k]);
            }
            assert(listed_or_full(listed, i));
        }
    }
}

proof fn lemma_matching_items_complete(
    items: Seq<DebugNode>,
    selected: Seq<DebugNode>,
    filter: Seq<char>,
    n: nat,
)
    ensures
        forall|i: int|
            0 <= i < n && !is_selected(selected, i as u32) && (filter.is_prefix_of(
                decimal(i as nat),
            ) || contains_str(items[i].spec_text(), filter)) ==> #[trigger] matching_items(
                items,
                selected,
                filter,
                n,
            ).contains(i),
    decreases n,
{
    if n > 0 {
        let m = (n - 1) as nat;
        lemma_matching_items_complete(items, selected, filter, m);
        let before = matching_items(items, selected, filter, m);
        let after = matching_items(items, selected, filter, n);
        assert forall|i: int|
            0 <= i < n && !is_selected(selected, i as u32) && (filter.is_prefix_of(
                decimal(i as nat),
            ) || contains_str(items[i].spec_text(), filter)) implies #[trigger] after.contains(
            i,
        ) by {
            if i < m {
                assert(before.contains(i));
                let k = choose|k: int| 0 <= k < before.len() && before[k] == i;
                if item_matches(items, selected, filter, n - 1) {
                    assert(after[k] == before[k]);
                }
            } else {
                assert(item_matches(items, selected, filter, n - 1));
                assert(after[before.len() as int] == i);
            }
        }
    }
}

/// What the node search window lists, in terms of the filter: the positions
/// listed increase, there are at most twenty, and each is an unselected
/// item whose position written in decimal starts with the filter or whose
/// description holds it. Conversely every such item is listed, unless the
/// list is full with twenty items that all come before it.
pub proof fn lemma_listed_items_by_filter(
    items: Seq<DebugNode>,
    selected: Seq<DebugNode>,
    filter: Seq<char>,
)
    ensures
        spec_listed_items(items, selected, filter).len() <= 20,
        forall|j: int|
            0 <= j < spec_listed_items(items, selected, filter).len() ==> {
                let i = #[trigger] spec_listed_items(items, selected, filter)[j];
                &&& 0 <= i < items.len()
                &&& !is_selected(selected, i as u32)
                &&& (filter.is_prefix_of(decimal(i as nat)) || contains_str(
                    items[i].spec_text(),
                    filter,
                ))
            },
        forall|a: int, b: int|
            0 <= a < b < spec_listed_items(items, selected, filter).len() ==> #[trigger] spec_listed_items(
                items,
                selected,
                filter,
            )[a] < #[trigger] spec_listed_items(items, selected, filter)[b],
        forall|i: int|
            0 <= i < items.len() && !is_selected(selected, i as u32) && (filter.is_prefix_of(
                decimal(i as nat),
            ) || contains_str(items[i].spec_text(), filter)) ==> #[trigger] spec_listed_items(
                items,
                selected,
                filter,
            ).contains(i) || (spec_listed_items(items, selected, filter).len() == 20 && forall|
                k: int,
            |
                0 <= k < 20 ==> #[trigger] spec_listed_items(items, selected, filter)[k] < i),
{
    let n = items.len();
    let all = matching_items(items, selected, filter, n);
    let listed = spec_listed_items(items, selected, filter);
    lemma_matching_items_sorted_matching(items, selected, filter, n);
    lemma_matching_items_complete(items, selected, filter, n);
    lemma_listed_items_match(items, selected, filter);
    assert forall|i: int|
        0 <= i < items.len() && !is_selected(selected, i as u32) && (filter.is_prefix_of(
            decimal(i as nat),
        ) || contains_str(items[i].spec_text(), filter)) implies #[trigger] listed.contains(i) || (
    listed.len() == 20 && forall|k: int| 0 <= k < 20 ==> #[trigger] listed[k] < i) by {
        assert(all.contains(i));
        let p = choose|p: int| 0 <= p < all.len() && all[p] == i;
        if all.len() <= 20 {
            assert(listed == all);
        } else {
            assert(listed == all.take(20));
            if p < 20 {
                assert(listed[p] == i);
            } else {
                assert forall|k: int| 0 <= k < 20 implies #[trigger] listed[k] < i by {
                    assert(listed[k] == all[k]);
                    assert(all[k] < all[p]);
                }
            }
        }
    }
}

proof fn lemma_matching_items_sorted_matching(
    items: Seq<DebugNode>,
    selected: Seq<DebugNode>,
    filter: Seq<char>,
    n: nat,
)
    ensures
        forall|j: int|
            0 <= j < matching_items(items, selected, filter, n).len() ==> {
                let i = #[trigger] matching_items(items, selected, filter, n)[j];
                &&& 0 <= i < n
                &&& item_matches(items, selected, filter, i)
            },
        forall|a: int, b: int|
            0 <= a < b < matching_items(items, selected, filter, n).len() ==> #[trigger] matching_items(
                items,
                selected,
                filter,
                n,
            )[a] < #[trigger] matching_items(items, selected, filter, n)[b],
    decreases n,
{
    if n > 0 {
        let m = (n - 1) as nat;
        lemma_matching_items_sorted_matching(items, selected, filter, m);
        let before = matching_items(items, selected, filter, m);
        let after = matching_items(items, selected, filter, n);
        if item_matches(items, selected, filter, n - 1) {
            assert(after == before.push(n - 1));
            assert forall|j: int| 0 <= j < after.len() implies {
                let i = #[trigger] after[j];
                &&& 0 <= i < n
                &&& item_matches(items, selected, filter, i)
            } by {
                if j < before.len() {
                    assert(after[j] == before[j]);
                }
            }
            assert forall|a: int, b: int| 0 <= a < b < after.len() implies #[trigger] after[a]
                < #[trigger] after[b] by {
                assert(after[a] == before[a]);
                if b < before.len() {
                    assert(after[b] == before[b]);
                }
            }
        } else {
            assert(after == before);
        }
    }
}

/// Clicking an unselected item keeps the indices of the selection distinct
/// when every item's index is its position, as for the nodes the renderer
/// lists; so does clicking a selected node.
pub proof fn lemma_click_keeps_indices_distinct(
    before: Seq<DebugNode>,
    items: Seq<DebugNode>,
    item_index: int,
    shift: bool,
    removed: int,
)
    requires
        distinct_indices(before),
        0 <= item_index < items.len(),
        items[item_index].spec_index() == item_index as u32,
        0 <= removed < before.len(),
    ensures
        !is_selected(before, item_index as u32) ==> distinct_indices(
            if !shift {
                seq![items[item_index]]
            } else {
                before.push(items[item_index])
            },
        ),
        distinct_indices(before.remove(removed)),
{
    if !is_selected(before, item_index as u32) {
        let after = before.push(items[item_index]);
        assert forall|a: int, b: int|
            0 <= a < after.len() && 0 <= b < after.len() && a != b implies (#[trigger] after[a]).spec_index()
            != (#[trigger] after[b]).spec_index() by {
            if a == before.len() {
                assert(before[b] == after[b]);
            } else if b == before.len() {
                assert(before[a] == after[a]);
            } else {
                assert(before[a] == after[a]);
                assert(before[b] == after[b]);
            }
        }
    }
    let r = before.remove(removed);
    assert forall|a: int, b: int|
        0 <= a < r.len() && 0 <= b < r.len() && a != b implies (#[trigger] r[a]).spec_index() != (
        #[trigger] r[b]).spec_index() by {
        let a1 = if a < removed {
            a
        } else {
            a + 1
        };
        let b1 = if b < removed {
            b
        } else {
            b + 1
        };
        assert(r[a] == before[a1]);
        assert(r[b] == before[b1]);
    }
}

} // verus!
