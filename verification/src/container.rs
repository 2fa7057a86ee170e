//! Containers of inventory items and how items stack in them.

use vstd::prelude::*;
use crate::inventory::{InventoryItem, InventoryItemView, ItemTab, TextureId};
use crate::text::ascii_case_eq;

verus! {

/// The component that lets items of one kind share a slot.
pub open spec fn stack_component() -> Seq<char> {
    seq!['c', 'a', 'n', 's', 't', 'a', 'c', 'k']
}

/// Items of this definition stack.
pub open spec fn can_stack(item: InventoryItemView) -> bool {
    item.def.has_component(stack_component())
}

/// Two items are of the same kind: same name in the same namespace.
pub open spec fn same_kind(a: InventoryItemView, b: InventoryItemView) -> bool {
    a.def.name == b.def.name && a.def.namespace == b.def.namespace
}

/// `j` is the first entry of `items` of the same kind as `item`.
pub open spec fn first_of_kind(items: Seq<InventoryItemView>, item: InventoryItemView, j: int) -> bool {
    &&& 0 <= j < items.len()
    &&& same_kind(items[j], item)
    &&& forall|k: int| 0 <= k < j ==> !same_kind(#[trigger] items[k], item)
}

/// No entry of `items` is of the same kind as `item`.
pub open spec fn no_entry_of_kind(items: Seq<InventoryItemView>, item: InventoryItemView) -> bool {
    forall|k: int| 0 <= k < items.len() ==> !same_kind(#[trigger] items[k], item)
}

/// No two stackable entries are of the same kind.
pub open spec fn stacks_distinct(items: Seq<InventoryItemView>) -> bool {
    forall|i: int, j: int|
        0 <= i < items.len() && 0 <= j < items.len() && i != j && can_stack(#[trigger] items[i])
            && can_stack(#[trigger] items[j]) ==> !same_kind(items[i], items[j])
}

/// The number of entries among the first `n` whose icon is not loaded yet.
pub open spec fn missing_before(items: Seq<InventoryItemView>, n: int) -> int
    decreases n,
{
    if n <= 0 {
        0
    } else {
        missing_before(items, n - 1) + (if items[n - 1].icon is None { 1int } else { 0int })
    }
}

/// Counting missing icons over a longer prefix never counts fewer.
pub proof fn lemma_missing_before_monotone(items: Seq<InventoryItemView>, a: int, b: int)
    requires
        0 <= a <= b,
    ensures
        missing_before(items, a) <= missing_before(items, b),
    decreases b - a,
{
    if a < b {
        lemma_missing_before_monotone(items, a, b - 1);
    }
}

/// The first entry of `items` of the same kind as `item`.
pub open spec fn first_kind_index(items: Seq<InventoryItemView>, item: InventoryItemView) -> int {
    choose|j: int| first_of_kind(items, item, j)
}

/// The entries after `item` is added: an item that stacks joins the first
/// entry of its kind if there is one; any other item becomes a new last entry.
pub open spec fn added(items: Seq<InventoryItemView>, item: InventoryItemView) -> Seq<InventoryItemView> {
    if can_stack(item) && !no_entry_of_kind(items, item) {
        let j = first_kind_index(items, item);
        items.update(j, with_more(items[j], item.count))
    } else {
        items.push(item)
    }
}

/// When some entry is of the kind of `item`, there is a first one, and it is
/// the one that `first_kind_index` names.
pub proof fn lemma_first_of_kind_exists(items: Seq<InventoryItemView>, item: InventoryItemView, k: int)
    requires
        0 <= k < items.len(),
        same_kind(items[k], item),
    ensures
        first_of_kind(items, item, first_kind_index(items, item)),
    decreases k,
{
    if exists|j: int| 0 <= j < k && same_kind(#[trigger] items[j], item) {
        let j = choose|j: int| 0 <= j < k && same_kind(#[trigger] items[j], item);
        lemma_first_of_kind_exists(items, item, j);
    } else {
        assert(first_of_kind(items, item, k));
    }
}

/// There is only one first entry of a kind.
pub proof fn lemma_first_of_kind_unique(items: Seq<InventoryItemView>, item: InventoryItemView, j: int)
    requires
        first_of_kind(items, item, j),
    ensures
        first_kind_index(items, item) == j,
{
    let f = first_kind_index(items, item);
    assert(first_of_kind(items, item, f));
    if f < j {
        assert(!same_kind(items[f], item));
    }
    if j < f {
        assert(!same_kind(items[j], item));
    }
}

/// Adding an item never gives two stackable entries of one kind where there
/// were none: a stackable item joins its kind's entry instead of becoming a
/// second one. This holds for every item and every count.
pub proof fn lemma_adding_keeps_stacks_distinct(items: Seq<InventoryItemView>, item: InventoryItemView)
    requires
        stacks_distinct(items),
    ensures
        stacks_distinct(added(items, item)),
{
    let after = added(items, item);
    if can_stack(item) && !no_entry_of_kind(items, item) {
        let k = choose|k: int| 0 <= k < items.len() && !!same_kind(#[trigger] items[k], item);
        lemma_first_of_kind_exists(items, item, k);
        let j = first_kind_index(items, item);
        assert forall|a: int| 0 <= a < after.len() implies #[trigger] after[a].def == items[a].def by {}
        assert forall|a: int, b: int|
            0 <= a < after.len() && 0 <= b < after.len() && a != b && can_stack(#[trigger] after[a])
                && can_stack(#[trigger] after[b]) implies !same_kind(after[a], after[b]) by {
            assert(after[a].def == items[a].def && after[b].def == items[b].def);
            assert(can_stack(items[a]) && can_stack(items[b]));
        }
    } else {
        assert forall|a: int, b: int|
            0 <= a < after.len() && 0 <= b < after.len() && a != b && can_stack(#[trigger] after[a])
                && can_stack(#[trigger] after[b]) implies !same_kind(after[a], after[b]) by {
            if a < items.len() && b < items.len() {
                assert(after[a] == items[a] && after[b] == items[b]);
            } else if a == items.len() {
                assert(after[a] == item);
                assert(!same_kind(items[b], item));
            } else {
                assert(after[b] == item);
                assert(!same_kind(items[a], item));
            }
        }
    }
}

/// An entry with `extra` more items.
pub open spec fn with_more(entry: InventoryItemView, extra: u32) -> InventoryItemView {
    InventoryItemView { count: (entry.count + extra) as u32, ..entry }
}

/// The number of items in all entries together.
pub open spec fn total_count(items: Seq<InventoryItemView>) -> int
    decreases items.len(),
{
    if items.len() == 0 {
        0
    } else {
        total_count(items.drop_last()) + items.last().count
    }
}

/// Adding an entry at the end adds its items to the total.
pub proof fn lemma_total_count_push(items: Seq<InventoryItemView>, entry: InventoryItemView)
    ensures
        total_count(items.push(entry)) == total_count(items) + entry.count,
{
    assert(items.push(entry).drop_last() =~= items);
}

/// Adding `extra` items to the entry at `j` adds `extra` to the total.
pub proof fn lemma_total_count_update(items: Seq<InventoryItemView>, j: int, extra: u32)
    requires
        0 <= j < items.len(),
        items[j].count + extra <= u32::MAX,
    ensures
        total_count(items.update(j, with_more(items[j], extra))) == total_count(items) + extra,
    decreases items.len(),
{
    let updated = items.update(j, with_more(items[j], extra));
    if j == items.len() - 1 {
        assert(updated.drop_last() =~= items.drop_last());
    } else {
        lemma_total_count_update(items.drop_last(), j, extra);
        assert(updated.drop_last() =~= items.drop_last().update(j, with_more(items[j], extra)));
    }
}

/// An item lying in the world, waiting to be picked up.
#[derive(Debug)]
pub struct ItemPickup {
    pub item: InventoryItem,
}

/// A container of items, such as a player's inventory.
#[derive(Debug)]
pub struct Container {
    pub items: Vec<InventoryItem>,
}

impl View for Container {
    type V = Seq<InventoryItemView>;

    open spec fn view(&self) -> Seq<InventoryItemView> {
        self.items@.map_values(|i: InventoryItem| i@)
    }
}

impl Default for Container {
    fn default() -> (r: Self)
        ensures
            r@.len() == 0,
    {
        Container { items: Vec::new() }
    }
}

impl Container {
    /// Adds an item: one that stacks joins the first entry of its kind, if
    /// there is one; any other becomes a new entry.
    pub fn add_item(&mut self, item: &InventoryItem)
        requires
            can_stack(item@) ==> forall|j: int|
                first_of_kind(old(self)@, item@, j) ==> old(self)@[j].count + item.count <= u32::MAX,
        ensures
            !can_stack(item@) ==> final(self)@ == old(self)@.push(item@),
            can_stack(item@) && no_entry_of_kind(old(self)@, item@) ==> final(self)@ == old(self)@.push(
                item@,
            ),
            can_stack(item@) ==> forall|j: int|
                first_of_kind(old(self)@, item@, j) ==> final(self)@ == old(self)@.update(
                    j,
                    with_more(old(self)@[j], item.count),
                ),
            final(self)@ == added(old(self)@, item@),
            total_count(final(self)@) == total_count(old(self)@) + item.count,
            stacks_distinct(old(self)@) ==> stacks_distinct(final(self)@),
    {
        let ghost before = self@;
        proof {
            reveal_strlit("canstack");
            assert("canstack"@ =~= stack_component());
        }
        if !item.def.has_component("canstack") {
            self.add_new_item(item);
            proof {
                lemma_total_count_push(before, item@);
                assert(self@ == added(before, item@));
                if stacks_distinct(before) {
                    lemma_adding_keeps_stacks_distinct(before, item@);
                }
            }
            return;
        }
        let n = self.items.len();
        let mut i: usize = 0;
        while i < n
            invariant
                n == self.items@.len(),
                self@ == before,
                before == old(self)@,
                can_stack(item@),
                forall|j: int|
                    first_of_kind(before, item@, j) ==> before[j].count + item.count <= u32::MAX,
                i <= n,
                forall|k: int| 0 <= k < i ==> !same_kind(#[trigger] before[k], item@),
            decreases n - i,
        {
            if self.items[i].def.name == item.def.name && self.items[i].def.namespace
                == item.def.namespace {
                assert(first_of_kind(before, item@, i as int));
                let mut entry = self.items.remove(i);
                entry.count = entry.count + item.count;
                self.items.insert(i, entry);
                proof {
                    assert(self@ =~= before.update(i as int, with_more(before[i as int], item.count)));
                    lemma_total_count_update(before, i as int, item.count);
                    lemma_first_of_kind_unique(before, item@, i as int);
                    assert(self@ == added(before, item@));
                    if stacks_distinct(before) {
                        lemma_adding_keeps_stacks_distinct(before, item@);
                    }
                    assert forall|j: int| first_of_kind(before, item@, j) implies j == i by {
                        if j < i {
                            assert(!same_kind(before[j], item@));
                        }
                        if j > i {
                            assert(!same_kind(before[i as int], item@));
                        }
                    }
                }
                return;
            }
            i = i + 1;
        }
        self.add_new_item(item);
        proof {
            lemma_total_count_push(before, item@);
            assert(no_entry_of_kind(before, item@));
            assert(self@ == added(before, item@));
            if stacks_distinct(before) {
                lemma_adding_keeps_stacks_distinct(before, item@);
            }
        }
    }

    /// Adds an item as a new entry.
    pub fn add_new_item(&mut self, item: &InventoryItem)
        ensures
            final(self)@ == old(self)@.push(item@),
    {
        self.items.push(item.clone());
        proof {
            assert(self@ =~= old(self)@.push(item@));
        }
    }
}

/// `r` lists, in increasing order, exactly the positions `i` below `len` at
/// which `keep(i)` holds.
pub open spec fn lists_positions(r: Seq<usize>, len: int, keep: spec_fn(int) -> bool) -> bool {
    &&& forall|a: int, b: int| 0 <= a < b < r.len() ==> r[a] < r[b]
    &&& forall|a: int| 0 <= a < r.len() ==> #[trigger] r[a] < len && keep(r[a] as int)
    &&& forall|i: int| 0 <= i < len && #[trigger] keep(i) ==> r.contains(i as usize)
}

impl Container {
    /// The positions of the entries listed under `tab`, in order.
    pub fn visible_indices(&self, tab: ItemTab) -> (r: Vec<usize>)
        ensures
            lists_positions(r@, self@.len() as int, |i: int| self@[i].shown_in(tab)),
    {
        let ghost keep = |i: int| self@[i].shown_in(tab);
        let mut r: Vec<usize> = Vec::new();
        let n = self.items.len();
        let mut i: usize = 0;
        while i < n
            invariant
                n == self@.len(),
                i <= n,
                keep == (|i: int| self@[i].shown_in(tab)),
                forall|a: int, b: int| 0 <= a < b < r@.len() ==> r@[a] < r@[b],
                forall|a: int| 0 <= a < r@.len() ==> #[trigger] r@[a] < i && keep(r@[a] as int),
                forall|k: int| 0 <= k < i && #[trigger] keep(k) ==> r@.contains(k as usize),
            decreases n - i,
        {
            assert(self.items@[i as int]@ == self@[i as int]);
            if self.items[i].shown_in(tab) {
                let ghost prev = r@;
                r.push(i);
                proof {
                    assert(r@ == prev.push(i));
                    assert forall|k: int| 0 <= k < i + 1 && #[trigger] keep(k) implies r@.contains(k as usize) by {
                        if k < i {
                            assert(prev.contains(k as usize));
                            let w = choose|w: int| 0 <= w < prev.len() && prev[w] == k as usize;
                            assert(r@[w] == k as usize);
                        } else {
                            assert(r@[r@.len() - 1] == k as usize);
                        }
                    }
                }
            }
            i = i + 1;
        }
        r
    }

    /// The positions of the entries whose icon is not loaded yet, in order.
    pub fn missing_icons(&self) -> (r: Vec<usize>)
        ensures
            lists_positions(r@, self@.len() as int, |i: int| self@[i].icon is None),
            r@.len() == missing_before(self@, self@.len() as int),
    {
        let ghost keep = |i: int| self@[i].icon is None;
        let mut r: Vec<usize> = Vec::new();
        let n = self.items.len();
        let mut i: usize = 0;
        while i < n
            invariant
                n == self@.len(),
                i <= n,
                keep == (|i: int| self@[i].icon is None),
                r@.len() == missing_before(self@, i as int),
                forall|a: int, b: int| 0 <= a < b < r@.len() ==> r@[a] < r@[b],
                forall|a: int| 0 <= a < r@.len() ==> #[trigger] r@[a] < i && keep(r@[a] as int),
                forall|k: int| 0 <= k < i && #[trigger] keep(k) ==> r@.contains(k as usize),
            decreases n - i,
        {
            assert(self.items@[i as int]@ == self@[i as int]);
            if self.items[i].icon.is_none() {
                let ghost prev = r@;
                r.push(i);
                proof {
                    assert(r@ == prev.push(i));
                    assert forall|k: int| 0 <= k < i + 1 && #[trigger] keep(k) implies r@.contains(k as usize) by {
                        if k < i {
                            assert(prev.contains(k as usize));
                            let w = choose|w: int| 0 <= w < prev.len() && prev[w] == k as usize;
                            assert(r@[w] == k as usize);
                        } else {
                            assert(r@[r@.len() - 1] == k as usize);
                        }
                    }
                }
            }
            i = i + 1;
        }
        r
    }

    /// Records the texture of the icon of the entry at `index`.
    pub fn set_icon(&mut self, index: usize, icon: TextureId)
        requires
            index < old(self)@.len(),
        ensures
            final(self)@ == old(self)@.update(
                index as int,
                InventoryItemView { icon: Some(icon), ..old(self)@[index as int] },
            ),
    {
        let mut entry = self.items.remove(index);
        entry.icon = Some(icon);
        self.items.insert(index, entry);
        proof {
            assert(self@ =~= old(self)@.update(
                index as int,
                InventoryItemView { icon: Some(icon), ..old(self)@[index as int] },
            ));
        }
    }
}

impl Container {
    /// Gives every entry whose icon is not loaded yet the next texture of
    /// `ids`, in order; entries that have an icon keep it, and definitions and
    /// counts stay as they are.
    pub fn assign_icons(&mut self, ids: &Vec<TextureId>)
        requires
            ids@.len() == missing_before(old(self)@, old(self)@.len() as int),
        ensures
            final(self)@.len() == old(self)@.len(),
            forall|i: int|
                0 <= i < old(self)@.len() ==> #[trigger] final(self)@[i].def == old(self)@[i].def
                    && final(self)@[i].count == old(self)@[i].count,
            forall|i: int|
                0 <= i < old(self)@.len() && old(self)@[i].icon is Some ==> #[trigger] final(self)@[i].icon
                    == old(self)@[i].icon,
            forall|i: int|
                0 <= i < old(self)@.len() && old(self)@[i].icon is None ==> #[trigger] final(self)@[i].icon
                    == Some(ids@[missing_before(old(self)@, i)]),
    {
        let ghost before = self@;
        let n = self.items.len();
        let m = ids.len();
        let mut k: usize = 0;
        let mut i: usize = 0;
        while i < n
            invariant
                m == ids@.len(),
                before == old(self)@,
                n == before.len(),
                self@.len() == n,
                ids@.len() == missing_before(before, n as int),
                i <= n,
                k == missing_before(before, i as int),
                forall|j: int|
                    0 <= j < n ==> #[trigger] self@[j].def == before[j].def && self@[j].count
                        == before[j].count,
                forall|j: int| i <= j < n ==> #[trigger] self@[j].icon == before[j].icon,
                forall|j: int|
                    0 <= j < i && before[j].icon is Some ==> #[trigger] self@[j].icon
                        == before[j].icon,
                forall|j: int|
                    0 <= j < i && before[j].icon is None ==> #[trigger] self@[j].icon == Some(
                        ids@[missing_before(before, j)],
                    ),
            decreases n - i,
        {
            assert(self.items@[i as int]@ == self@[i as int]);
            if self.items[i].icon.is_none() {
                proof {
                    assert(before[i as int].icon is None);
                    assert(missing_before(before, i as int + 1) == k + 1);
                    lemma_missing_before_monotone(before, i as int + 1, n as int);
                }
                let ghost prev = self@;
                self.set_icon(i, ids[k]);
                k = k + 1;
                proof {
                    assert forall|j: int| 0 <= j < n && j != i implies #[trigger] self@[j] == prev[j] by {}
                }
            } else {
                assert(missing_before(before, i as int + 1) == k);
            }
            i = i + 1;
        }
    }
}

/// A stackable item joins the first entry with its name and namespace,
/// whatever icons the entries have loaded: that entry's count grows by the
/// item's count, and every other entry, and the number of entries, stay as
/// they are.
pub proof fn lemma_stacking_goes_by_name_and_namespace(
    items: Seq<InventoryItemView>,
    item: InventoryItemView,
    k: int,
)
    requires
        can_stack(item),
        0 <= k < items.len(),
        items[k].def.name == item.def.name,
        items[k].def.namespace == item.def.namespace,
        forall|j: int|
            0 <= j < k ==> !(#[trigger] items[j].def.name == item.def.name && items[j].def.namespace
                == item.def.namespace),
    ensures
        added(items, item).len() == items.len(),
        added(items, item)[k].def == items[k].def,
        added(items, item)[k].icon == items[k].icon,
        added(items, item)[k].count == (items[k].count + item.count) as u32,
        forall|j: int| 0 <= j < items.len() && j != k ==> #[trigger] added(items, item)[j] == items[j],
{
    assert forall|j: int| 0 <= j < k implies !same_kind(#[trigger] items[j], item) by {
        assert(!(items[j].def.name == item.def.name && items[j].def.namespace == item.def.namespace));
    }
    assert(first_of_kind(items, item, k));
    assert(!no_entry_of_kind(items, item));
    lemma_first_of_kind_unique(items, item, k);
}

/// A non-stackable item, or a stackable one with no entry of its name and
/// namespace, becomes a new last entry and leaves the others as they were.
pub proof fn lemma_new_kinds_become_new_entries(items: Seq<InventoryItemView>, item: InventoryItemView)
    requires
        !can_stack(item) || forall|j: int|
            0 <= j < items.len() ==> !(#[trigger] items[j].def.name == item.def.name
                && items[j].def.namespace == item.def.namespace),
    ensures
        added(items, item) == items.push(item),
{
    if can_stack(item) {
        assert forall|j: int| 0 <= j < items.len() implies !same_kind(#[trigger] items[j], item) by {
            assert(!(items[j].def.name == item.def.name && items[j].def.namespace == item.def.namespace));
        }
    }
}

} // verus!
