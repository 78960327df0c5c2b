//! A read-only model of the scene graph that the tree is built from.
//!
//! Items live in one vector. Item 0 is the window's root item. An item's
//! parent stands before it and its accessible descendants after it, so that
//! walking down or up always ends.
use vstd::prelude::*;
use crate::identity::{
    ItemRef, NodeId, decoded, encode_node_id, lemma_decode_encode, lemma_decode_other_generation,
    packed,
};

verus! {

/// How the scene graph classifies an item for assistive technology.
#[derive(PartialEq, Eq, Structural, Clone, Copy, Debug)]
pub enum AccessibleRole {
    Unspecified,
    Button,
    Checkbox,
    Combobox,
    Slider,
    Spinbox,
    Tab,
    Text,
}

/// One item of the scene graph, with what the tree builder reads of it.
#[derive(Clone, Debug)]
pub struct Item {
    /// Handle of the structure that owns the item; never 0.
    pub component: u64,
    /// Index of the item within its owning structure.
    pub index: u32,
    /// Position of the parent item, if any.
    pub parent: Option<usize>,
    /// Whether the item itself is exposed to assistive technology.
    pub accessible: bool,
    /// Whether the item is a window.
    pub is_window: bool,
    /// The window title; read only for windows.
    pub title: String,
    pub role: AccessibleRole,
    /// The accessible "label" string property.
    pub label: String,
    /// Positions of the item's accessible descendants, already filtered.
    pub descendants: Vec<usize>,
}

/// The scene graph of one window, with its current focus item.
#[derive(Clone, Debug)]
pub struct SceneGraph {
    pub items: Vec<Item>,
    pub focus: Option<usize>,
}

impl SceneGraph {
    /// Well-formed: a root exists, handles are non-zero, parents come before
    /// and descendants after their item, and the focus item exists.
    pub open spec fn wf(&self) -> bool {
        &&& self.items.len() > 0
        &&& forall|i: int| 0 <= i < self.items.len() ==> #[trigger] self.items[i].component != 0
        &&& forall|i: int|
            0 <= i < self.items.len() && (#[trigger] self.items[i]).parent is Some
                ==> self.items[i].parent.unwrap() < i
        &&& forall|i: int, k: int|
            0 <= i < self.items.len() && 0 <= k < self.items[i].descendants.len() ==> i
                < #[trigger] self.items[i].descendants[k] < self.items.len()
        &&& self.focus is Some ==> self.focus.unwrap() < self.items.len()
    }

    /// The nearest item, from `i` upward, that is exposed to assistive
    /// technology, if there is one.
    pub open spec fn accessible_ancestor(&self, i: int) -> Option<int>
        decreases i,
    {
        if i < 0 || i >= self.items.len() {
            None
        } else if self.items[i].accessible {
            Some(i)
        } else {
            match self.items[i].parent {
                Some(p) => if p < i {
                    self.accessible_ancestor(p as int)
                } else {
                    None
                },
                None => None,
            }
        }
    }

    /// The item that stands for `i` in the tree: its nearest accessible
    /// ancestor (itself included), or `i` where there is none.
    pub open spec fn nearest_accessible(&self, i: int) -> int {
        match self.accessible_ancestor(i) {
            Some(n) => n,
            None => i,
        }
    }

    /// The reference of the item at position `i`.
    pub open spec fn item_ref(&self, i: int) -> ItemRef {
        ItemRef { component: self.items[i].component, index: self.items[i].index }
    }

    /// The identifier of the item at position `i` in `generation`.
    pub open spec fn node_id_spec(&self, i: int, generation: u16) -> NodeId {
        let n = self.nearest_accessible(i);
        NodeId { value: packed(self.items[n].component, generation, self.items[n].index) }
    }

    /// Finds the nearest item, from `item` upward, that is exposed to
    /// assistive technology; `item` itself where no ancestor is.
    pub fn nearest_accessible_item(&self, item: usize) -> (r: usize)
        requires
            self.wf(),
            item < self.items.len(),
        ensures
            r == self.nearest_accessible(item as int),
            r <= item,
    {
        let mut cur: usize = item;
        loop
            invariant
                self.wf(),
                cur <= item < self.items.len(),
                self.accessible_ancestor(cur as int) == self.accessible_ancestor(item as int),
            decreases cur,
        {
            if self.items[cur].accessible {
                return cur;
            }
            match self.items[cur].parent {
                Some(p) => {
                    cur = p;
                },
                None => {
                    return item;
                },
            }
        }
    }

    /// The identifier of `item` in `generation`: that of its nearest
    /// accessible ancestor, or of `item` itself where there is none.
    pub fn node_id(&self, item: usize, generation: u16) -> (r: NodeId)
        requires
            self.wf(),
            item < self.items.len(),
        ensures
            r == self.node_id_spec(item as int, generation),
            r.value != 0,
    {
        let n = self.nearest_accessible_item(item);
        let it = &self.items[n];
        encode_node_id(ItemRef { component: it.component, index: it.index }, generation)
    }

    /// Tests whether the scene graph is well-formed.
    pub fn is_well_formed(&self) -> (r: bool)
        ensures
            r == self.wf(),
    {
        let n = self.items.len();
        if n == 0 {
            return false;
        }
        let mut i: usize = 0;
        while i < n
            invariant
                n == self.items.len(),
                i <= n,
                forall|j: int| 0 <= j < i ==> #[trigger] self.items[j].component != 0,
                forall|j: int|
                    0 <= j < i && (#[trigger] self.items[j]).parent is Some
                        ==> self.items[j].parent.unwrap() < j,
                forall|j: int, k: int|
                    0 <= j < i && 0 <= k < self.items[j].descendants.len() ==> j
                        < #[trigger] self.items[j].descendants[k] < n,
            decreases n - i,
        {
            let it = &self.items[i];
            if it.component == 0 {
                assert(self.items[i as int].component == 0);
                return false;
            }
            if let Some(p) = it.parent {
                if p >= i {
                    assert(self.items[i as int].parent is Some);
                    return false;
                }
            }
            let mut k: usize = 0;
            while k < it.descendants.len()
                invariant
                    n == self.items.len(),
                    i < n,
                    it == self.items[i as int],
                    k <= it.descendants.len(),
                    forall|q: int| 0 <= q < k ==> i < #[trigger] it.descendants[q] < n,
                decreases it.descendants.len() - k,
            {
                let c = it.descendants[k];
                if c <= i || c >= n {
                    assert(!(i < self.items[i as int].descendants[k as int] < n));
                    return false;
                }
                k = k + 1;
            }
            i = i + 1;
        }
        match self.focus {
            Some(f) => f < n,
            None => true,
        }
    }

    /// Finds the item that `item` refers to, if the scene holds one.
    pub fn find_item(&self, item: ItemRef) -> (r: Option<usize>)
        ensures
            r matches Some(p) ==> p < self.items.len() && self.item_ref(p as int) == item,
            r is None ==> forall|p: int|
                0 <= p < self.items.len() ==> #[trigger] self.item_ref(p) != item,
    {
        let mut p: usize = 0;
        while p < self.items.len()
            invariant
                p <= self.items.len(),
                forall|q: int| 0 <= q < p ==> #[trigger] self.item_ref(q) != item,
            decreases self.items.len() - p,
        {
            if self.items[p].component == item.component && self.items[p].index == item.index {
                return Some(p);
            }
            p = p + 1;
        }
        None
    }
}

/// Decoding the identifier of an item with the generation it was made in
/// gives back the item's nearest accessible ancestor, or the item itself
/// where there is none.
pub proof fn lemma_node_id_round_trip(scene: SceneGraph, i: int, generation: u16)
    ensures
        decoded(scene.node_id_spec(i, generation), generation) == Some(
            scene.item_ref(scene.nearest_accessible(i)),
        ),
{
    lemma_decode_encode(scene.item_ref(scene.nearest_accessible(i)), generation);
}

/// Decoding the identifier of an item with any other generation than the
/// one it was made in gives nothing.
pub proof fn lemma_node_id_stale(scene: SceneGraph, i: int, generation: u16, other: u16)
    requires
        other != generation,
    ensures
        decoded(scene.node_id_spec(i, generation), other) is None,
{
    lemma_decode_other_generation(scene.item_ref(scene.nearest_accessible(i)), generation, other);
}

} // verus!
