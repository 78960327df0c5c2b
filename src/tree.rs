//! Building accessibility tree updates from the scene graph: full snapshots
//! and focus-only updates.
use vstd::prelude::*;
use crate::identity::{NodeId, component_of, index_of, lemma_packed_fields};
use crate::scene::{AccessibleRole, SceneGraph};

verus! {

/// The role of a node of the accessibility tree.
#[derive(PartialEq, Eq, Structural, Clone, Copy, Debug)]
pub enum Role {
    Window,
    Button,
    CheckBox,
    ComboBox,
    Slider,
    SpinButton,
    Tab,
    TextField,
    Unknown,
}

/// A node of the accessibility tree.
#[derive(PartialEq, Eq, Clone, Debug)]
pub struct Node {
    pub role: Role,
    pub label: String,
    pub children: Vec<NodeId>,
}

/// A node as a mathematical value.
pub ghost struct NodeModel {
    pub role: Role,
    pub label: Seq<char>,
    pub children: Seq<NodeId>,
}

impl Node {
    pub open spec fn model(&self) -> NodeModel {
        NodeModel { role: self.role, label: self.label@, children: self.children@ }
    }
}

/// The models of a list of identified nodes.
pub open spec fn models(s: Seq<(NodeId, Node)>) -> Seq<(NodeId, NodeModel)> {
    s.map_values(|p: (NodeId, Node)| (p.0, p.1.model()))
}

/// What an accessibility backend is sent: nodes, the root after a full
/// rebuild, and the focus.
#[derive(PartialEq, Eq, Clone, Debug)]
pub struct TreeUpdate {
    pub nodes: Vec<(NodeId, Node)>,
    pub root: Option<NodeId>,
    pub focus: Option<NodeId>,
}

impl TreeUpdate {
    /// The update that says nothing: no nodes, no root, no focus.
    pub open spec fn is_empty(&self) -> bool {
        self.nodes@.len() == 0 && self.root is None && self.focus is None
    }
}

impl Default for TreeUpdate {
    fn default() -> (r: Self)
        ensures
            r.is_empty(),
    {
        TreeUpdate { nodes: Vec::new(), root: None, focus: None }
    }
}

/// The tree role for a scene-graph role.
pub open spec fn role_for(a: AccessibleRole) -> Role {
    match a {
        AccessibleRole::Unspecified => Role::Unknown,
        AccessibleRole::Button => Role::Button,
        AccessibleRole::Checkbox => Role::CheckBox,
        AccessibleRole::Combobox => Role::ComboBox,
        AccessibleRole::Slider => Role::Slider,
        AccessibleRole::Spinbox => Role::SpinButton,
        AccessibleRole::Tab => Role::Tab,
        AccessibleRole::Text => Role::TextField,
    }
}

/// Maps a scene-graph role to the tree's role.
pub fn map_role(a: AccessibleRole) -> (r: Role)
    ensures
        r == role_for(a),
{
    match a {
        AccessibleRole::Unspecified => Role::Unknown,
        AccessibleRole::Button => Role::Button,
        AccessibleRole::Checkbox => Role::CheckBox,
        AccessibleRole::Combobox => Role::ComboBox,
        AccessibleRole::Slider => Role::Slider,
        AccessibleRole::Spinbox => Role::SpinButton,
        AccessibleRole::Tab => Role::Tab,
        AccessibleRole::Text => Role::TextField,
    }
}

/// The role of item `i` in the tree: Window for a window, else its
/// classified role.
pub open spec fn node_role(scene: SceneGraph, i: int) -> Role {
    if scene.items[i].is_window {
        Role::Window
    } else {
        role_for(scene.items[i].role)
    }
}

/// The label of item `i` in the tree: a window's title, else its label.
pub open spec fn node_label(scene: SceneGraph, i: int) -> Seq<char> {
    if scene.items[i].is_window {
        scene.items[i].title@
    } else {
        scene.items[i].label@
    }
}

/// The identifiers of the accessible descendants of item `i`, in order.
pub open spec fn child_ids(scene: SceneGraph, i: int, generation: u16) -> Seq<NodeId> {
    scene.items[i].descendants@.map_values(|c: usize| scene.node_id_spec(c as int, generation))
}

/// The node that item `i` becomes.
pub open spec fn node_of(scene: SceneGraph, i: int, generation: u16) -> NodeModel {
    NodeModel {
        role: node_role(scene, i),
        label: node_label(scene, i),
        children: child_ids(scene, i, generation),
    }
}

/// The nodes emitted for the subtree of item `i`, in post-order: the
/// subtrees of its descendants in order, then the item itself.
pub open spec fn walk(scene: SceneGraph, i: int, generation: u16) -> Seq<(NodeId, NodeModel)>
    decreases scene.items.len() - i, 1int, 0int,
{
    if 0 <= i < scene.items.len() {
        walk_children(scene, i, scene.items[i].descendants.len() as int, generation).push(
            (scene.node_id_spec(i, generation), node_of(scene, i, generation)),
        )
    } else {
        Seq::empty()
    }
}

/// The nodes emitted for the subtrees of the first `k` accessible
/// descendants of item `i`.
pub open spec fn walk_children(scene: SceneGraph, i: int, k: int, generation: u16) -> Seq<
    (NodeId, NodeModel),
>
    decreases scene.items.len() - i, 0int, k,
{
    if 0 <= i < scene.items.len() && 0 < k <= scene.items[i].descendants.len() {
        let c = scene.items[i].descendants[k - 1] as int;
        if i < c < scene.items.len() {
            walk_children(scene, i, k - 1, generation) + walk(scene, c, generation)
        } else {
            walk_children(scene, i, k - 1, generation)
        }
    } else {
        Seq::empty()
    }
}

/// The full update of `scene` in `generation`.
pub open spec fn full_update_nodes(scene: SceneGraph, generation: u16) -> Seq<(NodeId, NodeModel)> {
    walk(scene, 0, generation)
}

/// Builder state of one window: the generation of the last full tree.
pub struct AccessKitAdapter {
    tree_generation: u16,
}

impl AccessKitAdapter {
    pub closed spec fn generation(&self) -> u16 {
        self.tree_generation
    }

    /// An adapter that has built no tree yet.
    pub fn new() -> (r: Self)
        ensures
            r.generation() == 0,
    {
        AccessKitAdapter { tree_generation: 0 }
    }

    /// The generation of the last full tree.
    pub fn tree_generation(&self) -> (r: u16)
        ensures
            r == self.generation(),
    {
        self.tree_generation
    }

    /// Appends the nodes of the subtree of `item` to `nodes`, children
    /// before parents, and returns the identifier of `item`.
    fn build_tree(&self, scene: &SceneGraph, item: usize, nodes: &mut Vec<(NodeId, Node)>) -> (r:
        NodeId)
        requires
            scene.wf(),
            item < scene.items.len(),
        ensures
            models(final(nodes)@) == models(old(nodes)@) + walk(*scene, item as int, self.generation()),
            r == scene.node_id_spec(item as int, self.generation()),
        decreases scene.items.len() - item,
    {
        let g = self.tree_generation;
        let it = &scene.items[item];
        let (role, label) = if it.is_window {
            (Role::Window, it.title.clone())
        } else {
            (map_role(it.role), it.label.clone())
        };
        let ghost start = models(nodes@);
        let mut children: Vec<NodeId> = Vec::new();
        let mut k: usize = 0;
        while k < it.descendants.len()
            invariant
                scene.wf(),
                item < scene.items.len(),
                it == scene.items[item as int],
                g == self.generation(),
                k <= it.descendants.len(),
                models(nodes@) == start + walk_children(*scene, item as int, k as int, g),
                children@ == child_ids(*scene, item as int, g).take(k as int),
            decreases it.descendants.len() - k,
        {
            let c = it.descendants[k];
            assert(item < c < scene.items.len());
            let id = self.build_tree(scene, c, nodes);
            children.push(id);
            k = k + 1;
            assert(children@ =~= child_ids(*scene, item as int, g).take(k as int));
            assert(models(nodes@) =~= start + walk_children(*scene, item as int, k as int, g));
        }
        let id = scene.node_id(item, g);
        let node = Node { role, label, children };
        let ghost before = nodes@;
        nodes.push((id, node));
        proof {
            assert(children@ =~= child_ids(*scene, item as int, g));
            assert(models(nodes@) =~= models(before).push((id, node.model())));
            assert(models(nodes@) =~= start + walk(*scene, item as int, g));
        }
        id
    }

    /// Starts a new generation and builds the full tree of `scene` in it:
    /// every node, the root, and the focus.
    pub fn build_tree_update(&mut self, scene: &SceneGraph) -> (r: TreeUpdate)
        requires
            scene.wf(),
        ensures
            final(self).generation() as int == (old(self).generation() as int + 1) % 0x10000,
            models(r.nodes@) == full_update_nodes(*scene, final(self).generation()),
            r.root == Some(scene.node_id_spec(0, final(self).generation())),
            r.focus == focus_id(*scene, scene.focus, final(self).generation()),
    {
        let g: u16 = if self.tree_generation == 0xffff {
            0
        } else {
            self.tree_generation + 1
        };
        self.tree_generation = g;
        let mut nodes: Vec<(NodeId, Node)> = Vec::new();
        let root_id = self.build_tree(scene, 0, &mut nodes);
        proof {
            assert(models(nodes@) =~= walk(*scene, 0, g));
        }
        let focus = match scene.focus {
            Some(f) => Some(scene.node_id(f, g)),
            None => None,
        };
        TreeUpdate { nodes, root: Some(root_id), focus }
    }

    /// The focus-only update for a move of the focus to `new`, in the
    /// current generation: no nodes and no root.
    pub fn focus_update(&self, scene: &SceneGraph, new: Option<usize>) -> (r: TreeUpdate)
        requires
            scene.wf(),
            new matches Some(f) ==> f < scene.items.len(),
        ensures
            r.nodes@.len() == 0,
            r.root is None,
            r.focus == focus_id(*scene, new, self.generation()),
    {
        let focus = match new {
            Some(f) => Some(scene.node_id(f, self.tree_generation)),
            None => None,
        };
        TreeUpdate { nodes: Vec::new(), root: None, focus }
    }

    /// The update to send when the focus moves to `new`: the focus-only
    /// update while an accessibility client is attached, else nothing.
    pub fn handle_focus_change(&self, scene: &SceneGraph, client_active: bool, new: Option<
        usize,
    >) -> (r: Option<TreeUpdate>)
        requires
            scene.wf(),
            new matches Some(f) ==> f < scene.items.len(),
        ensures
            r is Some <==> client_active,
            r matches Some(u) ==> u.nodes@.len() == 0 && u.root is None && u.focus == focus_id(
                *scene,
                new,
                self.generation(),
            ),
    {
        if client_active {
            Some(self.focus_update(scene, new))
        } else {
            None
        }
    }
}

/// The identifier of the focus item `focus`, if any, in `generation`.
pub open spec fn focus_id(scene: SceneGraph, focus: Option<usize>, generation: u16) -> Option<
    NodeId,
> {
    match focus {
        Some(f) => Some(scene.node_id_spec(f as int, generation)),
        None => None,
    }
}

/// Whether `id` is the key of some node of `s`.
pub open spec fn has_key(s: Seq<(NodeId, NodeModel)>, id: NodeId) -> bool {
    exists|m: int| 0 <= m < s.len() && #[trigger] s[m].0 == id
}

/// Whether every child of every node of `s` is itself a node of `s`.
pub open spec fn complete(s: Seq<(NodeId, NodeModel)>) -> bool {
    forall|j: int, k: int|
        0 <= j < s.len() && 0 <= k < s[j].1.children.len() ==> has_key(
            s,
            #[trigger] s[j].1.children[k],
        )
}

proof fn lemma_has_key_concat(a: Seq<(NodeId, NodeModel)>, b: Seq<(NodeId, NodeModel)>, id: NodeId)
    ensures
        has_key(a, id) ==> has_key(a + b, id),
        has_key(b, id) ==> has_key(a + b, id),
{
    if has_key(a, id) {
        let m = choose|m: int| 0 <= m < a.len() && #[trigger] a[m].0 == id;
        assert((a + b)[m].0 == id);
    }
    if has_key(b, id) {
        let m = choose|m: int| 0 <= m < b.len() && #[trigger] b[m].0 == id;
        assert((a + b)[a.len() + m].0 == id);
    }
}

proof fn lemma_complete_concat(a: Seq<(NodeId, NodeModel)>, b: Seq<(NodeId, NodeModel)>)
    requires
        complete(a),
        complete(b),
    ensures
        complete(a + b),
{
    assert forall|j: int, k: int|
        0 <= j < (a + b).len() && 0 <= k < (a + b)[j].1.children.len() implies has_key(
        a + b,
        #[trigger] (a + b)[j].1.children[k],
    ) by {
        let id = (a + b)[j].1.children[k];
        if j < a.len() {
            assert(a[j].1.children[k] == id);
        } else {
            assert(b[j - a.len()].1.children[k] == id);
        }
        lemma_has_key_concat(a, b, id);
    }
}

proof fn lemma_walk_complete(scene: SceneGraph, i: int, generation: u16)
    requires
        scene.wf(),
        0 <= i < scene.items.len(),
    ensures
        complete(walk(scene, i, generation)),
        has_key(walk(scene, i, generation), scene.node_id_spec(i, generation)),
    decreases scene.items.len() - i, 1int, 0int,
{
    let n = scene.items[i].descendants.len() as int;
    let w = walk_children(scene, i, n, generation);
    let node = (scene.node_id_spec(i, generation), node_of(scene, i, generation));
    let s = walk(scene, i, generation);
    lemma_children_complete(scene, i, n, generation);
    assert(s =~= w + seq![node]);
    assert(s[w.len() as int].0 == node.0);
    assert forall|j: int, k: int|
        0 <= j < s.len() && 0 <= k < s[j].1.children.len() implies has_key(
        s,
        #[trigger] s[j].1.children[k],
    ) by {
        let id = s[j].1.children[k];
        if j < w.len() {
            assert(w[j].1.children[k] == id);
            assert(has_key(w, id));
        } else {
            let c = scene.items[i].descendants[k];
            assert(id == scene.node_id_spec(c as int, generation));
            assert(has_key(w, scene.node_id_spec(c as int, generation)));
        }
        lemma_has_key_concat(w, seq![node], id);
    }
}

proof fn lemma_children_complete(scene: SceneGraph, i: int, k: int, generation: u16)
    requires
        scene.wf(),
        0 <= i < scene.items.len(),
        0 <= k <= scene.items[i].descendants.len(),
    ensures
        complete(walk_children(scene, i, k, generation)),
        forall|q: int|
            0 <= q < k ==> has_key(
                walk_children(scene, i, k, generation),
                scene.node_id_spec(#[trigger] scene.items[i].descendants[q] as int, generation),
            ),
    decreases scene.items.len() - i, 0int, k,
{
    if k > 0 {
        let c = scene.items[i].descendants[k - 1] as int;
        assert(i < c < scene.items.len());
        let a = walk_children(scene, i, k - 1, generation);
        let b = walk(scene, c, generation);
        lemma_children_complete(scene, i, k - 1, generation);
        lemma_walk_complete(scene, c, generation);
        lemma_complete_concat(a, b);
        assert forall|q: int| 0 <= q < k implies has_key(
            a + b,
            scene.node_id_spec(#[trigger] scene.items[i].descendants[q] as int, generation),
        ) by {
            lemma_has_key_concat(
                a,
                b,
                scene.node_id_spec(scene.items[i].descendants[q] as int, generation),
            );
        }
    } else {
        assert(walk_children(scene, i, k, generation) =~= Seq::empty());
    }
}

/// Every child of every node of a full update is itself a node of that
/// update.
pub proof fn lemma_full_update_complete(scene: SceneGraph, generation: u16)
    requires
        scene.wf(),
    ensures
        complete(full_update_nodes(scene, generation)),
{
    lemma_walk_complete(scene, 0, generation);
}

/// The root of a full update is a node of that update.
pub proof fn lemma_full_update_has_root(scene: SceneGraph, generation: u16)
    requires
        scene.wf(),
    ensures
        has_key(full_update_nodes(scene, generation), scene.node_id_spec(0, generation)),
{
    lemma_walk_complete(scene, 0, generation);
}

/// Whether two identifiers name the same item, whatever their generations.
pub open spec fn same_item(a: NodeId, b: NodeId) -> bool {
    component_of(a.value) == component_of(b.value) && index_of(a.value) == index_of(b.value)
}

/// Whether two identified nodes agree in all but generation.
pub open spec fn same_node_content(a: (NodeId, NodeModel), b: (NodeId, NodeModel)) -> bool {
    &&& same_item(a.0, b.0)
    &&& a.1.role == b.1.role
    &&& a.1.label == b.1.label
    &&& a.1.children.len() == b.1.children.len()
    &&& forall|k: int|
        0 <= k < a.1.children.len() ==> same_item(
            #[trigger] a.1.children[k],
            b.1.children[k],
        )
}

/// Whether two node lists agree, position by position, in all but
/// generation.
pub open spec fn same_content(a: Seq<(NodeId, NodeModel)>, b: Seq<(NodeId, NodeModel)>) -> bool {
    a.len() == b.len() && forall|j: int| 0 <= j < a.len() ==> #[trigger] same_node_content(a[j], b[j])
}

proof fn lemma_same_content_concat(
    a1: Seq<(NodeId, NodeModel)>,
    b1: Seq<(NodeId, NodeModel)>,
    a2: Seq<(NodeId, NodeModel)>,
    b2: Seq<(NodeId, NodeModel)>,
)
    requires
        same_content(a1, b1),
        same_content(a2, b2),
    ensures
        same_content(a1 + a2, b1 + b2),
{
    assert forall|j: int| 0 <= j < (a1 + a2).len() implies #[trigger] same_node_content(
        (a1 + a2)[j],
        (b1 + b2)[j],
    ) by {
        if j < a1.len() {
            assert(same_node_content(a1[j], b1[j]));
        } else {
            assert(same_node_content(a2[j - a1.len()], b2[j - a1.len()]));
        }
    }
}

proof fn lemma_same_id_item(scene: SceneGraph, i: int, g1: u16, g2: u16)
    ensures
        same_item(scene.node_id_spec(i, g1), scene.node_id_spec(i, g2)),
{
    let n = scene.nearest_accessible(i);
    lemma_packed_fields(scene.items[n].component, g1, scene.items[n].index);
    lemma_packed_fields(scene.items[n].component, g2, scene.items[n].index);
}

proof fn lemma_walk_same_content(scene: SceneGraph, i: int, g1: u16, g2: u16)
    requires
        scene.wf(),
        0 <= i < scene.items.len(),
    ensures
        same_content(walk(scene, i, g1), walk(scene, i, g2)),
    decreases scene.items.len() - i, 1int, 0int,
{
    let n = scene.items[i].descendants.len() as int;
    lemma_children_same_content(scene, i, n, g1, g2);
    let x = (scene.node_id_spec(i, g1), node_of(scene, i, g1));
    let y = (scene.node_id_spec(i, g2), node_of(scene, i, g2));
    lemma_same_id_item(scene, i, g1, g2);
    assert forall|k: int| 0 <= k < x.1.children.len() implies same_item(
        #[trigger] x.1.children[k],
        y.1.children[k],
    ) by {
        lemma_same_id_item(scene, scene.items[i].descendants[k] as int, g1, g2);
    }
    assert(same_node_content(x, y));
    assert(same_content(seq![x], seq![y]));
    lemma_same_content_concat(
        walk_children(scene, i, n, g1),
        walk_children(scene, i, n, g2),
        seq![x],
        seq![y],
    );
    assert(walk(scene, i, g1) =~= walk_children(scene, i, n, g1) + seq![x]);
    assert(walk(scene, i, g2) =~= walk_children(scene, i, n, g2) + seq![y]);
}

proof fn lemma_children_same_content(scene: SceneGraph, i: int, k: int, g1: u16, g2: u16)
    requires
        scene.wf(),
        0 <= i < scene.items.len(),
        0 <= k <= scene.items[i].descendants.len(),
    ensures
        same_content(walk_children(scene, i, k, g1), walk_children(scene, i, k, g2)),
    decreases scene.items.len() - i, 0int, k,
{
    if k > 0 {
        let c = scene.items[i].descendants[k - 1] as int;
        assert(i < c < scene.items.len());
        lemma_children_same_content(scene, i, k - 1, g1, g2);
        lemma_walk_same_content(scene, c, g1, g2);
        lemma_same_content_concat(
            walk_children(scene, i, k - 1, g1),
            walk_children(scene, i, k - 1, g2),
            walk(scene, c, g1),
            walk(scene, c, g2),
        );
    }
}

/// Full updates of one scene graph built in two generations hold the same
/// nodes in the same order: the same roles, labels and children, naming the
/// same items; only the generation inside the identifiers differs.
pub proof fn lemma_full_update_content_independent_of_generation(
    scene: SceneGraph,
    g1: u16,
    g2: u16,
)
    requires
        scene.wf(),
    ensures
        same_content(full_update_nodes(scene, g1), full_update_nodes(scene, g2)),
{
    lemma_walk_same_content(scene, 0, g1, g2);
}

} // verus!
