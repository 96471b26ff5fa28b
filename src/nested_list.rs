use std::collections::BTreeSet;
use vstd::prelude::*;

verus! {

/// The display state of an entry: children shown, children hidden, or the
/// entry's text being edited.
#[derive(Debug, Default, Clone, Copy, PartialEq, Eq, Structural)]
pub enum ShowChildren {
    #[default]
    Show,
    Hide,
    Editing,
}

/// An entry of the tree as a mathematical value.
pub struct Node {
    pub text: Seq<char>,
    pub state: ShowChildren,
    pub children: Seq<Node>,
}

/// One row of the flattened tree as a mathematical value.
pub struct FlatView {
    pub depth: nat,
    pub visible: bool,
    pub has_children: bool,
    pub editing: bool,
    pub description: Seq<char>,
}

/// A node of the tree: it owns its text, its state and its children.
#[derive(Debug, Default)]
pub struct Entry {
    pub text: String,
    pub state: ShowChildren,
    pub children: Vec<Entry>,
}

pub open spec fn node_of(e: Entry) -> Node
    decreases e,
{
    Node { text: e.text@, state: e.state, children: nodes_of(e.children@) }
}

pub open spec fn nodes_of(s: Seq<Entry>) -> Seq<Node>
    decreases s,
{
    if s.len() == 0 {
        Seq::empty()
    } else {
        nodes_of(s.subrange(0, s.len() - 1)).push(node_of(s[s.len() - 1]))
    }
}

impl View for Entry {
    type V = Node;

    open spec fn view(&self) -> Node {
        node_of(*self)
    }
}

/// The number of nodes of a tree, its root included.
pub open spec fn tree_size(n: Node) -> nat
    decreases n,
{
    1 + forest_size(n.children)
}

/// The number of nodes of a sequence of trees.
pub open spec fn forest_size(s: Seq<Node>) -> nat
    decreases s,
{
    if s.len() == 0 {
        0
    } else {
        forest_size(s.subrange(0, s.len() - 1)) + tree_size(s[s.len() - 1])
    }
}

pub open spec fn flat_row(n: Node, visible: bool, depth: nat) -> FlatView {
    FlatView {
        depth,
        visible,
        has_children: n.children.len() > 0,
        editing: n.state == ShowChildren::Editing,
        description: n.text,
    }
}

/// Depth-first pre-order rows of a tree whose root is at `depth` and is
/// `visible`; the children of a node are visible when the node is and does
/// not hide them.
pub open spec fn flatten_tree(n: Node, visible: bool, depth: nat) -> Seq<FlatView>
    decreases n,
{
    seq![flat_row(n, visible, depth)] + flatten_forest(
        n.children,
        visible && n.state != ShowChildren::Hide,
        depth + 1,
    )
}

/// The rows of each tree of `s` in turn.
pub open spec fn flatten_forest(s: Seq<Node>, visible: bool, depth: nat) -> Seq<FlatView>
    decreases s,
{
    if s.len() == 0 {
        Seq::empty()
    } else {
        flatten_forest(s.subrange(0, s.len() - 1), visible, depth) + flatten_tree(
            s[s.len() - 1],
            visible,
            depth,
        )
    }
}

/// The node at pre-order position `id` of a tree, its root at position zero.
pub open spec fn tree_node_at(n: Node, id: nat) -> Option<Node>
    decreases n,
{
    if id == 0 {
        Some(n)
    } else {
        forest_node_at(n.children, (id - 1) as nat)
    }
}

/// The node at pre-order position `id` of a sequence of trees, counting every
/// node, hidden or not.
pub open spec fn forest_node_at(s: Seq<Node>, id: nat) -> Option<Node>
    decreases s,
{
    if s.len() == 0 {
        None
    } else {
        let init = s.subrange(0, s.len() - 1);
        if id < forest_size(init) {
            forest_node_at(init, id)
        } else {
            tree_node_at(s[s.len() - 1], (id - forest_size(init)) as nat)
        }
    }
}

/// The tree with the node at pre-order position `id` replaced by `x`.
pub open spec fn tree_replace(n: Node, id: nat, x: Node) -> Node
    decreases n,
{
    if id == 0 {
        x
    } else {
        Node { children: forest_replace(n.children, (id - 1) as nat, x), ..n }
    }
}

/// The trees with the node at pre-order position `id` replaced by `x`.
pub open spec fn forest_replace(s: Seq<Node>, id: nat, x: Node) -> Seq<Node>
    decreases s,
{
    if s.len() == 0 {
        s
    } else {
        let init = s.subrange(0, s.len() - 1);
        if id < forest_size(init) {
            forest_replace(init, id, x).push(s[s.len() - 1])
        } else {
            init.push(tree_replace(s[s.len() - 1], (id - forest_size(init)) as nat, x))
        }
    }
}

/// A row of the flattened tree, as shown.
#[derive(Debug, Default, Clone, PartialEq, Eq)]
pub struct FlatEntry {
    pub depth: usize,
    pub visible: bool,
    pub has_children: bool,
    pub editing: bool,
    pub description: String,
}

impl View for FlatEntry {
    type V = FlatView;

    open spec fn view(&self) -> FlatView {
        FlatView {
            depth: self.depth as nat,
            visible: self.visible,
            has_children: self.has_children,
            editing: self.editing,
            description: self.description@,
        }
    }
}

pub open spec fn flat_views(s: Seq<FlatEntry>) -> Seq<FlatView> {
    s.map_values(|f: FlatEntry| f@)
}

proof fn lemma_nodes_of(s: Seq<Entry>)
    ensures
        nodes_of(s).len() == s.len(),
        forall|i: int| 0 <= i < s.len() ==> #[trigger] nodes_of(s)[i] == s[i]@,
    decreases s.len(),
{
    if s.len() > 0 {
        lemma_nodes_of(s.subrange(0, s.len() - 1));
    }
}

proof fn lemma_forest_step(s: Seq<Node>, i: int, visible: bool, depth: nat)
    requires
        0 <= i < s.len(),
    ensures
        forest_size(s.subrange(0, i + 1)) == forest_size(s.subrange(0, i)) + tree_size(s[i]),
        flatten_forest(s.subrange(0, i + 1), visible, depth) == flatten_forest(
            s.subrange(0, i),
            visible,
            depth,
        ) + flatten_tree(s[i], visible, depth),
{
    let t = s.subrange(0, i + 1);
    assert(t.subrange(0, i) =~= s.subrange(0, i));
    assert(t[i] == s[i]);
}

proof fn lemma_forest_prefix_size(s: Seq<Node>, i: int)
    requires
        0 <= i <= s.len(),
    ensures
        forest_size(s.subrange(0, i)) <= forest_size(s),
    decreases s.len() - i,
{
    if i == s.len() {
        assert(s.subrange(0, i) =~= s);
    } else {
        lemma_forest_step(s, i, true, 0);
        lemma_forest_prefix_size(s, i + 1);
    }
}

/// Each tree of a sequence is no larger than the sequence.
proof fn lemma_tree_within_forest(s: Seq<Node>, i: int)
    requires
        0 <= i < s.len(),
    ensures
        forest_size(s.subrange(0, i)) + tree_size(s[i]) <= forest_size(s),
{
    lemma_forest_step(s, i, true, 0);
    lemma_forest_prefix_size(s, i + 1);
}

proof fn lemma_nodes_push(s: Seq<Entry>, e: Entry)
    ensures
        nodes_of(s.push(e)) == nodes_of(s).push(e@),
{
    assert(s.push(e).subrange(0, s.len() as int) =~= s);
}

proof fn lemma_nodes_update(s: Seq<Entry>, i: int, e: Entry)
    requires
        0 <= i < s.len(),
    ensures
        nodes_of(s.update(i, e)) == nodes_of(s).update(i, e@),
{
    lemma_nodes_of(s);
    lemma_nodes_of(s.update(i, e));
    assert(nodes_of(s.update(i, e)) =~= nodes_of(s).update(i, e@));
}

/// Position `forest_size(s[..i]) + b` of a sequence of trees is position `b`
/// of its tree `i`.
proof fn lemma_forest_position(s: Seq<Node>, i: int, b: nat, x: Node)
    requires
        0 <= i < s.len(),
        b < tree_size(s[i]),
    ensures
        forest_node_at(s, forest_size(s.subrange(0, i)) + b) == tree_node_at(s[i], b),
        forest_replace(s, forest_size(s.subrange(0, i)) + b, x) == s.update(
            i,
            tree_replace(s[i], b, x),
        ),
    decreases s.len(),
{
    let init = s.subrange(0, s.len() - 1);
    let id = forest_size(s.subrange(0, i)) + b;
    if i == s.len() - 1 {
        assert(init =~= s.subrange(0, i));
        assert(init.push(tree_replace(s[i], b, x)) =~= s.update(i, tree_replace(s[i], b, x)));
    } else {
        lemma_tree_within_forest(init, i);
        assert(init.subrange(0, i) =~= s.subrange(0, i));
        assert(init[i] == s[i]);
        lemma_forest_position(init, i, b, x);
        assert(forest_replace(init, id, x).push(s[s.len() - 1]) =~= s.update(
            i,
            tree_replace(s[i], b, x),
        ));
    }
}

impl FlatEntry {
    pub fn _new(depth: usize, visible: bool, has_children: bool, description: &str) -> (r:
        FlatEntry)
        ensures
            r@ == (FlatView {
                depth: depth as nat,
                visible,
                has_children,
                editing: false,
                description: description@,
            }),
    {
        FlatEntry { depth, visible, has_children, editing: false, description: description.to_owned() }
    }

    pub fn _new_empty(depth: usize) -> (r: FlatEntry)
        ensures
            r@ == (FlatView {
                depth: depth as nat,
                visible: true,
                has_children: false,
                editing: true,
                description: Seq::empty(),
            }),
    {
        FlatEntry {
            depth,
            visible: true,
            has_children: false,
            editing: true,
            description: String::new(),
        }
    }
}

impl Entry {
    /// A leaf entry that shows its children.
    pub fn new(text: &str) -> (r: Entry)
        ensures
            r@ == (Node { text: text@, state: ShowChildren::Show, children: Seq::empty() }),
    {
        let r = Entry { text: text.to_owned(), state: ShowChildren::Show, children: Vec::new() };
        proof {
            lemma_nodes_of(r.children@);
            assert(r@.children =~= Seq::<Node>::empty());
        }
        r
    }

    /// A leaf entry with no text, being edited.
    pub fn new_empty() -> (r: Entry)
        ensures
            r@ == (Node { text: Seq::empty(), state: ShowChildren::Editing, children: Seq::empty() }),
    {
        let r = Entry { text: String::new(), state: ShowChildren::Editing, children: Vec::new() };
        proof {
            lemma_nodes_of(r.children@);
            assert(r@.children =~= Seq::<Node>::empty());
        }
        r
    }

    /// The same entry with its children hidden.
    pub fn _collapse(self) -> (r: Entry)
        ensures
            r@ == (Node { state: ShowChildren::Hide, ..self@ }),
    {
        let mut r = self;
        r.state = ShowChildren::Hide;
        r
    }

    /// An entry that shows the given children.
    pub fn with_children(text: &str, children: Vec<Entry>) -> (r: Entry)
        ensures
            r@ == (Node { text: text@, state: ShowChildren::Show, children: nodes_of(children@) }),
    {
        Entry { text: text.to_owned(), state: ShowChildren::Show, children }
    }

    /// The number of rows that this entry and its direct children take.
    pub fn _len(&self) -> (r: usize)
        requires
            self.children.len() < usize::MAX,
        ensures
            r == self.children.len() + 1,
    {
        self.children.len() + 1
    }

    /// `None` where `budget` is a position within this entry's tree; otherwise
    /// what is left of `budget` once the tree's nodes are counted off.
    fn skip(&self, budget: usize) -> (r: Option<usize>)
        ensures
            budget < tree_size(self@) ==> r is None,
            budget >= tree_size(self@) ==> r == Some((budget - tree_size(self@)) as usize),
        decreases self,
    {
        if budget == 0 {
            return None;
        }
        let mut b = budget - 1;
        proof {
            lemma_nodes_of(self.children@);
            assert(self@.children.subrange(0, 0) =~= Seq::<Node>::empty());
        }
        let mut i: usize = 0;
        while i < self.children.len()
            invariant
                0 <= i <= self.children.len(),
                self@.children.len() == self.children.len(),
                forall|j: int|
                    0 <= j < self.children.len() ==> #[trigger] self@.children[j]
                        == self.children@[j]@,
                b + forest_size(self@.children.subrange(0, i as int)) == budget - 1,
            decreases self.children.len() - i,
        {
            proof {
                lemma_tree_within_forest(self@.children, i as int);
                lemma_forest_step(self@.children, i as int, true, 0);
                assert(decreases_to!(self => self.children));
                assert(decreases_to!(self.children => self.children@[i as int]));
            }
            match self.children[i].skip(b) {
                None => {
                    return None;
                },
                Some(rest) => {
                    b = rest;
                },
            }
            i += 1;
        }
        proof {
            assert(self@.children.subrange(0, self.children.len() as int) =~= self@.children);
        }
        Some(b)
    }

    /// The entry at pre-order position `id` of this entry's tree, counting
    /// hidden entries; the tree afterwards holds what the caller leaves there.
    pub fn get_mut(&mut self, id: usize) -> (r: Option<&mut Entry>)
        ensures
            id < tree_size(old(self)@) ==> {
                &&& r is Some
                &&& tree_node_at(old(self)@, id as nat) == Some((*r.unwrap())@)
                &&& final(self)@ == tree_replace(old(self)@, id as nat, (*final(r.unwrap()))@)
            },
            id >= tree_size(old(self)@) ==> r is None && *final(self) == *old(self),
    {
        if id == 0 {
            Some(self)
        } else {
            forest_get_mut(&mut self.children, id - 1)
        }
    }

    /// The rows of this entry and of all its descendants, depth first.
    pub fn to_flat_view(&self, visible: bool, depth: usize) -> (r: Vec<FlatEntry>)
        requires
            depth + tree_size(self@) <= usize::MAX,
        ensures
            flat_views(r@) == flatten_tree(self@, visible, depth as nat),
        decreases self,
    {
        let has_children = self.children.len() > 0;
        let children_visible = visible && self.state != ShowChildren::Hide;
        let this = FlatEntry {
            depth,
            visible,
            has_children,
            editing: self.state == ShowChildren::Editing,
            description: self.text.clone(),
        };
        let mut acc: Vec<FlatEntry> = Vec::new();
        acc.push(this);
        proof {
            lemma_nodes_of(self.children@);
            assert(flat_views(acc@) =~= seq![flat_row(self@, visible, depth as nat)]);
            assert(self@.children.subrange(0, 0) =~= Seq::<Node>::empty());
            assert(flat_views(acc@) =~= seq![flat_row(self@, visible, depth as nat)]
                + flatten_forest(self@.children.subrange(0, 0), children_visible, depth as nat + 1));
        }
        let mut i: usize = 0;
        while i < self.children.len()
            invariant
                0 <= i <= self.children.len(),
                self@.children.len() == self.children.len(),
                forall|j: int|
                    0 <= j < self.children.len() ==> #[trigger] self@.children[j]
                        == self.children@[j]@,
                depth + tree_size(self@) <= usize::MAX,
                flat_views(acc@) == seq![flat_row(self@, visible, depth as nat)] + flatten_forest(
                    self@.children.subrange(0, i as int),
                    children_visible,
                    depth as nat + 1,
                ),
            decreases self.children.len() - i,
        {
            proof {
                lemma_tree_within_forest(self@.children, i as int);
                lemma_forest_step(self@.children, i as int, children_visible, depth as nat + 1);
                assert(decreases_to!(self => self.children));
                assert(decreases_to!(self.children => self.children@[i as int]));
            }
            let mut sub = self.children[i].to_flat_view(children_visible, depth + 1);
            let ghost before = acc@;
            let ghost added = sub@;
            acc.append(&mut sub);
            proof {
                assert(flat_views(acc@) =~= flat_views(before) + flat_views(added));
            }
            i += 1;
        }
        proof {
            assert(self@.children.subrange(0, self.children.len() as int) =~= self@.children);
        }
        acc
    }
}

/// The entry at pre-order position `id` of a sequence of trees, counting
/// hidden entries.
fn forest_get_mut(children: &mut Vec<Entry>, id: usize) -> (r: Option<&mut Entry>)
    ensures
        id < forest_size(nodes_of(old(children)@)) ==> {
            &&& r is Some
            &&& forest_node_at(nodes_of(old(children)@), id as nat) == Some((*r.unwrap())@)
            &&& nodes_of(final(children)@) == forest_replace(
                nodes_of(old(children)@),
                id as nat,
                (*final(r.unwrap()))@,
            )
        },
        id >= forest_size(nodes_of(old(children)@)) ==> r is None && *final(children) == *old(
            children,
        ),
    decreases forest_size(nodes_of(old(children)@)),
{
    let ghost nodes = nodes_of(children@);
    proof {
        lemma_nodes_of(children@);
        assert(nodes.subrange(0, 0) =~= Seq::<Node>::empty());
    }
    let mut b = id;
    let mut i: usize = 0;
    while i < children.len()
        invariant
            0 <= i <= children.len(),
            *children == *old(children),
            nodes == nodes_of(children@),
            nodes.len() == children.len(),
            forall|j: int| 0 <= j < children.len() ==> #[trigger] nodes[j] == children@[j]@,
            b + forest_size(nodes.subrange(0, i as int)) == id,
        decreases children.len() - i,
    {
        proof {
            lemma_tree_within_forest(nodes, i as int);
            lemma_forest_step(nodes, i as int, true, 0);
        }
        match children[i].skip(b) {
            None => {
                let ghost child = children@[i as int];
                proof {
                    lemma_nodes_of(child.children@);
                    assert forall|e: Entry| #[trigger]
                        nodes_of(old(children)@.update(i as int, e)) == nodes_of(
                            old(children)@,
                        ).update(i as int, e@) by {
                        lemma_nodes_update(old(children)@, i as int, e);
                    }
                    assert forall|x: Node| #[trigger]
                        forest_replace(nodes, id as nat, x) == nodes.update(
                            i as int,
                            tree_replace(nodes[i as int], b as nat, x),
                        ) by {
                        lemma_forest_position(nodes, i as int, b as nat, x);
                    }
                    lemma_forest_position(nodes, i as int, b as nat, child@);
                }
                let entry = &mut children[i];
                if b == 0 {
                    return Some(entry);
                } else {
                    return forest_get_mut(&mut entry.children, b - 1);
                }
            },
            Some(rest) => {
                b = rest;
            },
        }
        i += 1;
    }
    proof {
        assert(nodes.subrange(0, children.len() as int) =~= nodes);
    }
    None
}

/// A sequence of trees with a set of selected rows.
#[derive(Debug, Default)]
pub struct TreeView {
    pub children: Vec<Entry>,
    pub selected: BTreeSet<usize>,
}

impl View for TreeView {
    type V = Seq<Node>;

    open spec fn view(&self) -> Seq<Node> {
        nodes_of(self.children@)
    }
}

impl TreeView {
    pub fn with_children(children: Vec<Entry>) -> (r: TreeView)
        ensures
            r@ == nodes_of(children@),
            r.selected@ == Set::<usize>::empty(),
    {
        TreeView { children, selected: BTreeSet::new() }
    }

    pub fn is_empty(&self) -> (r: bool)
        ensures
            r == (self@.len() == 0),
    {
        proof {
            lemma_nodes_of(self.children@);
        }
        self.children.len() == 0
    }

    /// Forgets every selection.
    pub fn clear_selected(&mut self)
        ensures
            final(self)@ == old(self)@,
            final(self).selected@ == Set::<usize>::empty(),
    {
        self.selected.clear()
    }

    /// Selects row `id` where it is not selected, and unselects it where it is.
    pub fn toggle_select(&mut self, id: usize)
        ensures
            final(self)@ == old(self)@,
            final(self).selected@ == if old(self).selected@.contains(id) {
                old(self).selected@.remove(id)
            } else {
                old(self).selected@.insert(id)
            },
    {
        if self.selected.contains(&id) {
            self.selected.remove(&id);
        } else {
            self.selected.insert(id);
        }
    }

    /// The entry at pre-order position `id`, counting hidden entries.
    pub fn get_mut(&mut self, id: usize) -> (r: Option<&mut Entry>)
        ensures
            id < forest_size(old(self)@) ==> {
                &&& r is Some
                &&& forest_node_at(old(self)@, id as nat) == Some((*r.unwrap())@)
                &&& final(self)@ == forest_replace(old(self)@, id as nat, (*final(r.unwrap()))@)
            },
            id >= forest_size(old(self)@) ==> r is None && final(self)@ == old(self)@,
            final(self).selected@ == old(self).selected@,
    {
        forest_get_mut(&mut self.children, id)
    }

    /// The rows of all the trees, depth first, the roots visible at depth zero.
    pub fn to_vec(&self) -> (r: Vec<FlatEntry>)
        requires
            forest_size(self@) <= usize::MAX,
        ensures
            flat_views(r@) == flatten_forest(self@, true, 0),
    {
        let mut acc: Vec<FlatEntry> = Vec::new();
        proof {
            lemma_nodes_of(self.children@);
            assert(self@.subrange(0, 0) =~= Seq::<Node>::empty());
            assert(flat_views(acc@) =~= Seq::<FlatView>::empty());
        }
        let mut i: usize = 0;
        while i < self.children.len()
            invariant
                0 <= i <= self.children.len(),
                self@.len() == self.children.len(),
                forall|j: int|
                    0 <= j < self.children.len() ==> #[trigger] self@[j] == self.children@[j]@,
                forest_size(self@) <= usize::MAX,
                flat_views(acc@) == flatten_forest(self@.subrange(0, i as int), true, 0),
            decreases self.children.len() - i,
        {
            proof {
                lemma_tree_within_forest(self@, i as int);
                lemma_forest_step(self@, i as int, true, 0);
            }
            let mut sub = self.children[i].to_flat_view(true, 0);
            let ghost before = acc@;
            let ghost added = sub@;
            acc.append(&mut sub);
            proof {
                assert(flat_views(acc@) =~= flat_views(before) + flat_views(added));
            }
            i += 1;
        }
        proof {
            assert(self@.subrange(0, self.children.len() as int) =~= self@);
        }
        acc
    }
}

/// Flattening a tree gives one row per node, hidden or not.
pub proof fn law_flatten_tree_len(n: Node, visible: bool, depth: nat)
    ensures
        flatten_tree(n, visible, depth).len() == tree_size(n),
    decreases n,
{
    law_flatten_forest_len(n.children, visible && n.state != ShowChildren::Hide, depth + 1);
}

/// Flattening a sequence of trees gives one row per node, hidden or not.
pub proof fn law_flatten_forest_len(s: Seq<Node>, visible: bool, depth: nat)
    ensures
        flatten_forest(s, visible, depth).len() == forest_size(s),
    decreases s,
{
    if s.len() > 0 {
        law_flatten_forest_len(s.subrange(0, s.len() - 1), visible, depth);
        law_flatten_tree_len(s[s.len() - 1], visible, depth);
    }
}

proof fn lemma_flatten_tree_hidden(n: Node, depth: nat)
    ensures
        forall|k: int|
            0 <= k < flatten_tree(n, false, depth).len() ==> !(#[trigger] flatten_tree(
                n,
                false,
                depth,
            )[k]).visible,
    decreases n,
{
    let rows = flatten_tree(n, false, depth);
    let below = flatten_forest(n.children, false, depth + 1);
    lemma_flatten_forest_hidden(n.children, depth + 1);
    assert forall|k: int| 0 <= k < rows.len() implies !(#[trigger] rows[k]).visible by {
        if k > 0 {
            assert(rows[k] == below[k - 1]);
        }
    }
}

proof fn lemma_flatten_forest_hidden(s: Seq<Node>, depth: nat)
    ensures
        forall|k: int|
            0 <= k < flatten_forest(s, false, depth).len() ==> !(#[trigger] flatten_forest(
                s,
                false,
                depth,
            )[k]).visible,
    decreases s,
{
    if s.len() > 0 {
        let rows = flatten_forest(s, false, depth);
        let a = flatten_forest(s.subrange(0, s.len() - 1), false, depth);
        let b = flatten_tree(s[s.len() - 1], false, depth);
        lemma_flatten_forest_hidden(s.subrange(0, s.len() - 1), depth);
        lemma_flatten_tree_hidden(s[s.len() - 1], depth);
        assert forall|k: int| 0 <= k < rows.len() implies !(#[trigger] rows[k]).visible by {
            if k < a.len() {
                assert(rows[k] == a[k]);
            } else {
                assert(rows[k] == b[k - a.len()]);
            }
        }
    }
}

/// Flattening a node that hides its children: its own row keeps the
/// visibility that its ancestors give it, and every row below it is hidden.
pub proof fn law_hidden_descendants(n: Node, visible: bool, depth: nat)
    requires
        n.state == ShowChildren::Hide,
    ensures
        flatten_tree(n, visible, depth)[0].visible == visible,
        forall|k: int|
            1 <= k < flatten_tree(n, visible, depth).len() ==> !(#[trigger] flatten_tree(
                n,
                visible,
                depth,
            )[k]).visible,
{
    let rows = flatten_tree(n, visible, depth);
    let below = flatten_forest(n.children, false, depth + 1);
    lemma_flatten_forest_hidden(n.children, depth + 1);
    assert forall|k: int| 1 <= k < rows.len() implies !(#[trigger] rows[k]).visible by {
        assert(rows[k] == below[k - 1]);
    }
}

/// Splits a position of a sequence of trees into the tree that holds it and
/// the position within that tree.
proof fn lemma_decompose(s: Seq<Node>, id: nat) -> (r: (int, nat))
    requires
        id < forest_size(s),
    ensures
        0 <= r.0 < s.len(),
        r.1 < tree_size(s[r.0]),
        id == forest_size(s.subrange(0, r.0)) + r.1,
    decreases s.len(),
{
    let init = s.subrange(0, s.len() - 1);
    if id < forest_size(init) {
        let (i, b) = lemma_decompose(init, id);
        assert(init.subrange(0, i) =~= s.subrange(0, i));
        assert(init[i] == s[i]);
        (i, b)
    } else {
        assert(init =~= s.subrange(0, s.len() - 1));
        ((s.len() - 1) as int, (id - forest_size(init)) as nat)
    }
}

/// The rows of tree `i` of a sequence of trees start at the number of nodes
/// before it.
proof fn lemma_flatten_position(s: Seq<Node>, i: int, k: int, visible: bool, depth: nat)
    requires
        0 <= i < s.len(),
        0 <= k < tree_size(s[i]),
    ensures
        flatten_forest(s, visible, depth)[forest_size(s.subrange(0, i)) + k] == flatten_tree(
            s[i],
            visible,
            depth,
        )[k],
    decreases s.len(),
{
    let init = s.subrange(0, s.len() - 1);
    law_flatten_forest_len(init, visible, depth);
    law_flatten_tree_len(s[s.len() - 1], visible, depth);
    if i == s.len() - 1 {
        assert(init =~= s.subrange(0, i));
    } else {
        lemma_tree_within_forest(init, i);
        assert(init.subrange(0, i) =~= s.subrange(0, i));
        assert(init[i] == s[i]);
        lemma_flatten_position(init, i, k, visible, depth);
    }
}

/// Every position below the number of nodes addresses a node, and the row at
/// that position of the flattened trees is that node's row.
pub proof fn law_position_matches_row(s: Seq<Node>, id: nat, visible: bool, depth: nat)
    requires
        id < forest_size(s),
    ensures
        forest_node_at(s, id) is Some,
        flatten_forest(s, visible, depth)[id as int].description == forest_node_at(
            s,
            id,
        ).unwrap().text,
        flatten_forest(s, visible, depth)[id as int].has_children == (forest_node_at(
            s,
            id,
        ).unwrap().children.len() > 0),
        flatten_forest(s, visible, depth)[id as int].editing == (forest_node_at(s, id).unwrap().state
            == ShowChildren::Editing),
    decreases s,
{
    let (i, b) = lemma_decompose(s, id);
    let n = s[i];
    lemma_forest_position(s, i, b, n);
    lemma_flatten_position(s, i, b as int, visible, depth);
    if b > 0 {
        let v = visible && n.state != ShowChildren::Hide;
        law_flatten_tree_len(n, visible, depth);
        assert(flatten_tree(n, visible, depth)[b as int] == flatten_forest(
            n.children,
            v,
            depth + 1,
        )[b as int - 1]);
        law_position_matches_row(n.children, (b - 1) as nat, v, depth + 1);
    }
}

/// Rows and positions agree: a position below the number of rows addresses a
/// node whose text is that row's description; any other position addresses
/// none.
pub proof fn law_rows_address_nodes(s: Seq<Node>, id: nat)
    ensures
        id < flatten_forest(s, true, 0).len() ==> {
            &&& forest_node_at(s, id) is Some
            &&& forest_node_at(s, id).unwrap().text == flatten_forest(
                s,
                true,
                0,
            )[id as int].description
        },
        id >= flatten_forest(s, true, 0).len() ==> id >= forest_size(s),
{
    law_flatten_forest_len(s, true, 0);
    if id < forest_size(s) {
        law_position_matches_row(s, id, true, 0);
    }
}

proof fn lemma_size_update(s: Seq<Node>, i: int, t: Node)
    requires
        0 <= i < s.len(),
        tree_size(t) == tree_size(s[i]),
    ensures
        forest_size(s.update(i, t)) == forest_size(s),
    decreases s.len(),
{
    let u = s.update(i, t);
    let init = s.subrange(0, s.len() - 1);
    if i == s.len() - 1 {
        assert(u.subrange(0, u.len() - 1) =~= init);
    } else {
        assert(u.subrange(0, u.len() - 1) =~= init.update(i, t));
        lemma_size_update(init, i, t);
    }
}

/// Replacing a node by one of the same size keeps positions: the new node
/// stands where the old one stood, a second replacement there undoes the
/// first, and putting a node back where it was changes nothing.
proof fn lemma_replace(s: Seq<Node>, id: nat, x: Node, y: Node)
    requires
        id < forest_size(s),
        forest_node_at(s, id) is Some,
        tree_size(x) == tree_size(forest_node_at(s, id).unwrap()),
    ensures
        forest_size(forest_replace(s, id, x)) == forest_size(s),
        forest_node_at(forest_replace(s, id, x), id) == Some(x),
        forest_replace(forest_replace(s, id, x), id, y) == forest_replace(s, id, y),
        forest_replace(s, id, forest_node_at(s, id).unwrap()) == s,
    decreases s,
{
    let (i, b) = lemma_decompose(s, id);
    let n = s[i];
    let old_node = forest_node_at(s, id).unwrap();
    lemma_forest_position(s, i, b, x);
    lemma_forest_position(s, i, b, y);
    lemma_forest_position(s, i, b, old_node);
    let t = tree_replace(n, b, x);
    if b > 0 {
        law_position_matches_row(n.children, (b - 1) as nat, true, 0);
        lemma_replace(n.children, (b - 1) as nat, x, y);
        assert(tree_replace(n, b, old_node) =~= n);
    }
    assert(tree_size(t) == tree_size(n));
    lemma_size_update(s, i, t);
    let s1 = s.update(i, t);
    assert(s1.subrange(0, i) =~= s.subrange(0, i));
    lemma_forest_position(s1, i, b, y);
    assert(s1.update(i, tree_replace(t, b, y)) =~= s.update(i, tree_replace(n, b, y)));
    assert(s.update(i, n) =~= s);
}

/// Toggling whether an entry's children show, twice, leaves the trees as
/// they were.
pub proof fn law_toggle_twice(s: Seq<Node>, id: nat)
    ensures
        update_at(
            update_at(s, id, |n: Node| toggle_collapse(n)),
            id,
            |n: Node| toggle_collapse(n),
        ) == s,
{
    if id < forest_size(s) {
        law_position_matches_row(s, id, true, 0);
        let n = forest_node_at(s, id).unwrap();
        let x = toggle_collapse(n);
        assert(x.children == n.children);
        lemma_replace(s, id, x, toggle_collapse(x));
        assert(toggle_collapse(x) == n);
        lemma_replace(s, id, n, n);
    }
}

/// What can be done to the tree, each addressing an entry by its pre-order
/// position.
#[derive(Debug, Clone, PartialEq, Eq)]
pub enum Message {
    ToggleCollapse { id: usize },
    ToggleSelect { id: usize },
    AddNewEntry { id: usize },
    DescriptionEdited { id: usize, label: String },
    FinishedEdit { id: usize },
}

/// A node with its children shown where they were hidden, and hidden where
/// they were shown; a node being edited stays as it is.
pub open spec fn toggle_collapse(n: Node) -> Node {
    match n.state {
        ShowChildren::Show => Node { state: ShowChildren::Hide, ..n },
        ShowChildren::Hide => Node { state: ShowChildren::Show, ..n },
        ShowChildren::Editing => n,
    }
}

/// A node with a new last child that has no text and is being edited.
pub open spec fn add_child(n: Node) -> Node {
    Node {
        children: n.children.push(
            Node { text: Seq::empty(), state: ShowChildren::Editing, children: Seq::empty() },
        ),
        ..n
    }
}

pub open spec fn set_text(n: Node, text: Seq<char>) -> Node {
    Node { text, ..n }
}

/// A node being edited that has text goes back to showing its children; any
/// other node stays as it is.
pub open spec fn finish_edit(n: Node) -> Node {
    if n.state == ShowChildren::Editing && n.text.len() > 0 {
        Node { state: ShowChildren::Show, ..n }
    } else {
        n
    }
}

/// The trees with `f` applied to the node at pre-order position `id`, or
/// unchanged where there is no such node.
pub open spec fn update_at(s: Seq<Node>, id: nat, f: spec_fn(Node) -> Node) -> Seq<Node> {
    if id < forest_size(s) {
        forest_replace(s, id, f(forest_node_at(s, id).unwrap()))
    } else {
        s
    }
}

/// The tree view shown in a pane.
#[derive(Debug, Default)]
pub struct TreeViewPane {
    pub internal: TreeView,
}

impl TreeViewPane {
    /// Applies `message` to the tree; returns the row whose text input is to
    /// take the focus, if any.
    pub fn update(&mut self, message: Message) -> (focus: Option<usize>)
        ensures
            match message {
                Message::ToggleCollapse { id } => {
                    &&& final(self).internal@ == update_at(
                        old(self).internal@,
                        id as nat,
                        |n: Node| toggle_collapse(n),
                    )
                    &&& final(self).internal.selected@ == old(self).internal.selected@
                    &&& focus is None
                },
                Message::ToggleSelect { id } => {
                    &&& final(self).internal@ == old(self).internal@
                    &&& final(self).internal.selected@ == if old(
                        self,
                    ).internal.selected@.contains(id) {
                        old(self).internal.selected@.remove(id)
                    } else {
                        old(self).internal.selected@.insert(id)
                    }
                    &&& focus is None
                },
                Message::AddNewEntry { id } => {
                    &&& final(self).internal@ == update_at(
                        old(self).internal@,
                        id as nat,
                        |n: Node| add_child(n),
                    )
                    &&& final(self).internal.selected@ == Set::<usize>::empty()
                    &&& focus == Some(id)
                },
                Message::DescriptionEdited { id, label } => {
                    &&& final(self).internal@ == update_at(
                        old(self).internal@,
                        id as nat,
                        |n: Node| set_text(n, label@),
                    )
                    &&& final(self).internal.selected@ == old(self).internal.selected@
                    &&& focus is None
                },
                Message::FinishedEdit { id } => {
                    &&& final(self).internal@ == update_at(
                        old(self).internal@,
                        id as nat,
                        |n: Node| finish_edit(n),
                    )
                    &&& final(self).internal.selected@ == old(self).internal.selected@
                    &&& focus is None
                },
            },
    {
        match message {
            Message::ToggleCollapse { id } => {
                if let Some(entry) = self.internal.get_mut(id) {
                    let new_state = match entry.state {
                        ShowChildren::Hide => ShowChildren::Show,
                        ShowChildren::Show => ShowChildren::Hide,
                        ShowChildren::Editing => ShowChildren::Editing,
                    };
                    entry.state = new_state;
                }
                None
            },
            Message::ToggleSelect { id } => {
                self.internal.toggle_select(id);
                None
            },
            Message::AddNewEntry { id } => {
                // Selections are row positions, which an insertion shifts.
                self.internal.clear_selected();
                if let Some(entry) = self.internal.get_mut(id) {
                    let ghost before = entry.children@;
                    let child = Entry::new_empty();
                    entry.children.push(child);
                    proof {
                        lemma_nodes_push(before, child);
                    }
                }
                Some(id)
            },
            Message::DescriptionEdited { id, label } => {
                if let Some(entry) = self.internal.get_mut(id) {
                    entry.text = label;
                }
                None
            },
            Message::FinishedEdit { id } => {
                if let Some(entry) = self.internal.get_mut(id) {
                    if entry.state == ShowChildren::Editing && !entry.text.as_str().is_empty() {
                        entry.state = ShowChildren::Show;
                    }
                }
                None
            },
        }
    }
}

pub open spec fn leaf(text: Seq<char>) -> Node {
    Node { text, state: ShowChildren::Show, children: Seq::empty() }
}

/// A row as the pane shows it: its pre-order position, the row itself, and
/// whether it is selected.
#[derive(Debug, Clone, PartialEq, Eq)]
pub struct ShownRow {
    pub id: usize,
    pub entry: FlatEntry,
    pub selected: bool,
}

impl FlatEntry {
    fn copy(&self) -> (r: FlatEntry)
        ensures
            r@ == self@,
    {
        FlatEntry {
            depth: self.depth,
            visible: self.visible,
            has_children: self.has_children,
            editing: self.editing,
            description: self.description.clone(),
        }
    }
}

impl TreeViewPane {
    /// The pane's starting tree: three entries, the second with two children,
    /// the last of which has one child.
    pub fn new() -> (r: TreeViewPane)
        ensures
            r.internal@ == seq![
                leaf("entry 1"@),
                Node {
                    text: "entry 2"@,
                    state: ShowChildren::Show,
                    children: seq![
                        leaf("2.1"@),
                        Node {
                            text: "2.2"@,
                            state: ShowChildren::Show,
                            children: seq![leaf("2.2.1"@)],
                        },
                    ],
                },
                leaf("entry 3"@),
            ],
            r.internal.selected@ == Set::<usize>::empty(),
    {
        let deepest = vec![Entry::new("2.2.1")];
        proof {
            lemma_nodes_of(deepest@);
            assert(nodes_of(deepest@) =~= seq![leaf("2.2.1"@)]);
        }
        let inner = vec![Entry::new("2.1"), Entry::with_children("2.2", deepest)];
        proof {
            lemma_nodes_of(inner@);
            assert(nodes_of(inner@) =~= seq![
                leaf("2.1"@),
                Node { text: "2.2"@, state: ShowChildren::Show, children: seq![leaf("2.2.1"@)] },
            ]);
        }
        let top = vec![
            Entry::new("entry 1"),
            Entry::with_children("entry 2", inner),
            Entry::new("entry 3"),
        ];
        proof {
            lemma_nodes_of(top@);
        }
        let internal = TreeView::with_children(top);
        proof {
            assert(internal@ =~= seq![
                leaf("entry 1"@),
                Node {
                    text: "entry 2"@,
                    state: ShowChildren::Show,
                    children: seq![
                        leaf("2.1"@),
                        Node {
                            text: "2.2"@,
                            state: ShowChildren::Show,
                            children: seq![leaf("2.2.1"@)],
                        },
                    ],
                },
                leaf("entry 3"@),
            ]);
        }
        TreeViewPane { internal }
    }

    /// The visible rows of the flattened tree, in order, each with its
    /// position and whether it is selected.
    pub fn shown_rows(&self) -> (r: Vec<ShownRow>)
        requires
            forest_size(self.internal@) <= usize::MAX,
        ensures
            forall|k: int|
                #![trigger r@[k]]
                0 <= k < r.len() ==> {
                    let id = r@[k].id as int;
                    &&& id < flatten_forest(self.internal@, true, 0).len()
                    &&& flatten_forest(self.internal@, true, 0)[id].visible
                    &&& r@[k].entry@ == flatten_forest(self.internal@, true, 0)[id]
                    &&& r@[k].selected == self.internal.selected@.contains(r@[k].id)
                },
            forall|k: int, l: int| 0 <= k < l < r.len() ==> r@[k].id < r@[l].id,
            forall|id: int|
                0 <= id < flatten_forest(self.internal@, true, 0).len() && flatten_forest(
                    self.internal@,
                    true,
                    0,
                )[id].visible ==> exists|k: int| 0 <= k < r.len() && #[trigger] r@[k].id == id,
    {
        let flat = self.internal.to_vec();
        let ghost rows = flatten_forest(self.internal@, true, 0);
        let mut shown: Vec<ShownRow> = Vec::new();
        let mut i: usize = 0;
        while i < flat.len()
            invariant
                0 <= i <= flat.len(),
                flat_views(flat@) == rows,
                rows == flatten_forest(self.internal@, true, 0),
                forall|k: int|
                    #![trigger shown@[k]]
                    0 <= k < shown.len() ==> {
                        let id = shown@[k].id as int;
                        &&& id < i
                        &&& rows[id].visible
                        &&& shown@[k].entry@ == rows[id]
                        &&& shown@[k].selected == self.internal.selected@.contains(shown@[k].id)
                    },
                forall|k: int, l: int| 0 <= k < l < shown.len() ==> shown@[k].id < shown@[l].id,
                forall|id: int|
                    0 <= id < i && rows[id].visible ==> exists|k: int|
                        0 <= k < shown.len() && #[trigger] shown@[k].id == id,
            decreases flat.len() - i,
        {
            proof {
                assert(flat_views(flat@)[i as int] == flat@[i as int]@);
            }
            if flat[i].visible {
                let row = ShownRow {
                    id: i,
                    entry: flat[i].copy(),
                    selected: self.internal.selected.contains(&i),
                };
                let ghost before = shown@;
                shown.push(row);
                proof {
                    assert(shown@[before.len() as int] == row);
                    assert forall|id: int|
                        0 <= id < i + 1 && rows[id].visible implies exists|k: int|
                            0 <= k < shown.len() && #[trigger] shown@[k].id == id by {
                        if id < i {
                            let k = choose|k: int| 0 <= k < before.len() && #[trigger] before[k].id == id;
                            assert(shown@[k] == before[k]);
                        } else {
                            assert(shown@[before.len() as int].id == id);
                        }
                    }
                }
            }
            i += 1;
        }
        shown
    }
}

} // verus!
