//! The widget tree: widgets describe their content, and the tree holds one node
//! per widget, with parent and children links, in the order they were built.
use vstd::prelude::*;

verus! {

/// What a widget builds below itself.
pub enum Content {
    Zero,
    Single(Box<Widget>),
    Multi(Vec<Widget>),
}

/// A widget: its element name and its content.
pub struct Widget {
    pub element: String,
    pub content: Content,
}

/// The number of nodes that building `w` adds to a tree.
pub open spec fn size(w: Widget) -> nat
    decreases w,
{
    1 + match w.content {
        Content::Zero => 0,
        Content::Single(c) => size(*c),
        Content::Multi(cs) => list_size(cs@),
    }
}

/// The number of nodes that building the widgets of `cs` adds to a tree.
pub open spec fn list_size(cs: Seq<Widget>) -> nat
    decreases cs,
{
    if cs.len() == 0 {
        0
    } else {
        list_size(cs.drop_last()) + size(cs.last())
    }
}

/// What a node of the tree stands for.
pub struct NodeView {
    pub element: Seq<char>,
    pub parent: Option<int>,
    pub children: Seq<int>,
}

/// The node of a widget in the tree.
pub struct Node {
    pub element: String,
    pub parent: Option<usize>,
    pub children: Vec<usize>,
}

pub open spec fn opt_int(o: Option<usize>) -> Option<int> {
    match o {
        Some(x) => Some(x as int),
        None => None,
    }
}

impl View for Node {
    type V = NodeView;

    open spec fn view(&self) -> NodeView {
        NodeView {
            element: self.element@,
            parent: opt_int(self.parent),
            children: self.children@.map_values(|c: usize| c as int),
        }
    }
}

/// The ids that the children of a widget with content `c` get, where the widget's
/// own node is `base`.
pub open spec fn child_ids(c: Content, base: int) -> Seq<int> {
    match c {
        Content::Zero => Seq::empty(),
        Content::Single(_) => seq![base + 1],
        Content::Multi(cs) => list_ids(cs@, base + 1),
    }
}

/// The ids that the widgets of `cs` get, the first one at `start`.
pub open spec fn list_ids(cs: Seq<Widget>, start: int) -> Seq<int>
    decreases cs.len(),
{
    if cs.len() == 0 {
        Seq::empty()
    } else {
        list_ids(cs.drop_last(), start).push(start + list_size(cs.drop_last()))
    }
}

/// The nodes that building `w` below `parent` adds, in order, the first one
/// getting the id `base`: each widget before the widgets below it, in order.
pub open spec fn built(w: Widget, parent: Option<int>, base: int) -> Seq<NodeView>
    decreases w,
{
    seq![NodeView { element: w.element@, parent, children: child_ids(w.content, base) }] + match w.content {
        Content::Zero => Seq::empty(),
        Content::Single(c) => built(*c, Some(base), base + 1),
        Content::Multi(cs) => built_list(cs@, base, base + 1),
    }
}

/// The nodes that building the widgets of `cs` below `parent` adds, the first one
/// getting the id `start`.
pub open spec fn built_list(cs: Seq<Widget>, parent: int, start: int) -> Seq<NodeView>
    decreases cs,
{
    if cs.len() == 0 {
        Seq::empty()
    } else {
        built_list(cs.drop_last(), parent, start) + built(cs.last(), Some(parent), start + list_size(cs.drop_last()))
    }
}

/// `s` with `id` appended to the children of `root`, where there is a root.
pub open spec fn attached(s: Seq<NodeView>, root: Option<usize>, id: int) -> Seq<NodeView> {
    match root {
        Some(r) => s.update(r as int, NodeView { children: s[r as int].children.push(id), ..s[r as int] }),
        None => s,
    }
}

proof fn lemma_list_take(cs: Seq<Widget>, parent: int, start: int, i: int)
    requires
        0 <= i < cs.len(),
    ensures
        list_size(cs.take(i + 1)) == list_size(cs.take(i)) + size(cs[i]),
        list_ids(cs.take(i + 1), start) == list_ids(cs.take(i), start).push(start + list_size(cs.take(i))),
        built_list(cs.take(i + 1), parent, start) == built_list(cs.take(i), parent, start) + built(
            cs[i],
            Some(parent),
            start + list_size(cs.take(i)),
        ),
{
    assert(cs.take(i + 1).drop_last() =~= cs.take(i));
    assert(cs.take(i + 1).last() == cs[i]);
}

proof fn lemma_list_size_prefix(cs: Seq<Widget>, i: int)
    requires
        0 <= i <= cs.len(),
    ensures
        list_size(cs.take(i)) <= list_size(cs),
    decreases cs.len() - i,
{
    if i < cs.len() {
        lemma_list_take(cs, 0, 0, i);
        lemma_list_size_prefix(cs, i + 1);
    } else {
        assert(cs.take(i) =~= cs);
    }
}

/// Building a widget adds one node for it and for each widget it builds, however deep.
pub proof fn law_built_size(w: Widget, parent: Option<int>, base: int)
    ensures
        built(w, parent, base).len() == size(w),
    decreases w,
{
    match w.content {
        Content::Zero => {},
        Content::Single(c) => {
            law_built_size(*c, Some(base), base + 1);
        },
        Content::Multi(cs) => {
            lemma_built_list_size(cs@, base, base + 1);
        },
    }
}

proof fn lemma_built_list_size(cs: Seq<Widget>, parent: int, start: int)
    ensures
        built_list(cs, parent, start).len() == list_size(cs),
    decreases cs,
{
    if cs.len() > 0 {
        lemma_built_list_size(cs.drop_last(), parent, start);
        law_built_size(cs.last(), Some(parent), start + list_size(cs.drop_last()));
    }
}

/// Adds the nodes of `widget` and of all widgets it builds to `tree`, in order, the
/// node of `widget` first, appended to the children of `root` where there is one.
/// Returns the node of `widget`, or `None` where the widget builds no content.
pub fn build_tree(tree: &mut Tree, root: Option<usize>, widget: &Widget) -> (r: Option<usize>)
    requires
        root matches Some(x) ==> x < old(tree)@.len(),
    ensures
        final(tree)@ == attached(old(tree)@, root, old(tree)@.len() as int) + built(
            *widget,
            opt_int(root),
            old(tree)@.len() as int,
        ),
        r == (if widget.content is Zero {
            None
        } else {
            Some(old(tree)@.len() as usize)
        }),
    decreases *widget,
{
    let id = tree.len();
    let ghost base = id as int;
    let ghost rooted = attached(old(tree)@, root, base);
    tree.push_node(Node { element: widget.element.clone(), parent: root, children: Vec::new() });
    proof {
        let n = tree@[base];
        assert(n.children =~= Seq::<int>::empty());
    }
    if let Some(r) = root {
        tree.add_child(r, id);
        assert(tree@ =~= rooted.push(NodeView { element: widget.element@, parent: opt_int(root), children: Seq::empty() }));
    } else {
        assert(tree@ =~= rooted.push(NodeView { element: widget.element@, parent: opt_int(root), children: Seq::empty() }));
    }
    match &widget.content {
        Content::Zero => {
            assert(child_ids(widget.content, base) =~= Seq::<int>::empty());
            assert(tree@ =~= rooted + built(*widget, opt_int(root), base));
            None
        },
        Content::Single(child) => {
            proof {
                law_built_size(**child, Some(base), base + 1);
            }
            build_tree(tree, Some(id), child);
            assert(tree@ =~= rooted + built(*widget, opt_int(root), base));
            Some(id)
        },
        Content::Multi(children) => {
            let n = children.len();
            let mut i: usize = 0;
            assert(children@.take(0) =~= Seq::<Widget>::empty());
            while i < n
                invariant
                    n == children@.len(),
                    i <= n,
                    widget.content == Content::Multi(*children),
                    base == id,
                    rooted.len() == base,
                    size(*widget) == 1 + list_size(children@),
                    tree@ == rooted.push(
                        NodeView {
                            element: widget.element@,
                            parent: opt_int(root),
                            children: list_ids(children@.take(i as int), base + 1),
                        },
                    ) + built_list(children@.take(i as int), base, base + 1),
                    tree@.len() == base + 1 + list_size(children@.take(i as int)),
                decreases n - i,
            {
                let ghost before = tree@;
                proof {
                    lemma_list_take(children@, base, base + 1, i as int);
                    lemma_list_size_prefix(children@, i + 1);
                    lemma_built_list_size(children@.take(i as int), base, base + 1);
                    law_built_size(children@[i as int], Some(base), before.len() as int);
                }
                build_tree(tree, Some(id), &children[i]);
                proof {
                    let node_before = before[base];
                    let node_after = NodeView {
                        element: widget.element@,
                        parent: opt_int(root),
                        children: list_ids(children@.take(i + 1), base + 1),
                    };
                    assert(attached(before, Some(id), before.len() as int) =~= rooted.push(node_after) + built_list(
                        children@.take(i as int),
                        base,
                        base + 1,
                    ));
                    assert(tree@ =~= rooted.push(node_after) + built_list(children@.take(i + 1), base, base + 1));
                }
                i = i + 1;
            }
            assert(children@.take(n as int) =~= children@);
            assert(tree@ =~= rooted + built(*widget, opt_int(root), base));
            Some(id)
        },
    }
}

/// Every child of a node comes after it, and every child id is a node.
pub open spec fn ordered(s: Seq<NodeView>) -> bool {
    forall|i: int, k: int|
        0 <= i < s.len() && 0 <= k < s[i].children.len() ==> i < #[trigger] s[i].children[k] < s.len()
}

proof fn lemma_list_ids_index(cs: Seq<Widget>, start: int, i: int)
    requires
        0 <= i < cs.len(),
    ensures
        list_ids(cs, start).len() == cs.len(),
        list_ids(cs, start)[i] == start + list_size(cs.take(i)),
    decreases cs.len(),
{
    lemma_list_ids_len(cs, start);
    if i == cs.len() - 1 {
        assert(cs.drop_last() =~= cs.take(i));
    } else {
        lemma_list_ids_index(cs.drop_last(), start, i);
        assert(cs.drop_last().take(i) =~= cs.take(i));
    }
}

proof fn lemma_list_ids_len(cs: Seq<Widget>, start: int)
    ensures
        list_ids(cs, start).len() == cs.len(),
    decreases cs.len(),
{
    if cs.len() > 0 {
        lemma_list_ids_len(cs.drop_last(), start);
    }
}

proof fn lemma_size_positive(w: Widget)
    ensures
        size(w) >= 1,
{
}

/// Every node that building `w` adds has its children after itself and within the
/// nodes that building `w` adds.
proof fn lemma_built_ordered(w: Widget, parent: Option<int>, base: int)
    ensures
        forall|j: int, k: int|
            0 <= j < size(w) && 0 <= k < built(w, parent, base)[j].children.len() ==> base + j
                < #[trigger] built(w, parent, base)[j].children[k] < base + size(w),
    decreases w,
{
    law_built_size(w, parent, base);
    let b = built(w, parent, base);
    match w.content {
        Content::Zero => {},
        Content::Single(c) => {
            lemma_built_ordered(*c, Some(base), base + 1);
            law_built_size(*c, Some(base), base + 1);
            assert forall|j: int, k: int| 0 <= j < size(w) && 0 <= k < b[j].children.len() implies base + j
                < #[trigger] b[j].children[k] < base + size(w) by {
                if j > 0 {
                    assert(b[j] == built(*c, Some(base), base + 1)[j - 1]);
                }
            }
        },
        Content::Multi(cs) => {
            lemma_built_list_ordered(cs@, base, base + 1);
            lemma_built_list_size(cs@, base, base + 1);
            lemma_list_ids_len(cs@, base + 1);
            assert forall|j: int, k: int| 0 <= j < size(w) && 0 <= k < b[j].children.len() implies base + j
                < #[trigger] b[j].children[k] < base + size(w) by {
                if j > 0 {
                    assert(b[j] == built_list(cs@, base, base + 1)[j - 1]);
                } else {
                    lemma_list_ids_index(cs@, base + 1, k);
                    lemma_list_take(cs@, base, base + 1, k);
                    lemma_list_size_prefix(cs@, k + 1);
                    lemma_size_positive(cs@[k]);
                }
            }
        },
    }
}

proof fn lemma_built_list_ordered(cs: Seq<Widget>, parent: int, start: int)
    ensures
        forall|j: int, k: int|
            0 <= j < list_size(cs) && 0 <= k < built_list(cs, parent, start)[j].children.len() ==> start + j
                < #[trigger] built_list(cs, parent, start)[j].children[k] < start + list_size(cs),
    decreases cs,
{
    lemma_built_list_size(cs, parent, start);
    if cs.len() > 0 {
        let front = built_list(cs.drop_last(), parent, start);
        let at = start + list_size(cs.drop_last());
        let back = built(cs.last(), Some(parent), at);
        lemma_built_list_ordered(cs.drop_last(), parent, start);
        lemma_built_list_size(cs.drop_last(), parent, start);
        lemma_built_ordered(cs.last(), Some(parent), at);
        law_built_size(cs.last(), Some(parent), at);
        let b = built_list(cs, parent, start);
        assert forall|j: int, k: int| 0 <= j < list_size(cs) && 0 <= k < b[j].children.len() implies start + j
            < #[trigger] b[j].children[k] < start + list_size(cs) by {
            if j < front.len() {
                assert(b[j] == front[j]);
            } else {
                assert(b[j] == back[j - front.len()]);
            }
        }
    }
}

/// Building a widget into a tree whose children all come after their parents keeps
/// it so.
pub proof fn law_building_keeps_order(s: Seq<NodeView>, root: Option<usize>, w: Widget)
    requires
        ordered(s),
        root matches Some(x) ==> x < s.len(),
    ensures
        ordered(attached(s, root, s.len() as int) + built(w, opt_int(root), s.len() as int)),
{
    let a = attached(s, root, s.len() as int);
    let b = built(w, opt_int(root), s.len() as int);
    let t = a + b;
    lemma_built_ordered(w, opt_int(root), s.len() as int);
    law_built_size(w, opt_int(root), s.len() as int);
    lemma_size_positive(w);
    assert forall|i: int, k: int| 0 <= i < t.len() && 0 <= k < t[i].children.len() implies i
        < #[trigger] t[i].children[k] < t.len() by {
        if i < s.len() {
            assert(t[i] == a[i]);
            if root matches Some(r) && i == r {
                if k < s[i].children.len() {
                    assert(a[i].children[k] == s[i].children[k]);
                }
            } else {
                assert(a[i] == s[i]);
            }
        } else {
            assert(t[i] == b[i - s.len()]);
        }
    }
}

/// The lines that show the node `id` and the nodes below it, `spacer` before the
/// first one and a further indent before each level below.
pub open spec fn node_lines(s: Seq<NodeView>, id: int, spacer: Seq<char>) -> Seq<Seq<char>>
    decreases s.len() - id, 1nat, 0int,
{
    if 0 <= id < s.len() {
        seq![spacer + "|- "@ + s[id].element] + children_lines(s, id, 0, spacer + "|    "@)
    } else {
        Seq::empty()
    }
}

/// The lines that show the children `i` and later of `parent`, with the nodes below them.
pub open spec fn children_lines(s: Seq<NodeView>, parent: int, i: int, spacer: Seq<char>) -> Seq<Seq<char>>
    decreases s.len() - parent, 0nat, s[parent].children.len() - i,
{
    if 0 <= parent < s.len() && 0 <= i < s[parent].children.len() {
        let c = s[parent].children[i];
        (if parent < c < s.len() {
            node_lines(s, c, spacer)
        } else {
            Seq::empty()
        }) + children_lines(s, parent, i + 1, spacer)
    } else {
        Seq::empty()
    }
}

pub open spec fn texts(v: Seq<String>) -> Seq<Seq<char>> {
    v.map_values(|s: String| s@)
}

/// The nodes of the widgets built so far.
pub struct Tree {
    nodes: Vec<Node>,
}

impl Tree {
    pub closed spec fn node_views(&self) -> Seq<NodeView> {
        self.nodes@.map_values(|n: Node| n@)
    }

    /// A tree without nodes.
    pub fn new() -> (t: Tree)
        ensures
            t@ == Seq::<NodeView>::empty(),
    {
        let t = Tree { nodes: Vec::new() };
        assert(t@ =~= Seq::<NodeView>::empty());
        t
    }

    /// The number of nodes.
    pub fn len(&self) -> (n: usize)
        ensures
            n == self@.len(),
    {
        self.nodes.len()
    }

    /// The node `id`.
    pub fn node(&self, id: usize) -> (n: &Node)
        requires
            id < self@.len(),
        ensures
            n@ == self@[id as int],
    {
        &self.nodes[id]
    }

    /// Appends the lines that show the node `id` and the nodes below it to `lines`.
    pub fn node_lines(&self, id: usize, spacer: &String, lines: &mut Vec<String>)
        requires
            ordered(self@),
            id < self@.len(),
        ensures
            texts(final(lines)@) == texts(old(lines)@) + node_lines(self@, id as int, spacer@),
        decreases self@.len() - id,
    {
        let mut line = spacer.clone();
        line.append("|- ");
        line.append(self.nodes[id].element.as_str());
        let ghost before = lines@;
        lines.push(line);
        assert(texts(lines@) =~= texts(before) + seq![spacer@ + "|- "@ + self@[id as int].element]);
        let mut child_spacer = spacer.clone();
        child_spacer.append("|    ");
        let n = self.nodes[id].children.len();
        let mut i: usize = 0;
        let ghost start = texts(lines@);
        while i < n
            invariant
                ordered(self@),
                id < self@.len(),
                n == self@[id as int].children.len(),
                i <= n,
                child_spacer@ == spacer@ + "|    "@,
                start + children_lines(self@, id as int, 0, child_spacer@) == texts(lines@) + children_lines(
                    self@,
                    id as int,
                    i as int,
                    child_spacer@,
                ),
            decreases n - i,
        {
            let c = self.nodes[id].children[i];
            assert(self@[id as int].children[i as int] == c as int);
            assert(id < c < self@.len());
            let ghost pre = lines@;
            self.node_lines(c, &child_spacer, lines);
            assert(texts(lines@) == texts(pre) + node_lines(self@, c as int, child_spacer@));
            i = i + 1;
        }
        assert(texts(old(lines)@) + node_lines(self@, id as int, spacer@) =~= texts(lines@));
    }

    fn push_node(&mut self, node: Node)
        ensures
            final(self)@ == old(self)@.push(node@),
    {
        let ghost v = node@;
        self.nodes.push(node);
        assert(self@ =~= old(self)@.push(v));
    }

    fn add_child(&mut self, parent: usize, child: usize)
        requires
            parent < old(self)@.len(),
        ensures
            final(self)@ == attached(old(self)@, Some(parent), child as int),
    {
        self.nodes[parent].children.push(child);
        proof {
            let old_node = old(self)@[parent as int];
            assert(self.nodes@[parent as int].children@.map_values(|c: usize| c as int) =~= old_node.children.push(
                child as int,
            ));
            assert(self@ =~= attached(old(self)@, Some(parent), child as int));
        }
    }
}

impl View for Tree {
    type V = Seq<NodeView>;

    open spec fn view(&self) -> Seq<NodeView> {
        self.node_views()
    }
}

} // verus!
