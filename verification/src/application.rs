//! The description of an application window before it is opened: its place,
//! title, theme and root widget, and the widget tree built from the root.
use vstd::prelude::*;
use crate::theme::{RuleView, Theme};
use crate::tree::{Tree, NodeView, Widget, build_tree, built, node_lines, ordered, texts};
use crate::types::Rect;
use crate::window::Window;

verus! {

pub struct Application {
    rect: Rect,
    title: String,
    theme: Option<Theme>,
    root: Option<Widget>,
    tree: Tree,
    tree_root: Option<usize>,
}

/// The lines that show a tree whose root node is `root`.
pub open spec fn tree_text(nodes: Seq<NodeView>, root: Option<usize>) -> Seq<Seq<char>> {
    match root {
        Some(id) => seq!["Window (OrbTK)"@] + node_lines(nodes, id as int, Seq::empty()),
        None => seq!["Tree is empty."@],
    }
}

impl Application {
    pub closed spec fn area(&self) -> Rect {
        self.rect
    }

    pub closed spec fn caption(&self) -> Seq<char> {
        self.title@
    }

    pub closed spec fn style(&self) -> Option<Seq<RuleView>> {
        match self.theme {
            Some(t) => Some(t@),
            None => None,
        }
    }

    /// The nodes built from the root widget.
    pub closed spec fn nodes(&self) -> Seq<NodeView> {
        self.tree@
    }

    /// The node of the root widget, where it builds content.
    pub closed spec fn root_node(&self) -> Option<usize> {
        self.tree_root
    }

    /// The root widget, where one was given.
    pub closed spec fn root_widget(&self) -> Option<Widget> {
        self.root
    }

    pub closed spec fn wf(&self) -> bool {
        &&& ordered(self.tree@)
        &&& self.tree_root matches Some(id) ==> id < self.tree@.len()
    }

    /// An application with the window area `rect` and the title `title`, without
    /// theme or root widget.
    pub fn new(rect: Rect, title: &str) -> (a: Application)
        ensures
            a.wf(),
            a.area() == rect,
            a.caption() == title@,
            a.style() is None,
            a.root_widget() is None,
            a.nodes() == Seq::<NodeView>::empty(),
            a.root_node() is None,
    {
        Application {
            rect,
            title: title.to_owned(),
            theme: None,
            root: None,
            tree: Tree::new(),
            tree_root: None,
        }
    }

    /// The application with the theme `theme`.
    pub fn theme(self, theme: Theme) -> (a: Application)
        requires
            self.wf(),
        ensures
            a.wf(),
            a.style() == Some(theme@),
            a.area() == self.area(),
            a.caption() == self.caption(),
            a.root_widget() == self.root_widget(),
            a.nodes() == self.nodes(),
            a.root_node() == self.root_node(),
    {
        let mut a = self;
        a.theme = Some(theme);
        a
    }

    /// The application with the root widget `root`, and the widget tree built from it.
    pub fn root(self, root: Widget) -> (a: Application)
        requires
            self.wf(),
        ensures
            a.wf(),
            a.root_widget() == Some(root),
            a.nodes() == built(root, None, 0),
            a.root_node() == (if root.content is Zero {
                None
            } else {
                Some(0usize)
            }),
            a.style() == self.style(),
            a.area() == self.area(),
            a.caption() == self.caption(),
    {
        let mut a = self;
        let mut tree = Tree::new();
        let tree_root = build_tree(&mut tree, None, &root);
        proof {
            crate::tree::law_building_keeps_order(Seq::empty(), None, root);
            assert(tree@ =~= built(root, None, 0));
        }
        a.tree = tree;
        a.tree_root = tree_root;
        a.root = Some(root);
        a
    }

    /// The lines that show the widget tree: a title line and one line per node, each
    /// indented one level further than its parent.
    pub fn tree_lines(&self) -> (lines: Vec<String>)
        requires
            self.wf(),
        ensures
            texts(lines@) == tree_text(self.nodes(), self.root_node()),
    {
        let mut lines: Vec<String> = Vec::new();
        match self.tree_root {
            Some(id) => {
                lines.push("Window (OrbTK)".to_owned());
                let spacer = String::new();
                self.tree.node_lines(id, &spacer, &mut lines);
                assert(texts(lines@) =~= tree_text(self.nodes(), self.root_node()));
            },
            None => {
                lines.push("Tree is empty.".to_owned());
                assert(texts(lines@) =~= tree_text(self.nodes(), self.root_node()));
            },
        }
        lines
    }

    /// The window area.
    pub fn rect(&self) -> (r: Rect)
        ensures
            r == self.area(),
    {
        self.rect
    }

    /// The window title.
    pub fn title(&self) -> (t: &String)
        ensures
            t@ == self.caption(),
    {
        &self.title
    }

    /// The window area, the title, and the window state that opening the window
    /// starts with: the application's theme, or a theme without rules.
    pub fn build(self) -> (r: (Rect, String, Window))
        ensures
            r.0 == self.area(),
            r.1@ == self.caption(),
            r.2.runs(),
            r.2.needs_draw(),
            r.2.pending() == seq![crate::window::Event::Init],
            r.2.style() == match self.style() {
                Some(t) => t,
                None => Seq::<RuleView>::empty(),
            },
    {
        let theme = match self.theme {
            Some(theme) => theme,
            None => Theme::new(),
        };
        (self.rect, self.title, Window::new(theme))
    }
}

} // verus!
