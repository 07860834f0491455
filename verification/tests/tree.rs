use orbtk_core::application::Application;
use orbtk_core::tree::{build_tree, Content, Tree, Widget};
use orbtk_core::types::Rect;
use orbtk_core::theme::{Theme, ThemeRule, ThemeValue};

fn leaf(element: &str) -> Widget {
    Widget { element: element.to_string(), content: Content::Zero }
}

fn sample() -> Widget {
    Widget {
        element: "grid".to_string(),
        content: Content::Multi(vec![
            Widget { element: "button".to_string(), content: Content::Single(Box::new(leaf("text"))) },
            leaf("image"),
        ]),
    }
}

#[test]
fn build_tree_numbers_nodes_in_preorder() {
    let mut tree = Tree::new();
    let root = build_tree(&mut tree, None, &sample());
    assert_eq!(root, Some(0));
    assert_eq!(tree.len(), 4);
    assert_eq!(tree.node(0).children, vec![1, 3]);
    assert_eq!(tree.node(1).children, vec![2]);
    assert_eq!(tree.node(1).parent, Some(0));
    assert_eq!(tree.node(2).element, "text");
    assert_eq!(tree.node(2).parent, Some(1));
    assert_eq!(tree.node(3).element, "image");
    assert_eq!(tree.node(3).parent, Some(0));
    assert_eq!(tree.node(0).parent, None);
}

#[test]
fn build_tree_of_widget_without_content_gives_none_but_adds_node() {
    let mut tree = Tree::new();
    let root = build_tree(&mut tree, None, &leaf("text"));
    assert_eq!(root, None);
    assert_eq!(tree.len(), 1);
}

#[test]
fn build_tree_appends_to_root() {
    let mut tree = Tree::new();
    build_tree(&mut tree, None, &sample());
    let added = build_tree(&mut tree, Some(3), &Widget {
        element: "stack".to_string(),
        content: Content::Single(Box::new(leaf("text"))),
    });
    assert_eq!(added, Some(4));
    assert_eq!(tree.node(3).children, vec![4]);
    assert_eq!(tree.node(4).children, vec![5]);
    assert_eq!(tree.len(), 6);
}

#[test]
fn tree_lines_indent_each_level() {
    let app = Application::new(Rect::new(0, 0, 100, 50), "demo").root(sample());
    assert_eq!(
        app.tree_lines(),
        vec![
            "Window (OrbTK)".to_string(),
            "|- grid".to_string(),
            "|    |- button".to_string(),
            "|    |    |- text".to_string(),
            "|    |- image".to_string(),
        ]
    );
}

#[test]
fn tree_lines_of_empty_tree() {
    let app = Application::new(Rect::new(0, 0, 100, 50), "demo");
    assert_eq!(app.tree_lines(), vec!["Tree is empty.".to_string()]);
    let app = app.root(leaf("text"));
    assert_eq!(app.tree_lines(), vec!["Tree is empty.".to_string()]);
}

#[test]
fn build_gives_window_with_theme() {
    let theme = Theme::new().with_rule(ThemeRule::new(Some("window"), vec![], "background", ThemeValue::UInt(3)));
    let app = Application::new(Rect::new(1, 2, 3, 4), "title").theme(theme);
    assert_eq!(app.rect(), Rect::new(1, 2, 3, 4));
    assert_eq!(app.title().as_str(), "title");
    let (rect, title, mut window) = app.build();
    assert_eq!(rect, Rect { x: 1, y: 2, width: 3, height: 4 });
    assert_eq!(title, "title");
    assert_eq!(window.theme().len(), 1);
    assert!(window.is_running());
    assert!(window.draw_if_needed());
    assert_eq!(window.drain_events(), vec![]);
}

#[test]
fn build_without_theme_uses_empty_theme() {
    let (_, _, window) = Application::new(Rect::new(0, 0, 1, 1), "t").build();
    assert_eq!(window.theme().len(), 0);
}

#[test]
fn building_keeps_children_after_parents() {
    let mut tree = Tree::new();
    build_tree(&mut tree, None, &sample());
    build_tree(&mut tree, Some(1), &sample());
    build_tree(&mut tree, Some(0), &leaf("label"));
    for id in 0..tree.len() {
        for &child in tree.node(id).children.iter() {
            assert!(id < child && child < tree.len());
            assert_eq!(tree.node(child).parent, Some(id));
        }
    }
    assert_eq!(tree.node(0).children, vec![1, 3, 8]);
    assert_eq!(tree.node(1).children, vec![2, 4]);
}
