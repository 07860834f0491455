use orbtk_core::theme::{Theme, ThemeRule, ThemeValue};
use orbtk_core::types::Brush;
use orbtk_core::window::{Event, OrbitalEvent, Window};

#[test]
fn new_window_runs_and_must_draw() {
    let mut w = Window::new(Theme::new());
    assert!(w.is_running());
    assert!(w.draw_if_needed());
    assert!(!w.draw_if_needed());
    assert_eq!(w.drain_events(), vec![]);
}

#[test]
fn close_stops_the_window() {
    let mut w = Window::new(Theme::new());
    w.close();
    assert!(!w.is_running());
    w.close();
    assert!(!w.is_running());
}

#[test]
fn needs_redraw_asks_for_one_draw() {
    let mut w = Window::new(Theme::new());
    w.draw_if_needed();
    w.needs_redraw();
    assert!(w.draw_if_needed());
    assert!(!w.draw_if_needed());
}

#[test]
fn drain_events_reports_resizes_in_order() {
    let mut w = Window::new(Theme::new());
    let batch = vec![
        OrbitalEvent::Resize { width: 10, height: 20 },
        OrbitalEvent::Other,
        OrbitalEvent::Resize { width: 30, height: 40 },
    ];
    w.drain_orbital_events(&batch);
    assert!(w.is_running());
    assert_eq!(w.drain_events(), vec![(10, 20), (30, 40)]);
    assert_eq!(w.drain_events(), vec![]);
}

#[test]
fn events_of_two_batches_keep_their_order() {
    let mut w = Window::new(Theme::new());
    w.drain_events();
    w.drain_orbital_events(&vec![OrbitalEvent::Resize { width: 1, height: 1 }]);
    w.drain_orbital_events(&vec![OrbitalEvent::Resize { width: 2, height: 2 }]);
    assert_eq!(w.drain_events(), vec![(1, 1), (2, 2)]);
}

#[test]
fn quit_stops_and_resize_asks_for_redraw() {
    let mut w = Window::new(Theme::new());
    w.draw_if_needed();
    let sizes = w.step(&vec![OrbitalEvent::Other, OrbitalEvent::Quit, OrbitalEvent::Resize { width: 5, height: 6 }]);
    assert_eq!(sizes, vec![(5, 6)]);
    assert!(!w.is_running());
    assert!(w.draw_if_needed());
}

#[test]
fn other_events_change_nothing() {
    let mut w = Window::new(Theme::new());
    w.draw_if_needed();
    let sizes = w.step(&vec![OrbitalEvent::Other]);
    assert_eq!(sizes, vec![]);
    assert!(w.is_running());
    assert!(!w.draw_if_needed());
}

#[test]
fn background_comes_from_theme() {
    let w = Window::new(Theme::new());
    assert_eq!(w.background(), None);
    assert_eq!(w.background_color(), 0xff000000);
    let mut w = Window::new(Theme::new());
    w.set_theme(Theme::new().with_rule(ThemeRule::new(
        Some("window"),
        vec![],
        "background",
        ThemeValue::Brush(Brush::SolidColor(0xff202020)),
    )));
    assert_eq!(w.background(), Some(Brush::SolidColor(0xff202020)));
    assert_eq!(w.background_color(), 0xff202020);
    assert_eq!(w.theme().len(), 1);
}

#[test]
fn event_values() {
    assert_ne!(Event::Init, Event::Resize { width: 0, height: 0 });
}
