//! Verified core of a widget toolkit: widget properties and their theming,
//! the widget tree, and the event and redraw bookkeeping of a window.

pub mod types;
pub mod selector;
pub mod property;
pub mod theme;
pub mod entity;
pub mod styling;
pub mod restyle;
pub mod states;
pub mod widget_container;
pub mod window;
pub mod tree;
pub mod application;
