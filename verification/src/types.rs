//! Plain value types that widgets carry as properties.
use vstd::prelude::*;

verus! {

/// A paint used to fill or stroke a widget: a solid colour in ARGB form.
#[derive(Clone, Copy, Debug, PartialEq, Eq, Structural)]
pub enum Brush {
    SolidColor(u32),
}

impl View for Brush {
    type V = Brush;

    open spec fn view(&self) -> Brush {
        *self
    }
}

impl Brush {
    /// The colour of the brush.
    pub fn color(&self) -> (c: u32)
        ensures
            self matches Brush::SolidColor(x) && c == x,
    {
        match self {
            Brush::SolidColor(c) => *c,
        }
    }
}

/// Widths of the four sides of a border or a padding.
#[derive(Clone, Copy, Debug, PartialEq, Eq, Structural)]
pub struct Thickness {
    pub left: u32,
    pub top: u32,
    pub right: u32,
    pub bottom: u32,
}

impl View for Thickness {
    type V = Thickness;

    open spec fn view(&self) -> Thickness {
        *self
    }
}

impl Thickness {
    /// A thickness with the same width on every side.
    pub fn from_value(value: u32) -> (t: Thickness)
        ensures
            t == (Thickness { left: value, top: value, right: value, bottom: value }),
    {
        Thickness { left: value, top: value, right: value, bottom: value }
    }

    /// Sets every side to `value`.
    pub fn set_thickness(&mut self, value: u32)
        ensures
            *final(self) == (Thickness { left: value, top: value, right: value, bottom: value }),
    {
        self.left = value;
        self.top = value;
        self.right = value;
        self.bottom = value;
    }

    pub fn set_left(&mut self, value: u32)
        ensures
            *final(self) == (Thickness { left: value, ..*old(self) }),
    {
        self.left = value;
    }

    pub fn set_top(&mut self, value: u32)
        ensures
            *final(self) == (Thickness { top: value, ..*old(self) }),
    {
        self.top = value;
    }

    pub fn set_right(&mut self, value: u32)
        ensures
            *final(self) == (Thickness { right: value, ..*old(self) }),
    {
        self.right = value;
    }

    pub fn set_bottom(&mut self, value: u32)
        ensures
            *final(self) == (Thickness { bottom: value, ..*old(self) }),
    {
        self.bottom = value;
    }
}

/// Size constraints of a widget.
#[derive(Clone, Copy, Debug, PartialEq, Eq, Structural)]
pub struct Constraint {
    pub width: u32,
    pub height: u32,
    pub min_width: u32,
    pub min_height: u32,
    pub max_width: u32,
    pub max_height: u32,
}

impl View for Constraint {
    type V = Constraint;

    open spec fn view(&self) -> Constraint {
        *self
    }
}

impl Constraint {
    pub fn set_width(&mut self, value: u32)
        ensures
            *final(self) == (Constraint { width: value, ..*old(self) }),
    {
        self.width = value;
    }

    pub fn set_height(&mut self, value: u32)
        ensures
            *final(self) == (Constraint { height: value, ..*old(self) }),
    {
        self.height = value;
    }

    pub fn set_min_width(&mut self, value: u32)
        ensures
            *final(self) == (Constraint { min_width: value, ..*old(self) }),
    {
        self.min_width = value;
    }

    pub fn set_min_height(&mut self, value: u32)
        ensures
            *final(self) == (Constraint { min_height: value, ..*old(self) }),
    {
        self.min_height = value;
    }

    pub fn set_max_width(&mut self, value: u32)
        ensures
            *final(self) == (Constraint { max_width: value, ..*old(self) }),
    {
        self.max_width = value;
    }

    pub fn set_max_height(&mut self, value: u32)
        ensures
            *final(self) == (Constraint { max_height: value, ..*old(self) }),
    {
        self.max_height = value;
    }
}

/// A text held as UTF-16 code units.
pub struct String16 {
    pub units: Vec<u16>,
}

impl View for String16 {
    type V = Seq<u16>;

    open spec fn view(&self) -> Seq<u16> {
        self.units@
    }
}

impl String16 {
    pub fn new(units: Vec<u16>) -> (s: String16)
        ensures
            s@ == units@,
    {
        String16 { units }
    }

    pub fn is_empty(&self) -> (b: bool)
        ensures
            b == (self@.len() == 0),
    {
        self.units.len() == 0
    }

    pub fn len(&self) -> (n: usize)
        ensures
            n == self@.len(),
    {
        self.units.len()
    }
}

/// A point in window coordinates.
#[derive(Clone, Copy, Debug, PartialEq, Eq, Structural)]
pub struct Point {
    pub x: i32,
    pub y: i32,
}

impl Point {
    pub fn new(x: i32, y: i32) -> (p: Point)
        ensures
            p == (Point { x, y }),
    {
        Point { x, y }
    }
}

/// A rectangle in window coordinates.
#[derive(Clone, Copy, Debug, PartialEq, Eq, Structural)]
pub struct Rect {
    pub x: i32,
    pub y: i32,
    pub width: u32,
    pub height: u32,
}

impl Rect {
    pub fn new(x: i32, y: i32, width: u32, height: u32) -> (r: Rect)
        ensures
            r == (Rect { x, y, width, height }),
    {
        Rect { x, y, width, height }
    }
}

} // verus!
