//! Integer pixel geometry: translations, positions, extents and rectangles.

use vstd::prelude::*;

verus! {

/// A translation in whole pixels.
#[derive(Clone, Copy, PartialEq, Eq, Debug, Structural)]
pub struct Vec2 {
    pub x: i32,
    pub y: i32,
}

/// A position in whole pixels.
#[derive(Clone, Copy, PartialEq, Eq, Debug, Structural)]
pub struct Point {
    pub x: i32,
    pub y: i32,
}

/// An extent in whole pixels.
#[derive(Clone, Copy, PartialEq, Eq, Debug, Structural)]
pub struct Size {
    pub width: u64,
    pub height: u64,
}

/// An axis-aligned rectangle: its top-left corner and its extent.
#[derive(Clone, Copy, PartialEq, Eq, Debug, Structural)]
pub struct Rect {
    pub x: i32,
    pub y: i32,
    pub width: u32,
    pub height: u32,
}

/// A half-open window `[x0, x1) x [y0, y1)` in the plane of integers.
///
/// A window whose `x1 <= x0` or `y1 <= y0` holds no position.
#[derive(Clone, Copy, PartialEq, Eq, Debug, Structural)]
pub struct Window {
    pub x0: i64,
    pub y0: i64,
    pub x1: i64,
    pub y1: i64,
}

impl Vec2 {
    /// The translation that moves nothing.
    pub open spec fn spec_zero() -> Vec2 {
        Vec2 { x: 0, y: 0 }
    }

    #[verifier::when_used_as_spec(spec_zero)]
    pub fn zero() -> (v: Vec2)
        ensures
            v == Vec2::spec_zero(),
    {
        Vec2 { x: 0, y: 0 }
    }

    /// Whether `self + delta` can be held, component by component.
    pub open spec fn spec_can_add(self, delta: Vec2) -> bool {
        &&& i32::MIN <= self.x + delta.x <= i32::MAX
        &&& i32::MIN <= self.y + delta.y <= i32::MAX
    }

    /// The component-wise sum.
    pub open spec fn spec_plus(self, delta: Vec2) -> Vec2 {
        Vec2 { x: (self.x + delta.x) as i32, y: (self.y + delta.y) as i32 }
    }

    #[verifier::when_used_as_spec(spec_can_add)]
    pub fn can_add(self, delta: Vec2) -> (b: bool)
        ensures
            b == self.spec_can_add(delta),
    {
        let sx: i64 = self.x as i64 + delta.x as i64;
        let sy: i64 = self.y as i64 + delta.y as i64;
        -2147483648 <= sx && sx <= 2147483647 && -2147483648 <= sy && sy <= 2147483647
    }

    #[verifier::when_used_as_spec(spec_plus)]
    pub fn plus(self, delta: Vec2) -> (v: Vec2)
        requires
            self.spec_can_add(delta),
        ensures
            v == self.spec_plus(delta),
    {
        Vec2 { x: self.x + delta.x, y: self.y + delta.y }
    }

    /// The position that this translation takes the origin to.
    pub open spec fn spec_to_point(self) -> Point {
        Point { x: self.x, y: self.y }
    }

    #[verifier::when_used_as_spec(spec_to_point)]
    pub fn to_point(self) -> (p: Point)
        ensures
            p == self.spec_to_point(),
    {
        Point { x: self.x, y: self.y }
    }
}

impl Window {
    /// Whether the position `(x, y)` lies in the window.
    pub open spec fn contains(self, x: int, y: int) -> bool {
        self.x0 <= x < self.x1 && self.y0 <= y < self.y1
    }

    /// Whether the window holds no position.
    pub open spec fn spec_is_empty(self) -> bool {
        self.x1 <= self.x0 || self.y1 <= self.y0
    }

    #[verifier::when_used_as_spec(spec_is_empty)]
    pub fn is_empty(self) -> (b: bool)
        ensures
            b == self.spec_is_empty(),
    {
        self.x1 <= self.x0 || self.y1 <= self.y0
    }

    /// The positions that lie in both windows.
    pub open spec fn spec_intersect(self, other: Window) -> Window {
        Window {
            x0: if self.x0 >= other.x0 { self.x0 } else { other.x0 },
            y0: if self.y0 >= other.y0 { self.y0 } else { other.y0 },
            x1: if self.x1 <= other.x1 { self.x1 } else { other.x1 },
            y1: if self.y1 <= other.y1 { self.y1 } else { other.y1 },
        }
    }

    #[verifier::when_used_as_spec(spec_intersect)]
    pub fn intersect(self, other: Window) -> (w: Window)
        ensures
            w == self.spec_intersect(other),
            forall|x: int, y: int| #[trigger]
                w.contains(x, y) <==> self.contains(x, y) && other.contains(x, y),
    {
        Window {
            x0: if self.x0 >= other.x0 { self.x0 } else { other.x0 },
            y0: if self.y0 >= other.y0 { self.y0 } else { other.y0 },
            x1: if self.x1 <= other.x1 { self.x1 } else { other.x1 },
            y1: if self.y1 <= other.y1 { self.y1 } else { other.y1 },
        }
    }
}

impl Rect {
    /// The window of positions that the rectangle covers.
    pub open spec fn spec_window(self) -> Window {
        Window {
            x0: self.x as i64,
            y0: self.y as i64,
            x1: (self.x + self.width) as i64,
            y1: (self.y + self.height) as i64,
        }
    }

    #[verifier::when_used_as_spec(spec_window)]
    pub fn window(self) -> (w: Window)
        ensures
            w == self.spec_window(),
    {
        Window {
            x0: self.x as i64,
            y0: self.y as i64,
            x1: self.x as i64 + self.width as i64,
            y1: self.y as i64 + self.height as i64,
        }
    }
}

} // verus!
