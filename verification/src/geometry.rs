//! Screen rectangles.

use vstd::prelude::*;

verus! {

/// A point in global screen coordinates.
#[derive(Clone, Copy, Debug, PartialEq, Eq, Structural)]
pub struct Point {
    pub x: i32,
    pub y: i32,
}

/// An axis-aligned rectangle, by its two extreme corners.
#[derive(Clone, Copy, Debug, PartialEq, Eq, Structural)]
pub struct Rect {
    pub min: Point,
    pub max: Point,
}

/// A rectangle by its upper left corner and its size, as clients see it.
#[derive(Clone, Copy, Debug, PartialEq, Eq, Structural)]
pub struct Frame {
    pub x: i32,
    pub y: i32,
    pub width: i32,
    pub height: i32,
}

/// The smaller of two coordinates.
pub open spec fn lesser(a: i32, b: i32) -> i32 {
    if a < b {
        a
    } else {
        b
    }
}

/// The larger of two coordinates.
pub open spec fn greater(a: i32, b: i32) -> i32 {
    if a > b {
        a
    } else {
        b
    }
}

impl Rect {
    /// How far the rectangle reaches horizontally.
    pub open spec fn across(self) -> int {
        self.max.x - self.min.x
    }

    /// How far the rectangle reaches vertically.
    pub open spec fn down(self) -> int {
        self.max.y - self.min.y
    }

    /// Whether both sides can be told in 32 bits.
    pub open spec fn sides_fit(self) -> bool {
        &&& i32::MIN <= self.across() <= i32::MAX
        &&& i32::MIN <= self.down() <= i32::MAX
    }

    /// The largest rectangle enclosed in both. Where they miss each other on an
    /// axis, the result has no extent on that axis.
    pub open spec fn common(self, other: Rect) -> Rect {
        let max = Point { x: lesser(self.max.x, other.max.x), y: lesser(self.max.y, other.max.y) };
        let min = Point {
            x: lesser(greater(self.min.x, other.min.x), max.x),
            y: lesser(greater(self.min.y, other.min.y), max.y),
        };
        Rect { min, max }
    }

    /// The rectangle as clients see it.
    pub open spec fn as_frame(self) -> Frame {
        Frame {
            x: self.min.x,
            y: self.min.y,
            width: self.across() as i32,
            height: self.down() as i32,
        }
    }

    /// `IRect::intersect`: the minimum corner is the larger of both minima, the
    /// maximum corner the smaller of both maxima, axis by axis, and a minimum
    /// that came out beyond the maximum is pulled back onto it.
    #[verifier::external_body]
    pub(crate) fn intersect(&self, other: &Rect) -> (overlap: Rect)
        ensures
            overlap == self.common(*other),
    {
        let own = bevy::math::IRect {
            min: bevy::math::IVec2::new(self.min.x, self.min.y),
            max: bevy::math::IVec2::new(self.max.x, self.max.y),
        };
        let both = own.intersect(bevy::math::IRect {
            min: bevy::math::IVec2::new(other.min.x, other.min.y),
            max: bevy::math::IVec2::new(other.max.x, other.max.y),
        });
        Rect {
            min: Point { x: both.min.x, y: both.min.y },
            max: Point { x: both.max.x, y: both.max.y },
        }
    }

    /// `IRect::width`: the maximum x less the minimum x. The subtraction
    /// overflows where the difference does not fit.
    #[verifier::external_body]
    pub(crate) fn width(&self) -> (width: i32)
        requires
            i32::MIN <= self.across() <= i32::MAX,
        ensures
            width == self.across(),
    {
        let rect = bevy::math::IRect {
            min: bevy::math::IVec2::new(self.min.x, self.min.y),
            max: bevy::math::IVec2::new(self.max.x, self.max.y),
        };
        rect.width()
    }

    /// `IRect::height`: the maximum y less the minimum y. The subtraction
    /// overflows where the difference does not fit.
    #[verifier::external_body]
    pub(crate) fn height(&self) -> (height: i32)
        requires
            i32::MIN <= self.down() <= i32::MAX,
        ensures
            height == self.down(),
    {
        let rect = bevy::math::IRect {
            min: bevy::math::IVec2::new(self.min.x, self.min.y),
            max: bevy::math::IVec2::new(self.max.x, self.max.y),
        };
        rect.height()
    }

    /// Whether both sides can be told in 32 bits.
    pub fn check_sides(&self) -> (fit: bool)
        ensures
            fit == self.sides_fit(),
    {
        let across: i64 = self.max.x as i64 - self.min.x as i64;
        let down: i64 = self.max.y as i64 - self.min.y as i64;
        -0x8000_0000 <= across && across <= 0x7fff_ffff && -0x8000_0000 <= down && down
            <= 0x7fff_ffff
    }

    /// The rectangle as clients see it: its upper left corner and its size.
    pub fn to_frame(&self) -> (frame: Frame)
        requires
            self.sides_fit(),
        ensures
            frame == self.as_frame(),
    {
        Frame { x: self.min.x, y: self.min.y, width: self.width(), height: self.height() }
    }
}

} // verus!
