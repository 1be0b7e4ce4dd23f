//! Rectangles: construction and containment.

use vstd::prelude::*;

verus! {

/// An axis-aligned rectangle with positive dimensions.
#[derive(Debug)]
pub struct Rectangle {
    /// The width, greater than zero.
    pub width: u32,
    /// The height, greater than zero.
    pub height: u32,
}

impl Rectangle {
    /// Creates a rectangle; width and height must be greater than zero.
    pub fn new(width: u32, height: u32) -> (r: Rectangle)
        requires
            width > 0,
            height > 0,
        ensures
            r.width == width,
            r.height == height,
    {
        Rectangle { width, height }
    }

    /// Whether `other` fits strictly inside this rectangle.
    pub fn can_hold(&self, other: &Rectangle) -> (r: bool)
        ensures
            r == (self.width > other.width && self.height > other.height),
    {
        self.width > other.width && self.height > other.height
    }

    /// The area of the rectangle.
    pub fn area(&self) -> (a: u32)
        requires
            self.width * self.height <= u32::MAX,
        ensures
            a == self.width * self.height,
    {
        self.width * self.height
    }

    /// Widens the rectangle by `increment`.
    pub fn increase_width(&mut self, increment: u32)
        requires
            old(self).width + increment <= u32::MAX,
        ensures
            final(self).width == old(self).width + increment,
            final(self).height == old(self).height,
    {
        self.width = self.width + increment;
    }
}

} // verus!
