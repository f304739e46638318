//! Rectangles in terminal cells and in image pixels.
use vstd::prelude::*;

verus! {

/// A rectangle of terminal cells: its top-left corner and its size.
#[derive(Clone, Copy, Debug, PartialEq, Eq, Structural)]
pub struct Rect {
    pub x: u16,
    pub y: u16,
    pub width: u16,
    pub height: u16,
}

/// A rectangle of image pixels.
#[derive(Clone, Copy, Debug, PartialEq, Eq, Structural)]
pub struct ImgRect {
    pub x_px: u32,
    pub y_px: u32,
    pub width_px: u32,
    pub height_px: u32,
}

/// The width or height that fits from `start` within the `u16` range.
pub open spec fn clamp_extent(start: u16, extent: u16) -> u16 {
    if start + extent > u16::MAX {
        (u16::MAX - start) as u16
    } else {
        extent
    }
}

impl Rect {
    /// A rectangle at `(x, y)`; its size is cut so that it ends within the
    /// `u16` coordinate range.
    pub fn new(x: u16, y: u16, width: u16, height: u16) -> (r: Rect)
        ensures
            r == (Rect { x, y, width: clamp_extent(x, width), height: clamp_extent(y, height) }),
    {
        let width = x.saturating_add(width) - x;
        let height = y.saturating_add(height) - y;
        Rect { x, y, width, height }
    }

    /// The number of cells the rectangle covers.
    pub fn area(&self) -> (a: u32)
        ensures
            a == self.width * self.height,
    {
        assert(self.width * self.height <= u16::MAX * u16::MAX) by (nonlinear_arith)
            requires
                self.width <= u16::MAX,
                self.height <= u16::MAX,
        ;
        (self.width as u32) * (self.height as u32)
    }
}

impl Default for Rect {
    fn default() -> (r: Rect)
        ensures
            r == (Rect { x: 0, y: 0, width: 0, height: 0 }),
    {
        Rect { x: 0, y: 0, width: 0, height: 0 }
    }
}

impl Default for ImgRect {
    fn default() -> (r: ImgRect)
        ensures
            r == (ImgRect { x_px: 0, y_px: 0, width_px: 0, height_px: 0 }),
    {
        ImgRect { x_px: 0, y_px: 0, width_px: 0, height_px: 0 }
    }
}

} // verus!
