//! Integer rectangles, the dirty region of a frame, and dirty-region
//! statistics.

use vstd::prelude::*;

verus! {

/// Integer rectangle for scissor operations.
#[derive(Debug, Clone, Copy, PartialEq, Eq, Structural)]
pub struct IntRect {
    pub x: i32,
    pub y: i32,
    pub width: i32,
    pub height: i32,
}

impl IntRect {
    pub fn new(x: i32, y: i32, width: i32, height: i32) -> (r: Self)
        ensures
            r == (IntRect { x, y, width, height }),
    {
        IntRect { x, y, width, height }
    }

    /// The rectangle covers no pixel.
    pub fn is_empty(&self) -> (b: bool)
        ensures
            b == (self.width <= 0 || self.height <= 0),
    {
        self.width <= 0 || self.height <= 0
    }

    /// `width * height`; the product must fit an `i32`.
    pub fn area(&self) -> (a: i32)
        requires
            i32::MIN <= self.width * self.height <= i32::MAX,
        ensures
            a == self.width * self.height,
    {
        self.width * self.height
    }
}

/// Axis-aligned bounding box of the dirty area in pixel coordinates.
#[derive(Debug, Clone, Copy, PartialEq, Eq, Structural)]
pub struct DirtyRegion {
    pub x: i32,
    pub y: i32,
    pub width: i32,
    pub height: i32,
}

impl DirtyRegion {
    /// `(x, y, width, height)`.
    pub fn as_rect(&self) -> (r: (i32, i32, i32, i32))
        ensures
            r == (self.x, self.y, self.width, self.height),
    {
        (self.x, self.y, self.width, self.height)
    }

    /// Whether scissoring to this region pays off on a `canvas_w` x
    /// `canvas_h` canvas: the canvas has a positive area and the region
    /// covers less than half of it (integer halving, as computed in 64
    /// bits).
    pub fn should_scissor(&self, canvas_w: i32, canvas_h: i32) -> (b: bool)
        ensures
            b == (canvas_w * canvas_h > 0 && self.width * self.height < (canvas_w * canvas_h)
                / 2),
    {
        proof {
            assert(-0x8000_0000 * 0x8000_0000 <= (self.width as int) * (self.height as int) <= 0x8000_0000 * 0x8000_0000) by (nonlinear_arith)
                requires
                    -0x8000_0000 <= self.width <= 0x7fff_ffff,
                    -0x8000_0000 <= self.height <= 0x7fff_ffff,
            {
            }
            assert(-0x8000_0000 * 0x8000_0000 <= (canvas_w as int) * (canvas_h as int) <= 0x8000_0000 * 0x8000_0000) by (nonlinear_arith)
                requires
                    -0x8000_0000 <= canvas_w <= 0x7fff_ffff,
                    -0x8000_0000 <= canvas_h <= 0x7fff_ffff,
            {
            }
        }
        let dirty_area = (self.width as i64) * (self.height as i64);
        let canvas_area = (canvas_w as i64) * (canvas_h as i64);
        canvas_area > 0 && dirty_area < canvas_area / 2
    }
}

/// Statistics for dirty-region optimization.
#[derive(Debug, Clone, Copy, Default, PartialEq, Eq, Structural)]
pub struct DirtyStats {
    /// Frames with partial updates.
    pub partial_updates: u64,
    /// Frames with full redraws.
    pub full_redraws: u64,
    /// Total dirty area (pixels).
    pub total_dirty_pixels: u64,
    /// Total screen area (pixels).
    pub total_screen_pixels: u64,
}

impl DirtyStats {
    /// Reset every counter to zero.
    pub fn reset(&mut self)
        ensures
            *final(self) == (DirtyStats {
                partial_updates: 0,
                full_redraws: 0,
                total_dirty_pixels: 0,
                total_screen_pixels: 0,
            }),
    {
        *self = DirtyStats {
            partial_updates: 0,
            full_redraws: 0,
            total_dirty_pixels: 0,
            total_screen_pixels: 0,
        };
    }
}

} // verus!
