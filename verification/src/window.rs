//! The window that bounds the playing field.

use vstd::prelude::*;
use crate::constants::UNITS_PER_PIXEL;

verus! {

/// The size of the window, in micro-pixels. Neither side is negative; the
/// type admits no other value.
#[derive(Clone, Copy, Debug, PartialEq, Eq, Structural)]
pub struct Window {
    width: i64,
    height: i64,
}

impl View for Window {
    type V = (int, int);

    /// The width and the height.
    closed spec fn view(&self) -> (int, int) {
        (self.width as int, self.height as int)
    }
}

impl Window {
    /// The width, in micro-pixels.
    pub open spec fn spec_width(self) -> int {
        self@.0
    }

    /// The height, in micro-pixels.
    pub open spec fn spec_height(self) -> int {
        self@.1
    }

    /// Whether neither side is negative. This holds of every window that a
    /// program can hold.
    pub open spec fn is_valid(self) -> bool {
        0 <= self.spec_width() <= i64::MAX && 0 <= self.spec_height() <= i64::MAX
    }

    /// The invariant of the type: every window is valid.
    #[verifier::type_invariant]
    pub open spec fn inv(self) -> bool {
        self.is_valid()
    }

    /// A window of the given size in micro-pixels, or `None` if a side is
    /// negative.
    pub fn new(width: i64, height: i64) -> (r: Option<Window>)
        ensures
            r is Some <==> 0 <= width && 0 <= height,
            r matches Some(w) ==> w@ == (width as int, height as int) && w.is_valid(),
    {
        if width < 0 || height < 0 {
            None
        } else {
            Some(Window { width, height })
        }
    }

    /// A window of the given size in whole pixels.
    pub fn from_pixels(width: u32, height: u32) -> (w: Window)
        ensures
            w@ == (width * UNITS_PER_PIXEL, height * UNITS_PER_PIXEL),
            w.is_valid(),
    {
        Window { width: (width as i64) * UNITS_PER_PIXEL, height: (height as i64) * UNITS_PER_PIXEL }
    }

    /// The width, in micro-pixels.
    pub fn width(&self) -> (r: i64)
        ensures
            r == self.spec_width(),
            0 <= r,
    {
        proof {
            use_type_invariant(self);
        }
        self.width
    }

    /// The height, in micro-pixels.
    pub fn height(&self) -> (r: i64)
        ensures
            r == self.spec_height(),
            0 <= r,
    {
        proof {
            use_type_invariant(self);
        }
        self.height
    }
}

} // verus!
