//! The terminal as the core sees it: nothing but a size. Reading the
//! real size, raw mode, escape sequences and cursor commands live in the
//! surrounding application; the core only needs the viewport dimensions
//! to clamp movement and scrolling.

use vstd::prelude::*;

verus! {

/// The viewport size in character cells.
#[derive(PartialEq, Eq, Clone, Copy, Structural, Debug)]
pub struct Size {
    pub width: u16,
    pub height: u16,
}

/// The terminal's state held by the editor.
pub struct Terminal {
    size: Size,
}

impl Terminal {
    pub closed spec fn spec_width(&self) -> u16 {
        self.size.width
    }

    pub closed spec fn spec_height(&self) -> u16 {
        self.size.height
    }

    /// A terminal of the given full size; two rows are reserved for the
    /// status and message bars, so the usable height is that much less.
    pub fn new(width: u16, height: u16) -> (t: Self)
        ensures
            t.spec_width() == width,
            t.spec_height() == (if height >= 2 {
                (height - 2) as u16
            } else {
                0u16
            }),
    {
        Self {
            size: Size {
                width,
                height: if height >= 2 {
                    height - 2
                } else {
                    0
                },
            },
        }
    }

    /// The usable viewport size.
    pub fn size(&self) -> (s: &Size)
        ensures
            s.width == self.spec_width(),
            s.height == self.spec_height(),
    {
        &self.size
    }
}

} // verus!
