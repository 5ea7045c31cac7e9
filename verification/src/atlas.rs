//! The texture atlas and positions on it.

use vstd::prelude::*;

verus! {

/// Index of the top-left corner in a quadruple of corners.
pub const TOP_LEFT_INDEX: usize = 0;

/// Index of the top-right corner in a quadruple of corners.
pub const TOP_RIGHT_INDEX: usize = 1;

/// Index of the bottom-left corner in a quadruple of corners.
pub const BOTTOM_LEFT_INDEX: usize = 2;

/// Index of the bottom-right corner in a quadruple of corners.
pub const BOTTOM_RIGHT_INDEX: usize = 3;

/// Pixel width and height of the texture atlas that holds the glyph bitmaps.
///
/// Both are meant to be strictly positive; nothing here divides by them.
#[derive(Copy, Clone, Debug, PartialEq, Eq)]
pub struct AtlasDimensions {
    pub width: i32,
    pub height: i32,
}

/// A corner of a glyph's rectangle, in the order in which a quadruple lists the corners.
#[derive(Copy, Clone, Debug, PartialEq, Eq)]
pub enum Corner {
    TopLeft,
    TopRight,
    BottomLeft,
    BottomRight,
}

impl Corner {
    /// The place of this corner in a quadruple of corners.
    pub open spec fn position(self) -> int {
        match self {
            Corner::TopLeft => 0,
            Corner::TopRight => 1,
            Corner::BottomLeft => 2,
            Corner::BottomRight => 3,
        }
    }

    /// The place of this corner in a quadruple of corners.
    pub fn index(self) -> (i: usize)
        ensures
            i == self.position(),
            i < 4,
    {
        match self {
            Corner::TopLeft => TOP_LEFT_INDEX,
            Corner::TopRight => TOP_RIGHT_INDEX,
            Corner::BottomLeft => BOTTOM_LEFT_INDEX,
            Corner::BottomRight => BOTTOM_RIGHT_INDEX,
        }
    }
}

impl AtlasDimensions {
    /// Where `corner` of a glyph's pixel rectangle lies on the atlas, in whole pixels counted
    /// from the atlas's bottom-left corner.
    ///
    /// The rectangle is given as a descriptor gives it: `x` and `y` locate its top-left
    /// corner from the top-left of the bitmap, so the vertical axis is flipped here. Divided
    /// by the atlas width and height, the two numbers are the normalised coordinates
    /// `x / width` (plus `w / width` on the right) and `1 - y / height` (minus `h / height`
    /// at the bottom).
    pub open spec fn texel(self, x: i32, y: i32, w: i32, h: i32, corner: Corner) -> (int, int) {
        let across = match corner {
            Corner::TopLeft | Corner::BottomLeft => x as int,
            Corner::TopRight | Corner::BottomRight => x + w,
        };
        let up = match corner {
            Corner::TopLeft | Corner::TopRight => self.height - y,
            Corner::BottomLeft | Corner::BottomRight => self.height - y - h,
        };
        (across, up)
    }

    /// The four corners of a glyph's pixel rectangle as `texel` places them, in the order
    /// top-left, top-right, bottom-left, bottom-right.
    pub open spec fn texel_quad(self, x: i32, y: i32, w: i32, h: i32) -> [(i64, i64); 4] {
        [
            (
                self.texel(x, y, w, h, Corner::TopLeft).0 as i64,
                self.texel(x, y, w, h, Corner::TopLeft).1 as i64,
            ),
            (
                self.texel(x, y, w, h, Corner::TopRight).0 as i64,
                self.texel(x, y, w, h, Corner::TopRight).1 as i64,
            ),
            (
                self.texel(x, y, w, h, Corner::BottomLeft).0 as i64,
                self.texel(x, y, w, h, Corner::BottomLeft).1 as i64,
            ),
            (
                self.texel(x, y, w, h, Corner::BottomRight).0 as i64,
                self.texel(x, y, w, h, Corner::BottomRight).1 as i64,
            ),
        ]
    }
}

} // verus!
