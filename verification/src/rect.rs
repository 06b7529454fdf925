use vstd::prelude::*;

verus! {

/// A screen-coordinate rectangle: left/top/right/bottom edges.
#[derive(Clone, Copy, PartialEq, Eq, Structural, Debug)]
pub struct Rect {
    pub left: i32,
    pub top: i32,
    pub right: i32,
    pub bottom: i32,
}

impl Rect {
    /// A rectangle can be drawn only if it has positive width and height.
    pub open spec fn displayable(self) -> bool {
        self.right > self.left && self.bottom > self.top
    }

    /// Mathematical area, width times height.
    pub open spec fn area(self) -> int {
        (self.right - self.left) * (self.bottom - self.top)
    }

    /// Whether this rectangle may be drawn: positive width and height.
    pub fn is_displayable(&self) -> (r: bool)
        ensures
            r == self.displayable(),
    {
        self.right > self.left && self.bottom > self.top
    }

    /// Area as a machine integer; `i128` holds the product of two
    /// 33-bit signed differences without overflow.
    pub fn area_i128(&self) -> (a: i128)
        ensures
            a == self.area(),
    {
        let w: i128 = (self.right as i128) - (self.left as i128);
        let h: i128 = (self.bottom as i128) - (self.top as i128);
        proof {
            assert(-0x1_0000_0000 < w < 0x1_0000_0000);
            assert(-0x1_0000_0000 < h < 0x1_0000_0000);
            assert(w * h < 0x1_0000_0000_0000_0000 && -0x1_0000_0000_0000_0000 < w * h) by (nonlinear_arith)
                requires
                    -0x1_0000_0000 < w < 0x1_0000_0000,
                    -0x1_0000_0000 < h < 0x1_0000_0000,
            ;
        }
        w * h
    }
}

} // verus!
