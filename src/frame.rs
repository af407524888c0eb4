//! A captured screen frame: row-major RGB pixels, three bytes each.

use crate::scene::{Point, Rect, Rgb};
use vstd::prelude::*;

verus! {

pub struct Frame {
    pub width: u32,
    pub height: u32,
    pub rgb: Vec<u8>,
}

impl Frame {
    /// Every pixel has its three bytes.
    pub open spec fn wf(&self) -> bool {
        self.rgb@.len() == 3 * (self.width as int) * (self.height as int)
    }

    /// Byte offset of pixel `(x, y)`.
    pub open spec fn offset(&self, x: int, y: int) -> int {
        3 * (y * (self.width as int) + x)
    }

    /// The color at `p`, or `None` outside the frame.
    pub open spec fn pixel_spec(&self, p: Point) -> Option<Rgb> {
        if (p.x as int) < (self.width as int) && (p.y as int) < (self.height as int) {
            let o = self.offset(p.x as int, p.y as int);
            Some(Rgb { r: self.rgb@[o], g: self.rgb@[o + 1], b: self.rgb@[o + 2] })
        } else {
            None
        }
    }

    /// A frame of `width` by `height` pixels over `rgb`; `None` when the
    /// byte count does not match.
    pub fn from_rgb(width: u32, height: u32, rgb: Vec<u8>) -> (r: Option<Frame>)
        ensures
            r is Some <==> rgb@.len() == 3 * (width as int) * (height as int),
            r matches Some(f) ==> f.width == width && f.height == height && f.rgb@ == rgb@
                && f.wf(),
    {
        let len = rgb.len();
        let w = width as u64;
        let h = height as u64;
        assert(w * h <= 0xFFFF_FFFF * 0xFFFF_FFFFu64) by (nonlinear_arith)
            requires
                w <= 0xFFFF_FFFF,
                h <= 0xFFFF_FFFF,
        ;
        let n = w * h;
        assert(3 * (width as int) * (height as int) == 3 * (n as int)) by (nonlinear_arith)
            requires
                n == w * h,
                w == width,
                h == height,
        ;
        if n > (usize::MAX / 3) as u64 {
            return None;
        }
        if len as u64 != 3 * n {
            return None;
        }
        Some(Frame { width, height, rgb })
    }

    /// The color at `p`, or `None` outside the frame.
    pub fn pixel(&self, p: Point) -> (r: Option<Rgb>)
        requires
            self.wf(),
        ensures
            r == self.pixel_spec(p),
    {
        if (p.x as u32) < self.width && (p.y as u32) < self.height {
            let x = p.x as u64;
            let y = p.y as u64;
            let w = self.width as u64;
            let h = self.height as u64;
            assert(y * w + x < w * h) by (nonlinear_arith)
                requires
                    x < w,
                    y < h,
            ;
            let len = self.rgb.len();
            assert(3 * (y * w + x) + 2 < 3 * (w * h));
            assert(3 * (w * h) == 3 * (self.width as int) * (self.height as int)) by (nonlinear_arith)
                requires
                    w == self.width,
                    h == self.height,
            ;
            let o = (3 * (y * w + x)) as usize;
            Some(Rgb { r: self.rgb[o], g: self.rgb[o + 1], b: self.rgb[o + 2] })
        } else {
            None
        }
    }
}

impl Frame {
    /// The region of this frame inside `r`, corners included; `None` unless
    /// the rectangle is ordered and lies inside the frame.
    pub fn crop(&self, r: Rect) -> (out: Option<Frame>)
        requires
            self.wf(),
        ensures
            out is Some <==> (r.x1 <= r.x2 && r.y1 <= r.y2 && (r.x2 as int) < (self.width as int)
                && (r.y2 as int) < (self.height as int)),
            out matches Some(f) ==> {
                &&& f.wf()
                &&& f.width == r.x2 - r.x1 + 1
                &&& f.height == r.y2 - r.y1 + 1
                &&& forall|i: int, j: int, c: int|
                    0 <= i < f.width && 0 <= j < f.height && 0 <= c < 3 ==> f.rgb@[f.offset(i, j) + c]
                        == #[trigger] self.rgb@[self.offset(r.x1 + i, r.y1 + j) + c]
            },
    {
        if !(r.x1 <= r.x2 && r.y1 <= r.y2 && (r.x2 as u32) < self.width && (r.y2 as u32)
            < self.height) {
            return None;
        }
        let w = (r.x2 - r.x1) as u64 + 1;
        let h = (r.y2 - r.y1) as u64 + 1;
        let fw = self.width as u64;
        let len = self.rgb.len();
        let mut out: Vec<u8> = Vec::new();
        let mut j: u64 = 0;
        while j < h
            invariant
                self.wf(),
                len == self.rgb@.len(),
                fw == self.width,
                w == r.x2 - r.x1 + 1,
                h == r.y2 - r.y1 + 1,
                (r.x2 as int) < (self.width as int),
                (r.y2 as int) < (self.height as int),
                j <= h,
                out@.len() == 3 * w * j,
                forall|i: int, jj: int, c: int|
                    0 <= i < w && 0 <= jj < j && 0 <= c < 3 ==> out@[3 * (jj * w + i) + c]
                        == #[trigger] self.rgb@[self.offset(r.x1 + i, r.y1 + jj) + c],
            decreases h - j,
        {
            let mut i: u64 = 0;
            while i < w
                invariant
                    self.wf(),
                    len == self.rgb@.len(),
                    fw == self.width,
                    w == r.x2 - r.x1 + 1,
                    h == r.y2 - r.y1 + 1,
                    (r.x2 as int) < (self.width as int),
                    (r.y2 as int) < (self.height as int),
                    j < h,
                    i <= w,
                    out@.len() == 3 * w * j + 3 * i,
                    forall|ii: int, jj: int, c: int|
                        0 <= ii < w && 0 <= jj < j && 0 <= c < 3 ==> out@[3 * (jj * w + ii) + c]
                            == #[trigger] self.rgb@[self.offset(r.x1 + ii, r.y1 + jj) + c],
                    forall|ii: int, c: int|
                        0 <= ii < i && 0 <= c < 3 ==> out@[3 * (j * w + ii) + c]
                            == #[trigger] self.rgb@[self.offset(r.x1 + ii, r.y1 + j) + c],
                decreases w - i,
            {
                let x = r.x1 as u64 + i;
                let y = r.y1 as u64 + j;
                assert(y * fw + x < fw * (self.height as int)) by (nonlinear_arith)
                    requires
                        x < fw,
                        y < self.height,
                ;
                assert(3 * (fw * (self.height as int)) == 3 * (self.width as int) * (
                self.height as int)) by (nonlinear_arith)
                    requires
                        fw == self.width,
                ;
                let o = (3 * (y * fw + x)) as usize;
                assert(o as int == self.offset(r.x1 + i, r.y1 + j));
                assert(3 * (j * w + i) == 3 * w * j + 3 * i) by (nonlinear_arith);
                let ghost before = out@;
                out.push(self.rgb[o]);
                out.push(self.rgb[o + 1]);
                out.push(self.rgb[o + 2]);
                assert forall|ii: int, jj: int, c: int|
                    0 <= ii < w && 0 <= jj < j && 0 <= c < 3 implies out@[3 * (jj * w + ii) + c]
                    == #[trigger] self.rgb@[self.offset(r.x1 + ii, r.y1 + jj) + c] by {
                    assert(3 * (jj * w + ii) + c < 3 * w * j) by (nonlinear_arith)
                        requires
                            0 <= ii < w,
                            0 <= jj < j,
                            0 <= c < 3,
                    ;
                    assert(out@[3 * (jj * w + ii) + c] == before[3 * (jj * w + ii) + c]);
                }
                assert forall|ii: int, c: int|
                    0 <= ii < i + 1 && 0 <= c < 3 implies out@[3 * (j * w + ii) + c]
                    == #[trigger] self.rgb@[self.offset(r.x1 + ii, r.y1 + j) + c] by {
                    assert(3 * (j * w + ii) == 3 * w * j + 3 * ii) by (nonlinear_arith);
                    if ii < i {
                        assert(out@[3 * (j * w + ii) + c] == before[3 * (j * w + ii) + c]);
                    }
                }
                i = i + 1;
            }
            assert(3 * w * j + 3 * w == 3 * w * (j + 1)) by (nonlinear_arith);
            j = j + 1;
        }
        assert(3 * w * h == 3 * (w as int) * (h as int)) by (nonlinear_arith);
        let f = Frame { width: w as u32, height: h as u32, rgb: out };
        assert forall|i: int, jj: int, c: int|
            0 <= i < f.width && 0 <= jj < f.height && 0 <= c < 3 implies f.rgb@[f.offset(i, jj) + c]
            == #[trigger] self.rgb@[self.offset(r.x1 + i, r.y1 + jj) + c] by {
            assert(f.offset(i, jj) == 3 * (jj * w + i));
        }
        Some(f)
    }
}

} // verus!
