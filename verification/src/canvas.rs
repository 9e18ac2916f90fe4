//! The fixed 400x300 RGB canvas: a plain byte buffer with the drawing
//! primitives the layout needs, and the per-pixel plane extraction of the
//! e-paper encoder.

use vstd::prelude::*;

verus! {

/// Canvas width in pixels.
pub const CANVAS_W: u32 = 400;

/// Canvas height in pixels.
pub const CANVAS_H: u32 = 300;

/// The canvas: row-major RGB bytes, three per pixel.
#[derive(Debug)]
pub struct Canvas {
    pub data: Vec<u8>,
}

/// Byte index of channel `ch` of pixel `(x, y)`.
pub open spec fn pix_idx(x: int, y: int) -> int {
    3 * (400 * y + x)
}

/// Channel `ch` of an RGB triple.
pub open spec fn chan(col: (u8, u8, u8), ch: int) -> u8 {
    if ch == 0 {
        col.0
    } else if ch == 1 {
        col.1
    } else {
        col.2
    }
}

/// The canvas after one pixel is written.
pub open spec fn spec_set_pixel(c: Seq<u8>, x: int, y: int, col: (u8, u8, u8)) -> Seq<u8> {
    c.update(pix_idx(x, y), col.0).update(pix_idx(x, y) + 1, col.1).update(
        pix_idx(x, y) + 2,
        col.2,
    )
}

/// The canvas after the rectangle from `(x0, y0)` of size `w` by `h` is
/// filled with `col`; parts outside the canvas are clipped away.
pub open spec fn spec_fill_rect(
    c: Seq<u8>,
    x0: int,
    y0: int,
    w: int,
    h: int,
    col: (u8, u8, u8),
) -> Seq<u8> {
    Seq::new(
        c.len(),
        |i: int|
            {
                let p = i / 3;
                let px = p % 400;
                let py = p / 400;
                if x0 <= px < x0 + w && y0 <= py < y0 + h {
                    chan(col, i % 3)
                } else {
                    c[i]
                }
            },
    )
}

/// The canvas after a small cross is stamped at `(x, y)`: the pixel itself
/// and its four direct neighbours, those outside the canvas clipped away.
pub open spec fn spec_cross(c: Seq<u8>, x: int, y: int, col: (u8, u8, u8)) -> Seq<u8> {
    let c1 = if y >= 1 {
        spec_set_pixel(c, x, y - 1, col)
    } else {
        c
    };
    let c2 = if x >= 1 {
        spec_set_pixel(c1, x - 1, y, col)
    } else {
        c1
    };
    let c3 = spec_set_pixel(c2, x, y, col);
    let c4 = if x + 1 < 400 {
        spec_set_pixel(c3, x + 1, y, col)
    } else {
        c3
    };
    if y + 1 < 300 {
        spec_set_pixel(c4, x, y + 1, col)
    } else {
        c4
    }
}

impl Canvas {
    /// Three bytes for each of the 400x300 pixels.
    pub open spec fn wf(self) -> bool {
        self.data@.len() == 360000
    }

    /// A canvas of all-zero bytes.
    pub fn new() -> (r: Canvas)
        ensures
            r.wf(),
            forall|i: int| 0 <= i < 360000 ==> r.data@[i] == 0u8,
    {
        let mut data: Vec<u8> = Vec::new();
        let mut i: usize = 0;
        while i < 360000
            invariant
                i <= 360000,
                data@.len() == i,
                forall|j: int| 0 <= j < i ==> data@[j] == 0u8,
            decreases 360000 - i,
        {
            data.push(0);
            i = i + 1;
        }
        Canvas { data }
    }

    /// Writes one pixel.
    pub fn set_pixel(&mut self, x: u32, y: u32, col: (u8, u8, u8))
        requires
            old(self).wf(),
            x < 400,
            y < 300,
        ensures
            final(self).wf(),
            final(self).data@ == spec_set_pixel(old(self).data@, x as int, y as int, col),
    {
        let base: usize = 3 * (400 * y as usize + x as usize);
        self.data.set(base, col.0);
        self.data.set(base + 1, col.1);
        self.data.set(base + 2, col.2);
    }

    /// Fills a rectangle, clipped to the canvas.
    pub fn fill_rect(&mut self, x0: u32, y0: u32, w: u32, h: u32, col: (u8, u8, u8))
        requires
            old(self).wf(),
        ensures
            final(self).wf(),
            final(self).data@ == spec_fill_rect(
                old(self).data@,
                x0 as int,
                y0 as int,
                w as int,
                h as int,
                col,
            ),
    {
        let ghost c0 = self.data@;
        let ghost target = spec_fill_rect(c0, x0 as int, y0 as int, w as int, h as int, col);
        let mut i: usize = 0;
        while i < 360000
            invariant
                i <= 360000,
                self.data@.len() == 360000,
                target == spec_fill_rect(c0, x0 as int, y0 as int, w as int, h as int, col),
                target.len() == 360000,
                forall|j: int| 0 <= j < i ==> self.data@[j] == target[j],
                forall|j: int| i <= j < 360000 ==> self.data@[j] == c0[j],
            decreases 360000 - i,
        {
            let p: usize = i / 3;
            let px: u32 = (p % 400) as u32;
            let py: u32 = (p / 400) as u32;
            if x0 <= px && (px as u64) < x0 as u64 + w as u64 && y0 <= py && (py as u64) < y0
                as u64 + h as u64 {
                let ch: usize = i % 3;
                let v = if ch == 0 {
                    col.0
                } else if ch == 1 {
                    col.1
                } else {
                    col.2
                };
                self.data.set(i, v);
            }
            i = i + 1;
        }
        proof {
            assert(self.data@ =~= target);
        }
    }

    /// Stamps a cross (the pixel and its four neighbours), clipped.
    pub fn draw_cross(&mut self, x: u32, y: u32, col: (u8, u8, u8))
        requires
            old(self).wf(),
            x < 400,
            y < 300,
        ensures
            final(self).wf(),
            final(self).data@ == spec_cross(old(self).data@, x as int, y as int, col),
    {
        if y >= 1 {
            self.set_pixel(x, y - 1, col);
        }
        if x >= 1 {
            self.set_pixel(x - 1, y, col);
        }
        self.set_pixel(x, y, col);
        if x + 1 < 400 {
            self.set_pixel(x + 1, y, col);
        }
        if y + 1 < 300 {
            self.set_pixel(x, y + 1, col);
        }
    }
}

/// The black plane byte of a pixel: its red and blue channels and-ed, so a
/// pixel comes out dark — ink — whenever red or blue is clear: accent-red
/// regions and dark regions alike print in this plane, and only the fully
/// bright background stays bright.
pub open spec fn spec_black_byte(r: u8, b: u8) -> u8 {
    r & b
}

/// The red plane byte of a pixel: red and-ed with blue's complement, so only
/// pure accent regions (red set, blue clear) land in this plane.
pub open spec fn spec_red_byte(r: u8, b: u8) -> u8 {
    r & !b
}

/// Ink per plane, for every pixel whose channels sit at the extremes: in the
/// black plane a pixel is ink — dark — exactly when red or blue is clear, so
/// a pure-red pixel and a pure-black pixel are both ink while the white
/// background is not; in the red plane a pixel is ink — a full byte, opaque
/// after expansion — exactly when red is set and blue is clear, so only the
/// pure-red pixel is.
pub proof fn lemma_plane_ink(r: u8, b: u8)
    requires
        r == 0 || r == 255,
        b == 0 || b == 255,
    ensures
        (spec_black_byte(r, b) == 0) == (r == 0 || b == 0),
        (spec_red_byte(r, b) == 255) == (r == 255 && b == 0),
        spec_black_byte(r, b) == 0 || spec_black_byte(r, b) == 255,
        spec_red_byte(r, b) == 0 || spec_red_byte(r, b) == 255,
{
    assert(((r & b == 0) == (r == 0 || b == 0)) && ((r & !b == 255) == (r == 255 && b == 0)) && (r
        & b == 0 || r & b == 255) && (r & !b == 0 || r & !b == 255)) by (bit_vector)
        requires
            r == 0 || r == 255,
            b == 0 || b == 255,
    ;
}

/// The black plane of a canvas, one byte per pixel.
pub open spec fn spec_black_plane(c: Seq<u8>) -> Seq<u8> {
    Seq::new(120000, |p: int| spec_black_byte(c[3 * p], c[3 * p + 2]))
}

/// The red plane of a canvas, one byte per pixel.
pub open spec fn spec_red_plane(c: Seq<u8>) -> Seq<u8> {
    Seq::new(120000, |p: int| spec_red_byte(c[3 * p], c[3 * p + 2]))
}

/// The bitwise complement of a plane.
pub open spec fn spec_invert_plane(s: Seq<u8>) -> Seq<u8> {
    Seq::new(s.len(), |p: int| !s[p])
}

/// A gray plane expanded to RGBA bytes: red tint with opacity equal to the
/// plane byte, so clear bytes are fully transparent.
pub open spec fn spec_rgba_expand(s: Seq<u8>) -> Seq<u8> {
    Seq::new(
        4 * s.len(),
        |i: int|
            {
                let p = i / 4;
                let ch = i % 4;
                if ch == 0 || ch == 3 {
                    s[p]
                } else {
                    0u8
                }
            },
    )
}

/// Every byte fully dark or fully bright.
pub open spec fn all_extreme(c: Seq<u8>) -> bool {
    forall|i: int| 0 <= i < c.len() ==> c[i] == 0 || c[i] == 255
}

/// The planes of an all-extreme canvas are themselves all-extreme: both
/// plane formulas and the inversion map extreme channels to extreme bytes.
pub proof fn lemma_extreme_planes(c: Seq<u8>)
    requires
        all_extreme(c),
        c.len() == 360000,
    ensures
        all_extreme(spec_black_plane(c)),
        all_extreme(spec_red_plane(c)),
        all_extreme(spec_invert_plane(spec_black_plane(c))),
{
    assert forall|p: int| 0 <= p < 120000 implies (spec_black_plane(c)[p] == 0
        || spec_black_plane(c)[p] == 255) && (spec_red_plane(c)[p] == 0 || spec_red_plane(c)[p]
        == 255) by {
        let a = c[3 * p];
        let b = c[3 * p + 2];
        assert(a & b == 0 || a & b == 255) by (bit_vector)
            requires
                a == 0 || a == 255,
                b == 0 || b == 255,
        ;
        assert(a & !b == 0 || a & !b == 255) by (bit_vector)
            requires
                a == 0 || a == 255,
                b == 0 || b == 255,
        ;
    }
    assert forall|p: int| 0 <= p < 120000 implies spec_invert_plane(spec_black_plane(c))[p] == 0
        || spec_invert_plane(spec_black_plane(c))[p] == 255 by {
        let v = spec_black_plane(c)[p];
        assert(!v == 0 || !v == 255) by (bit_vector)
            requires
                v == 0 || v == 255,
        ;
    }
}

/// Extracts the black plane: a pixel's byte is its red and blue channels
/// and-ed, dark meaning ink.
pub fn black_plane(c: &Canvas) -> (r: Vec<u8>)
    requires
        c.wf(),
    ensures
        r@ == spec_black_plane(c.data@),
{
    let mut r: Vec<u8> = Vec::new();
    let mut p: usize = 0;
    while p < 120000
        invariant
            p <= 120000,
            c.wf(),
            r@.len() == p,
            forall|j: int| 0 <= j < p ==> r@[j] == spec_black_byte(
                c.data@[3 * j],
                c.data@[3 * j + 2],
            ),
        decreases 120000 - p,
    {
        let red = c.data[3 * p];
        let blue = c.data[3 * p + 2];
        r.push(red & blue);
        p = p + 1;
    }
    proof {
        assert(r@ =~= spec_black_plane(c.data@));
    }
    r
}

/// Extracts the red plane: a pixel's byte is red and-ed with blue's
/// complement.
pub fn red_plane(c: &Canvas) -> (r: Vec<u8>)
    requires
        c.wf(),
    ensures
        r@ == spec_red_plane(c.data@),
{
    let mut r: Vec<u8> = Vec::new();
    let mut p: usize = 0;
    while p < 120000
        invariant
            p <= 120000,
            c.wf(),
            r@.len() == p,
            forall|j: int| 0 <= j < p ==> r@[j] == spec_red_byte(
                c.data@[3 * j],
                c.data@[3 * j + 2],
            ),
        decreases 120000 - p,
    {
        let red = c.data[3 * p];
        let blue = c.data[3 * p + 2];
        r.push(red & !blue);
        p = p + 1;
    }
    proof {
        assert(r@ =~= spec_red_plane(c.data@));
    }
    r
}

/// Flips every byte of a plane.
pub fn invert_plane(s: &Vec<u8>) -> (r: Vec<u8>)
    ensures
        r@ == spec_invert_plane(s@),
{
    let mut r: Vec<u8> = Vec::new();
    let n = s.len();
    let mut p: usize = 0;
    while p < n
        invariant
            p <= n,
            n == s@.len(),
            r@.len() == p,
            forall|j: int| 0 <= j < p ==> r@[j] == !s@[j],
        decreases n - p,
    {
        r.push(!s[p]);
        p = p + 1;
    }
    proof {
        assert(r@ =~= spec_invert_plane(s@));
    }
    r
}

/// Expands a gray plane to a red-tinted RGBA image whose opacity is the
/// plane byte.
pub fn rgba_expand(s: &Vec<u8>) -> (r: Vec<u8>)
    requires
        s@.len() <= 120000,
    ensures
        r@ == spec_rgba_expand(s@),
{
    let mut r: Vec<u8> = Vec::new();
    let n = s.len();
    let mut p: usize = 0;
    while p < n
        invariant
            p <= n,
            n == s@.len(),
            r@.len() == 4 * p,
            forall|j: int|
                0 <= j < 4 * p ==> r@[j] == (if j % 4 == 0 || j % 4 == 3 {
                    s@[j / 4]
                } else {
                    0u8
                }),
        decreases n - p,
    {
        let v = s[p];
        r.push(v);
        r.push(0);
        r.push(0);
        r.push(v);
        p = p + 1;
    }
    proof {
        assert(r@ =~= spec_rgba_expand(s@));
    }
    r
}

} // verus!
