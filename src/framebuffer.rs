use vstd::prelude::*;

verus! {

/// Width of the panel, in pixels.
pub const WIDTH: usize = 128;

/// Height of the panel, in pixels.
pub const HEIGHT: usize = 64;

/// Largest width or height a framebuffer may have; it keeps every pixel
/// index and coordinate sum well inside the machine's integers.
pub const MAX_SIDE: usize = 4096;

/// Gray level from which a pixel of a grayscale picture counts as lit.
pub const LUMA_THRESHOLD: u8 = 128;

/// A monochrome pixel surface, one `bool` per pixel, stored row by row.
pub struct Framebuffer {
    width: usize,
    height: usize,
    pixels: Vec<bool>,
}

/// Whether `(x, y)` lies inside a `w` by `h` surface.
pub open spec fn in_bounds(w: nat, h: nat, x: int, y: int) -> bool {
    0 <= x < w && 0 <= y < h
}

/// Whether `(x, y)` lies in the rectangle with inclusive corners
/// `(x1, y1)` and `(x2, y2)`.
pub open spec fn in_rect(x1: int, y1: int, x2: int, y2: int, x: int, y: int) -> bool {
    x1 <= x <= x2 && y1 <= y <= y2
}

/// Whether `(x, y)` lies on the border of that rectangle.
pub open spec fn on_outline(x1: int, y1: int, x2: int, y2: int, x: int, y: int) -> bool {
    in_rect(x1, y1, x2, y2, x, y) && (x == x1 || x == x2 || y == y1 || y == y2)
}

proof fn lemma_index_in_range(w: int, h: int, x: int, y: int)
    requires
        0 <= x < w <= MAX_SIDE,
        0 <= y < h <= MAX_SIDE,
    ensures
        0 <= y * w,
        0 <= y * w + x < w * h <= MAX_SIDE * MAX_SIDE,
{
    assert(w * h <= MAX_SIDE * MAX_SIDE) by (nonlinear_arith)
        requires
            0 <= w <= MAX_SIDE,
            0 <= h <= MAX_SIDE,
    ;
    assert(y * w + x < w * h) by (nonlinear_arith)
        requires
            0 <= x < w,
            0 <= y < h,
    ;
    assert(0 <= y * w) by (nonlinear_arith)
        requires
            0 <= y,
            0 <= w,
    ;
}

proof fn lemma_index_unique(w: int, x1: int, y1: int, x2: int, y2: int)
    requires
        0 <= x1 < w,
        0 <= x2 < w,
        0 <= y1,
        0 <= y2,
        y1 * w + x1 == y2 * w + x2,
    ensures
        x1 == x2 && y1 == y2,
{
    assert(x1 == x2 && y1 == y2) by (nonlinear_arith)
        requires
            0 <= x1 < w,
            0 <= x2 < w,
            0 <= y1,
            0 <= y2,
            y1 * w + x1 == y2 * w + x2,
    ;
}

impl Framebuffer {
    pub closed spec fn wf(&self) -> bool {
        &&& self.width <= MAX_SIDE
        &&& self.height <= MAX_SIDE
        &&& self.pixels@.len() == self.width * self.height
    }

    pub closed spec fn width_spec(&self) -> nat {
        self.width as nat
    }

    pub closed spec fn height_spec(&self) -> nat {
        self.height as nat
    }

    /// The pixel at column `x`, row `y`; meaningful inside the bounds only.
    pub closed spec fn pixel(&self, x: int, y: int) -> bool {
        self.pixels@[y * self.width + x]
    }

    /// Two framebuffers hold the same image.
    pub open spec fn same_image(&self, other: &Framebuffer) -> bool {
        &&& self.width_spec() == other.width_spec()
        &&& self.height_spec() == other.height_spec()
        &&& forall|x: int, y: int|
            in_bounds(self.width_spec(), self.height_spec(), x, y) ==> #[trigger] self.pixel(x, y)
                == other.pixel(x, y)
    }

    /// The pixels outside `changed` kept their value from `old`.
    pub open spec fn keeps_outside(
        &self,
        before: &Framebuffer,
        changed: spec_fn(int, int) -> bool,
        on: bool,
    ) -> bool {
        &&& self.wf()
        &&& self.width_spec() == before.width_spec()
        &&& self.height_spec() == before.height_spec()
        &&& forall|x: int, y: int|
            in_bounds(self.width_spec(), self.height_spec(), x, y) ==> #[trigger] self.pixel(x, y)
                == if changed(x, y) {
                on
            } else {
                before.pixel(x, y)
            }
    }

    /// A `width` by `height` framebuffer with every pixel off.
    pub fn new(width: usize, height: usize) -> (r: Framebuffer)
        requires
            width <= MAX_SIDE,
            height <= MAX_SIDE,
        ensures
            r.wf(),
            r.width_spec() == width,
            r.height_spec() == height,
            forall|x: int, y: int| in_bounds(width as nat, height as nat, x, y) ==> !#[trigger] r.pixel(x, y),
    {
        proof {
            assert(width * height <= MAX_SIDE * MAX_SIDE) by (nonlinear_arith)
                requires
                    width <= MAX_SIDE,
                    height <= MAX_SIDE,
            ;
        }
        let n: usize = width * height;
        let mut pixels: Vec<bool> = Vec::new();
        let mut i: usize = 0;
        while i < n
            invariant
                i <= n,
                pixels@.len() == i,
                forall|k: int| 0 <= k < i ==> !#[trigger] pixels@[k],
            decreases n - i,
        {
            pixels.push(false);
            i = i + 1;
        }
        let r = Framebuffer { width, height, pixels };
        proof {
            assert forall|x: int, y: int| in_bounds(width as nat, height as nat, x, y) implies !#[trigger] r.pixel(x, y) by {
                lemma_index_in_range(width as int, height as int, x, y);
            }
        }
        r
    }

    /// A framebuffer the size of the panel, every pixel off.
    pub fn panel() -> (r: Framebuffer)
        ensures
            r.wf(),
            r.width_spec() == WIDTH,
            r.height_spec() == HEIGHT,
            forall|x: int, y: int| in_bounds(WIDTH as nat, HEIGHT as nat, x, y) ==> !#[trigger] r.pixel(x, y),
    {
        Framebuffer::new(WIDTH, HEIGHT)
    }

    /// A framebuffer from a grayscale picture given row by row, one byte per
    /// pixel: a pixel is lit where its gray level is at least
    /// `LUMA_THRESHOLD`. `None` where the picture does not hold exactly
    /// `width * height` pixels.
    pub fn from_luma(width: usize, height: usize, luma: &Vec<u8>) -> (r: Option<Framebuffer>)
        requires
            width <= MAX_SIDE,
            height <= MAX_SIDE,
        ensures
            r.is_some() <==> luma@.len() == width * height,
            r matches Some(fb) ==> {
                &&& fb.wf()
                &&& fb.width_spec() == width
                &&& fb.height_spec() == height
                &&& forall|x: int, y: int|
                    in_bounds(width as nat, height as nat, x, y) ==> #[trigger] fb.pixel(x, y) == (
                    luma@[y * width + x] >= LUMA_THRESHOLD)
            },
    {
        proof {
            assert(width * height <= MAX_SIDE * MAX_SIDE) by (nonlinear_arith)
                requires
                    width <= MAX_SIDE,
                    height <= MAX_SIDE,
            ;
        }
        if luma.len() != width * height {
            return None;
        }
        let mut pixels: Vec<bool> = Vec::new();
        let mut i: usize = 0;
        while i < luma.len()
            invariant
                i <= luma@.len(),
                pixels@.len() == i,
                forall|k: int| 0 <= k < i ==> #[trigger] pixels@[k] == (luma@[k] >= LUMA_THRESHOLD),
            decreases luma@.len() - i,
        {
            pixels.push(luma[i] >= LUMA_THRESHOLD);
            i = i + 1;
        }
        let fb = Framebuffer { width, height, pixels };
        proof {
            assert forall|x: int, y: int|
                in_bounds(width as nat, height as nat, x, y) implies #[trigger] fb.pixel(x, y) == (
                luma@[y * width + x] >= LUMA_THRESHOLD) by {
                lemma_index_in_range(width as int, height as int, x, y);
            }
        }
        Some(fb)
    }

    pub fn width(&self) -> (r: usize)
        requires
            self.wf(),
        ensures
            r == self.width_spec(),
            r <= MAX_SIDE,
    {
        self.width
    }

    pub fn height(&self) -> (r: usize)
        requires
            self.wf(),
        ensures
            r == self.height_spec(),
            r <= MAX_SIDE,
    {
        self.height
    }

    /// The pixel at `(x, y)`, which must lie inside the framebuffer.
    pub fn get_pixel(&self, x: usize, y: usize) -> (r: bool)
        requires
            self.wf(),
            x < self.width_spec(),
            y < self.height_spec(),
        ensures
            r == self.pixel(x as int, y as int),
    {
        proof {
            lemma_index_in_range(self.width as int, self.height as int, x as int, y as int);
        }
        self.pixels[y * self.width + x]
    }

    /// Sets the pixel at `(x, y)` to `on`; a point outside the framebuffer is
    /// ignored.
    pub fn set_pixel(&mut self, x: i64, y: i64, on: bool)
        requires
            old(self).wf(),
        ensures
            final(self).keeps_outside(
                old(self),
                |i: int, j: int| i == x && j == y,
                on,
            ),
    {
        if x < 0 || y < 0 || x >= self.width as i64 || y >= self.height as i64 {
            return;
        }
        let xu = x as usize;
        let yu = y as usize;
        proof {
            lemma_index_in_range(self.width as int, self.height as int, x as int, y as int);
        }
        let idx: usize = yu * self.width + xu;
        self.pixels.set(idx, on);
        proof {
            assert forall|i: int, j: int|
                in_bounds(self.width_spec(), self.height_spec(), i, j) implies #[trigger] self.pixel(i, j)
                == if i == x && j == y {
                on
            } else {
                old(self).pixel(i, j)
            } by {
                lemma_index_in_range(self.width as int, self.height as int, i, j);
                if !(i == x && j == y) {
                    if j * self.width + i == idx {
                        lemma_index_unique(self.width as int, i, j, x as int, y as int);
                    }
                }
            }
        }
    }

    /// Turns every pixel off.
    pub fn clear(&mut self)
        requires
            old(self).wf(),
        ensures
            final(self).keeps_outside(old(self), |i: int, j: int| true, false),
    {
        let n = self.pixels.len();
        let mut k: usize = 0;
        while k < n
            invariant
                k <= n,
                n == self.pixels@.len(),
                self.width == old(self).width,
                self.height == old(self).height,
                self.wf(),
                forall|m: int| 0 <= m < k ==> !#[trigger] self.pixels@[m],
            decreases n - k,
        {
            self.pixels.set(k, false);
            k = k + 1;
        }
        proof {
            assert forall|i: int, j: int|
                in_bounds(self.width_spec(), self.height_spec(), i, j) implies !#[trigger] self.pixel(i, j) by {
                lemma_index_in_range(self.width as int, self.height as int, i, j);
            }
        }
    }

    /// Sets every pixel of the rectangle with inclusive corners `(x1, y1)` and
    /// `(x2, y2)` to `on`. The rectangle is clipped to the framebuffer: parts
    /// outside it, or the whole rectangle, are silently skipped.
    pub fn fill_rect(&mut self, x1: i64, y1: i64, x2: i64, y2: i64, on: bool)
        requires
            old(self).wf(),
        ensures
            final(self).keeps_outside(
                old(self),
                |i: int, j: int| in_rect(x1 as int, y1 as int, x2 as int, y2 as int, i, j),
                on,
            ),
    {
        let w = self.width as i64;
        let h = self.height as i64;
        let xs: i64 = if x1 < 0 { 0 } else { x1 };
        let ys: i64 = if y1 < 0 { 0 } else { y1 };
        let xe: i64 = if x2 > w - 1 { w - 1 } else { x2 };
        let ye: i64 = if y2 > h - 1 { h - 1 } else { y2 };
        if xs > xe || ys > ye {
            return;
        }
        let mut x: i64 = xs;
        while x <= xe
            invariant
                xs <= x <= xe + 1,
                0 <= xs,
                0 <= ys <= ye < h,
                xe < w,
                w == self.width_spec(),
                h == self.height_spec(),
                xs >= x1 && (xs == 0 || xs == x1),
                ys >= y1 && (ys == 0 || ys == y1),
                xe <= x2 && (xe == w - 1 || xe == x2),
                ye <= y2 && (ye == h - 1 || ye == y2),
                w == old(self).width_spec(),
                h == old(self).height_spec(),
                self.wf(),
                w <= MAX_SIDE,
                h <= MAX_SIDE,
                forall|i: int, j: int|
                    in_bounds(self.width_spec(), self.height_spec(), i, j) ==> #[trigger] self.pixel(i, j)
                        == if in_rect(x1 as int, y1 as int, x2 as int, y2 as int, i, j) && i < x {
                        on
                    } else {
                        old(self).pixel(i, j)
                    },
            decreases xe + 1 - x,
        {
            let mut y: i64 = ys;
            while y <= ye
                invariant
                    xs <= x <= xe,
                    ys <= y <= ye + 1,
                    0 <= xs,
                    0 <= ys <= ye < h,
                    xe < w,
                    w == self.width_spec(),
                    h == self.height_spec(),
                    xs >= x1 && (xs == 0 || xs == x1),
                    ys >= y1 && (ys == 0 || ys == y1),
                    xe <= x2 && (xe == w - 1 || xe == x2),
                    ye <= y2 && (ye == h - 1 || ye == y2),
                    w == old(self).width_spec(),
                    h == old(self).height_spec(),
                    self.wf(),
                    w <= MAX_SIDE,
                    h <= MAX_SIDE,
                    forall|i: int, j: int|
                        in_bounds(self.width_spec(), self.height_spec(), i, j) ==> #[trigger] self.pixel(i, j)
                            == if in_rect(x1 as int, y1 as int, x2 as int, y2 as int, i, j) && (i < x
                            || (i == x && j < y)) {
                            on
                        } else {
                            old(self).pixel(i, j)
                        },
                decreases ye + 1 - y,
            {
                self.set_pixel(x, y, on);
                y = y + 1;
            }
            x = x + 1;
        }
    }

    /// Draws the border, one pixel wide, of the rectangle with inclusive
    /// corners `(x1, y1)` and `(x2, y2)`, clipped to the framebuffer. An empty
    /// rectangle (`x1 > x2` or `y1 > y2`) draws nothing.
    pub fn draw_rect_outline(&mut self, x1: i64, y1: i64, x2: i64, y2: i64, on: bool)
        requires
            old(self).wf(),
        ensures
            final(self).keeps_outside(
                old(self),
                |i: int, j: int| on_outline(x1 as int, y1 as int, x2 as int, y2 as int, i, j),
                on,
            ),
    {
        if x1 > x2 || y1 > y2 {
            return;
        }
        self.fill_rect(x1, y1, x2, y1, on);
        self.fill_rect(x1, y2, x2, y2, on);
        self.fill_rect(x1, y1, x1, y2, on);
        self.fill_rect(x2, y1, x2, y2, on);
    }

}

} // verus!
