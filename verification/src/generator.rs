//! Turning a solution text into one distorted image: per-character render
//! parameters drawn at random, blank borders of each rendered glyph trimmed,
//! the trimmed glyphs packed left to right onto one canvas, and the canvas
//! encoded as a PNG.
//!
//! Drawing a single character is an outside primitive; this module works on
//! the pixel buffers it fills.
use vstd::prelude::*;

use crate::rng::os_random_u32;

verus! {

/// One RGB pixel, eight bits per channel.
#[derive(PartialEq, Eq, Structural, Clone, Copy, Debug)]
pub struct Pixel {
    pub r: u8,
    pub g: u8,
    pub b: u8,
}

impl Pixel {
    pub fn white() -> (p: Pixel)
        ensures
            p == (Pixel { r: 255, g: 255, b: 255 }),
    {
        Pixel { r: 255, g: 255, b: 255 }
    }

    pub fn black() -> (p: Pixel)
        ensures
            p == (Pixel { r: 0, g: 0, b: 0 }),
    {
        Pixel { r: 0, g: 0, b: 0 }
    }
}

/// The count of uniform margin rows or columns at each edge of an image:
/// `north` at the top, `south` at the bottom, `east` at the left, `west` at
/// the right, each counted from its own edge inward.
pub struct Borders {
    pub north: usize,
    pub west: usize,
    pub south: usize,
    pub east: usize,
}

/// A flat RGB raster: three bytes per pixel, rows from the top.
pub struct Image {
    pub buf: Vec<u8>,
    pub height: usize,
    pub width: usize,
}

impl Image {
    /// The buffer holds exactly the raster.
    pub open spec fn wf(&self) -> bool {
        self.buf@.len() == self.width * self.height * 3
    }

    /// The pixel at a coordinate, columns right and rows down.
    pub open spec fn pixel_spec(&self, x: int, y: int) -> Pixel {
        Pixel {
            r: self.buf@[y * self.width * 3 + x * 3],
            g: self.buf@[y * self.width * 3 + x * 3 + 1],
            b: self.buf@[y * self.width * 3 + x * 3 + 2],
        }
    }

    /// Every pixel of row `y` is `p`.
    pub open spec fn row_blank(&self, y: int, p: Pixel) -> bool {
        forall|x: int| 0 <= x < self.width ==> self.pixel_spec(x, y) == p
    }

    /// Every pixel of column `x` is `p`.
    pub open spec fn col_blank(&self, x: int, p: Pixel) -> bool {
        forall|y: int| 0 <= y < self.height ==> self.pixel_spec(x, y) == p
    }
}

/// How many rows from `from` on, downward, are wholly `p`.
pub open spec fn blank_rows_down(g: &Image, p: Pixel, from: int) -> int
    decreases g.height - from,
{
    if from < 0 || from >= g.height {
        0
    } else if g.row_blank(from, p) {
        1 + blank_rows_down(g, p, from + 1)
    } else {
        0
    }
}

/// How many rows from `from` on, upward, are wholly `p`.
pub open spec fn blank_rows_up(g: &Image, p: Pixel, from: int) -> int
    decreases from + 1,
{
    if from < 0 || from >= g.height {
        0
    } else if g.row_blank(from, p) {
        1 + blank_rows_up(g, p, from - 1)
    } else {
        0
    }
}

/// How many columns from `from` on, rightward, are wholly `p`.
pub open spec fn blank_cols_right(g: &Image, p: Pixel, from: int) -> int
    decreases g.width - from,
{
    if from < 0 || from >= g.width {
        0
    } else if g.col_blank(from, p) {
        1 + blank_cols_right(g, p, from + 1)
    } else {
        0
    }
}

/// How many columns from `from` on, leftward, are wholly `p`.
pub open spec fn blank_cols_left(g: &Image, p: Pixel, from: int) -> int
    decreases from + 1,
{
    if from < 0 || from >= g.width {
        0
    } else if g.col_blank(from, p) {
        1 + blank_cols_left(g, p, from - 1)
    } else {
        0
    }
}

/// The top margin: consecutive blank rows counted from the top edge.
pub open spec fn north_of(g: &Image, p: Pixel) -> int {
    blank_rows_down(g, p, 0)
}

/// The bottom margin: consecutive blank rows counted from the bottom edge.
pub open spec fn south_of(g: &Image, p: Pixel) -> int {
    blank_rows_up(g, p, g.height - 1)
}

/// The left margin: consecutive blank columns counted from the left edge.
pub open spec fn east_of(g: &Image, p: Pixel) -> int {
    blank_cols_right(g, p, 0)
}

/// The right margin: consecutive blank columns counted from the right edge.
pub open spec fn west_of(g: &Image, p: Pixel) -> int {
    blank_cols_left(g, p, g.width - 1)
}

proof fn lemma_blank_rows_down_bound(g: &Image, p: Pixel, from: int)
    requires
        0 <= from <= g.height,
    ensures
        0 <= blank_rows_down(g, p, from) <= g.height - from,
    decreases g.height - from,
{
    if from < g.height && g.row_blank(from, p) {
        lemma_blank_rows_down_bound(g, p, from + 1);
    }
}

proof fn lemma_blank_rows_up_bound(g: &Image, p: Pixel, from: int)
    requires
        -1 <= from <= g.height - 1,
    ensures
        0 <= blank_rows_up(g, p, from) <= from + 1,
    decreases from + 1,
{
    if 0 <= from && from < g.height && g.row_blank(from, p) {
        lemma_blank_rows_up_bound(g, p, from - 1);
    }
}

proof fn lemma_blank_cols_right_bound(g: &Image, p: Pixel, from: int)
    requires
        0 <= from <= g.width,
    ensures
        0 <= blank_cols_right(g, p, from) <= g.width - from,
    decreases g.width - from,
{
    if from < g.width && g.col_blank(from, p) {
        lemma_blank_cols_right_bound(g, p, from + 1);
    }
}

proof fn lemma_blank_cols_left_bound(g: &Image, p: Pixel, from: int)
    requires
        -1 <= from <= g.width - 1,
    ensures
        0 <= blank_cols_left(g, p, from) <= from + 1,
    decreases from + 1,
{
    if 0 <= from && from < g.width && g.col_blank(from, p) {
        lemma_blank_cols_left_bound(g, p, from - 1);
    }
}

impl Image {
    /// An all-black image.
    pub fn new(width: usize, height: usize) -> (r: Image)
        requires
            width * height * 3 <= usize::MAX,
        ensures
            r.wf(),
            r.width == width,
            r.height == height,
            forall|x: int, y: int|
                0 <= x < width && 0 <= y < height ==> r.pixel_spec(x, y) == (Pixel {
                    r: 0,
                    g: 0,
                    b: 0,
                }),
    {
        Image::fill(width, height, 0)
    }

    /// An image with every channel of every pixel set to `c`.
    pub fn fill(width: usize, height: usize, c: u8) -> (r: Image)
        requires
            width * height * 3 <= usize::MAX,
        ensures
            r.wf(),
            r.width == width,
            r.height == height,
            forall|x: int, y: int|
                0 <= x < width && 0 <= y < height ==> r.pixel_spec(x, y) == (Pixel {
                    r: c,
                    g: c,
                    b: c,
                }),
    {
        proof {
            assert(width * height <= width * height * 3) by (nonlinear_arith);
        }
        let wh = width * height;
        let n = wh * 3;
        let mut buf: Vec<u8> = Vec::new();
        let mut i: usize = 0;
        while i < n
            invariant
                i <= n,
                buf@.len() == i,
                forall|j: int| 0 <= j < i ==> buf@[j] == c,
            decreases n - i,
        {
            buf.push(c);
            i = i + 1;
        }
        let r = Image { buf, height, width };
        proof {
            assert forall|x: int, y: int|
                0 <= x < width && 0 <= y < height implies r.pixel_spec(x, y) == (Pixel {
                r: c,
                g: c,
                b: c,
            }) by {
                lemma_pixel_offset(width as int, height as int, x, y);
            }
        }
        r
    }

    /// The pixel at `(x, y)`, or nothing outside the raster.
    pub fn pixel(&self, x: usize, y: usize) -> (r: Option<Pixel>)
        requires
            self.wf(),
        ensures
            x < self.width && y < self.height ==> r == Some(self.pixel_spec(x as int, y as int)),
            x >= self.width || y >= self.height ==> r is None,
    {
        if x >= self.width || y >= self.height {
            return None;
        }
        let n = self.buf.len();
        proof {
            lemma_pixel_offset(self.width as int, self.height as int, x as int, y as int);
            assert(n == self.width * self.height * 3);
        }
        let off = y * self.width * 3 + x * 3;
        Some(Pixel { r: self.buf[off], g: self.buf[off + 1], b: self.buf[off + 2] })
    }

    /// Writes the pixel at `(x, y)`; outside the raster nothing changes.
    pub fn set_pixel(&mut self, x: usize, y: usize, p: Pixel) -> (r: Option<()>)
        requires
            old(self).wf(),
        ensures
            final(self).wf(),
            final(self).width == old(self).width,
            final(self).height == old(self).height,
            x < old(self).width && y < old(self).height ==> r == Some(())
                && final(self).pixel_spec(x as int, y as int) == p,
            x >= old(self).width || y >= old(self).height ==> r is None
                && *final(self) == *old(self),
            forall|x2: int, y2: int|
                0 <= x2 < old(self).width && 0 <= y2 < old(self).height && (x2 != x || y2 != y)
                    ==> final(self).pixel_spec(x2, y2) == old(self).pixel_spec(x2, y2),
    {
        if x >= self.width || y >= self.height {
            return None;
        }
        let n = self.buf.len();
        proof {
            lemma_pixel_offset(self.width as int, self.height as int, x as int, y as int);
            assert(n == self.width * self.height * 3);
        }
        let off = y * self.width * 3 + x * 3;
        self.buf.set(off, p.r);
        self.buf.set(off + 1, p.g);
        self.buf.set(off + 2, p.b);
        proof {
            assert forall|x2: int, y2: int|
                0 <= x2 < self.width && 0 <= y2 < self.height && (x2 != x as int || y2
                    != y as int) implies self.pixel_spec(x2, y2) == old(self).pixel_spec(
                x2,
                y2,
            ) by {
                lemma_pixel_offset(self.width as int, self.height as int, x2, y2);
                lemma_pixel_index_distinct(self.width as int, x as int, y as int, x2, y2);
            }
        }
        Some(())
    }

    fn row_all(&self, y: usize, p: Pixel) -> (r: bool)
        requires
            self.wf(),
            y < self.height,
        ensures
            r == self.row_blank(y as int, p),
    {
        let mut x: usize = 0;
        while x < self.width
            invariant
                self.wf(),
                y < self.height,
                x <= self.width,
                forall|x2: int| 0 <= x2 < x ==> self.pixel_spec(x2, y as int) == p,
            decreases self.width - x,
        {
            let q = self.pixel(x, y);
            match q {
                Some(q) => {
                    if q.r != p.r || q.g != p.g || q.b != p.b {
                        return false;
                    }
                },
                None => {
                    return false;
                },
            }
            x = x + 1;
        }
        true
    }

    fn col_all(&self, x: usize, p: Pixel) -> (r: bool)
        requires
            self.wf(),
            x < self.width,
        ensures
            r == self.col_blank(x as int, p),
    {
        let mut y: usize = 0;
        while y < self.height
            invariant
                self.wf(),
                x < self.width,
                y <= self.height,
                forall|y2: int| 0 <= y2 < y ==> self.pixel_spec(x as int, y2) == p,
            decreases self.height - y,
        {
            let q = self.pixel(x, y);
            match q {
                Some(q) => {
                    if q.r != p.r || q.g != p.g || q.b != p.b {
                        return false;
                    }
                },
                None => {
                    return false;
                },
            }
            y = y + 1;
        }
        true
    }

    /// Counts the uniform margins of colour `p`, each from its own edge
    /// inward: rows from the top and from the bottom, columns from the left
    /// and from the right.
    pub fn borders(&self, p: Pixel) -> (b: Borders)
        requires
            self.wf(),
        ensures
            b.north as int == north_of(self, p),
            b.south as int == south_of(self, p),
            b.east as int == east_of(self, p),
            b.west as int == west_of(self, p),
            b.north <= self.height,
            b.south <= self.height,
            b.east <= self.width,
            b.west <= self.width,
    {
        let mut north: usize = 0;
        while north < self.height && self.row_all(north, p)
            invariant
                self.wf(),
                north <= self.height,
                north_of(self, p) == north + blank_rows_down(self, p, north as int),
            decreases self.height - north,
        {
            north = north + 1;
        }
        let mut south: usize = 0;
        while south < self.height && self.row_all(self.height - 1 - south, p)
            invariant
                self.wf(),
                south <= self.height,
                south_of(self, p) == south + blank_rows_up(
                    self,
                    p,
                    self.height - 1 - south as int,
                ),
            decreases self.height - south,
        {
            south = south + 1;
        }
        let mut east: usize = 0;
        while east < self.width && self.col_all(east, p)
            invariant
                self.wf(),
                east <= self.width,
                east_of(self, p) == east + blank_cols_right(self, p, east as int),
            decreases self.width - east,
        {
            east = east + 1;
        }
        let mut west: usize = 0;
        while west < self.width && self.col_all(self.width - 1 - west, p)
            invariant
                self.wf(),
                west <= self.width,
                west_of(self, p) == west + blank_cols_left(self, p, self.width - 1 - west as int),
            decreases self.width - west,
        {
            west = west + 1;
        }
        proof {
            lemma_blank_rows_down_bound(self, p, 0);
            lemma_blank_rows_up_bound(self, p, self.height - 1);
            lemma_blank_cols_right_bound(self, p, 0);
            lemma_blank_cols_left_bound(self, p, self.width - 1);
        }
        Borders { north, west, south, east }
    }
}

/// The background colour glyphs are rendered on.
pub open spec fn white_px() -> Pixel {
    Pixel { r: 255, g: 255, b: 255 }
}

/// A glyph's width once its blank left and right margins are trimmed; a
/// wholly blank glyph contributes nothing.
pub open spec fn trim_w(g: Image) -> int {
    if east_of(&g, white_px()) + west_of(&g, white_px()) <= g.width {
        g.width - east_of(&g, white_px()) - west_of(&g, white_px())
    } else {
        0
    }
}

/// A glyph's height once its blank top and bottom margins are trimmed.
pub open spec fn trim_h(g: Image) -> int {
    if north_of(&g, white_px()) + south_of(&g, white_px()) <= g.height {
        g.height - north_of(&g, white_px()) - south_of(&g, white_px())
    } else {
        0
    }
}

/// The output column where glyph `k` starts: the sum of the trimmed widths
/// before it.
pub open spec fn x_off(gs: Seq<Image>, k: int) -> int
    decreases k,
{
    if k <= 0 {
        0
    } else {
        x_off(gs, k - 1) + trim_w(gs[k - 1])
    }
}

/// The width of the assembled canvas.
pub open spec fn total_w(gs: Seq<Image>) -> int {
    x_off(gs, gs.len() as int)
}

/// The tallest trimmed glyph among the first `k`.
pub open spec fn max_h(gs: Seq<Image>, k: int) -> int
    decreases k,
{
    if k <= 0 {
        0
    } else if trim_h(gs[k - 1]) > max_h(gs, k - 1) {
        trim_h(gs[k - 1])
    } else {
        max_h(gs, k - 1)
    }
}

/// Some glyph among the first `kmax` puts its trimmed content on `(x, y)`.
pub open spec fn covered_upto(gs: Seq<Image>, kmax: int, x: int, y: int) -> bool {
    exists|k: int|
        0 <= k < kmax && #[trigger] x_off(gs, k) <= x < x_off(gs, k) + trim_w(gs[k]) && 0 <= y
            < trim_h(gs[k])
}

/// The assembled raster would not fit in one memory allocation.
pub open spec fn composition_oversized(gs: Seq<Image>) -> bool {
    total_w(gs) > usize::MAX || total_w(gs) * max_h(gs, gs.len() as int) * 3 > usize::MAX
}

/// The assembled canvas: as wide as the trimmed glyphs together and as tall
/// as the tallest, each glyph's trimmed content flush against the running
/// cursor and flush with the top, and the background white.
pub open spec fn is_composition(gs: Seq<Image>, out: Image) -> bool {
    &&& out.wf()
    &&& out.width == total_w(gs)
    &&& out.height == max_h(gs, gs.len() as int)
    &&& forall|k: int, x: int, y: int|
        #![trigger x_off(gs, k), out.pixel_spec(x, y)]
        0 <= k < gs.len() && x_off(gs, k) <= x < x_off(gs, k) + trim_w(gs[k]) && 0 <= y < trim_h(
            gs[k],
        ) ==> out.pixel_spec(x, y) == gs[k].pixel_spec(
            x - x_off(gs, k) + east_of(&gs[k], white_px()),
            y + north_of(&gs[k], white_px()),
        )
    &&& forall|x: int, y: int|
        0 <= x < out.width && 0 <= y < out.height && !covered_upto(gs, gs.len() as int, x, y)
            ==> out.pixel_spec(x, y) == white_px()
}

proof fn lemma_trim_bounds(g: Image, p: Pixel)
    ensures
        0 <= trim_w(g) <= g.width,
        0 <= trim_h(g) <= g.height,
        0 <= east_of(&g, white_px()) <= g.width,
        0 <= west_of(&g, white_px()) <= g.width,
        0 <= north_of(&g, white_px()) <= g.height,
        0 <= south_of(&g, white_px()) <= g.height,
        east_of(&g, white_px()) + trim_w(g) <= g.width,
        north_of(&g, white_px()) + trim_h(g) <= g.height,
{
    lemma_blank_rows_down_bound(&g, white_px(), 0);
    lemma_blank_rows_up_bound(&g, white_px(), g.height - 1);
    lemma_blank_cols_right_bound(&g, white_px(), 0);
    lemma_blank_cols_left_bound(&g, white_px(), g.width - 1);
}

proof fn lemma_x_off_mono(gs: Seq<Image>, a: int, b: int)
    requires
        0 <= a <= b,
    ensures
        x_off(gs, a) <= x_off(gs, b),
    decreases b,
{
    if a < b {
        lemma_x_off_mono(gs, a, b - 1);
        lemma_trim_bounds(gs[b - 1], white_px());
    }
}

proof fn lemma_max_h_nonneg(gs: Seq<Image>, k: int)
    ensures
        max_h(gs, k) >= 0,
    decreases k,
{
    if k > 0 {
        lemma_max_h_nonneg(gs, k - 1);
        lemma_trim_bounds(gs[k - 1], white_px());
    }
}

proof fn lemma_max_h_bounds(gs: Seq<Image>, k: int, kmax: int)
    requires
        0 <= k < kmax,
    ensures
        trim_h(gs[k]) <= max_h(gs, kmax),
        max_h(gs, kmax) >= 0,
    decreases kmax,
{
    lemma_trim_bounds(gs[k], white_px());
    if k == kmax - 1 {
        lemma_max_h_nonneg(gs, kmax - 1);
    } else {
        lemma_max_h_bounds(gs, k, kmax - 1);
    }
}

/// Pixel offsets stay inside a well-formed buffer.
proof fn lemma_pixel_offset(w: int, h: int, x: int, y: int)
    requires
        0 <= x < w,
        0 <= y < h,
    ensures
        y * w * 3 + x * 3 + 2 < w * h * 3,
        y * w * 3 + x * 3 >= 0,
        y * w <= w * h,
        y * w * 3 == (y * w) * 3,
{
    assert(y * w * 3 + x * 3 + 2 < w * h * 3) by (nonlinear_arith)
        requires
            0 <= x < w,
            0 <= y < h,
    ;
    assert(y * w * 3 >= 0 && x * 3 >= 0) by (nonlinear_arith)
        requires
            0 <= x,
            0 <= y,
            0 < w,
    ;
    assert(y * w <= w * h) by (nonlinear_arith)
        requires
            0 <= y < h,
            0 < w,
    ;
}

/// Copies a `w` by `h` rectangle of `src`, its corner at `(sx, sy)`, onto
/// `dest` with its corner at `(dx, dy)`; every other pixel of `dest` keeps
/// its value.
fn blit(dest: &mut Image, src: &Image, sx: usize, sy: usize, dx: usize, dy: usize, w: usize,
    h: usize)
    requires
        old(dest).wf(),
        src.wf(),
        sx + w <= src.width,
        sy + h <= src.height,
        dx + w <= old(dest).width,
        dy + h <= old(dest).height,
    ensures
        final(dest).wf(),
        final(dest).width == old(dest).width,
        final(dest).height == old(dest).height,
        forall|x: int, y: int|
            dx <= x < dx + w && dy <= y < dy + h ==> final(dest).pixel_spec(x, y)
                == src.pixel_spec(x - dx + sx, y - dy + sy),
        forall|x: int, y: int|
            0 <= x < old(dest).width && 0 <= y < old(dest).height && !(dx <= x < dx + w && dy <= y
                < dy + h) ==> final(dest).pixel_spec(x, y) == old(dest).pixel_spec(x, y),
{
    let mut j: usize = 0;
    while j < h
        invariant
            dest.wf(),
            src.wf(),
            dest.width == old(dest).width,
            dest.height == old(dest).height,
            sx + w <= src.width,
            sy + h <= src.height,
            dx + w <= dest.width,
            dy + h <= dest.height,
            j <= h,
            forall|x: int, y: int|
                dx <= x < dx + w && dy <= y < dy + j ==> dest.pixel_spec(x, y) == src.pixel_spec(
                    x - dx + sx,
                    y - dy + sy,
                ),
            forall|x: int, y: int|
                0 <= x < dest.width && 0 <= y < dest.height && !(dx <= x < dx + w && dy <= y < dy
                    + h) ==> dest.pixel_spec(x, y) == old(dest).pixel_spec(x, y),
            forall|x: int, y: int|
                dx <= x < dx + w && dy + j <= y < dy + h ==> dest.pixel_spec(x, y) == old(
                    dest,
                ).pixel_spec(x, y),
        decreases h - j,
    {
        let mut i: usize = 0;
        while i < w
            invariant
                dest.wf(),
                src.wf(),
                dest.width == old(dest).width,
                dest.height == old(dest).height,
                sx + w <= src.width,
                sy + h <= src.height,
                dx + w <= dest.width,
                dy + h <= dest.height,
                j < h,
                i <= w,
                forall|x: int, y: int|
                    dx <= x < dx + w && dy <= y < dy + j ==> dest.pixel_spec(x, y)
                        == src.pixel_spec(x - dx + sx, y - dy + sy),
                forall|x: int, y: int|
                    dx <= x < dx + i && y == dy + j ==> dest.pixel_spec(x, y) == src.pixel_spec(
                        x - dx + sx,
                        sy + j,
                    ),
                forall|x: int, y: int|
                    0 <= x < dest.width && 0 <= y < dest.height && !(dx <= x < dx + w && dy <= y
                        < dy + h) ==> dest.pixel_spec(x, y) == old(dest).pixel_spec(x, y),
                forall|x: int, y: int|
                    dx <= x < dx + w && dy + j <= y < dy + h && (y != dy + j || x >= dx + i)
                        ==> dest.pixel_spec(x, y) == old(dest).pixel_spec(x, y),
            decreases w - i,
        {
            let p = match src.pixel(sx + i, sy + j) {
                Some(p) => p,
                None => {
                    proof {
                        assert(false);
                    }
                    Pixel { r: 0, g: 0, b: 0 }
                },
            };
            let _ = dest.set_pixel(dx + i, dy + j, p);
            i = i + 1;
        }
        j = j + 1;
    }
}

/// Assembles rendered glyphs into one image: each glyph's blank borders are
/// trimmed away, the trimmed glyphs stand left to right, flush with the
/// top, on a white canvas as tall as the tallest of them. Fails exactly
/// when the assembled raster would not fit in memory.
pub fn do_image(glyphs: &Vec<Image>) -> (r: Result<Image, &'static str>)
    requires
        glyphs@.len() >= 1,
        forall|k: int| 0 <= k < glyphs@.len() ==> (#[trigger] glyphs@[k]).wf(),
    ensures
        r matches Ok(img) ==> is_composition(glyphs@, img),
        r is Err <==> composition_oversized(glyphs@),
{
    let ghost gs = glyphs@;
    let n = glyphs.len();
    let white = Pixel::white();
    let mut tws: Vec<usize> = Vec::new();
    let mut ths: Vec<usize> = Vec::new();
    let mut es: Vec<usize> = Vec::new();
    let mut ns: Vec<usize> = Vec::new();
    let mut total: usize = 0;
    let mut maxh: usize = 0;
    let mut k: usize = 0;
    while k < n
        invariant
            gs == glyphs@,
            n == gs.len(),
            forall|k2: int| 0 <= k2 < gs.len() ==> (#[trigger] gs[k2]).wf(),
            white == white_px(),
            k <= n,
            tws@.len() == k,
            ths@.len() == k,
            es@.len() == k,
            ns@.len() == k,
            forall|k2: int| 0 <= k2 < k ==> tws@[k2] as int == trim_w(gs[k2]),
            forall|k2: int| 0 <= k2 < k ==> ths@[k2] as int == trim_h(gs[k2]),
            forall|k2: int| 0 <= k2 < k ==> es@[k2] as int == east_of(&gs[k2], white_px()),
            forall|k2: int| 0 <= k2 < k ==> ns@[k2] as int == north_of(&gs[k2], white_px()),
            total as int == x_off(gs, k as int),
            maxh as int == max_h(gs, k as int),
        decreases n - k,
    {
        let g = &glyphs[k];
        let b = g.borders(white);
        let tw = if b.west <= g.width - b.east {
            g.width - b.east - b.west
        } else {
            0
        };
        let th = if b.south <= g.height - b.north {
            g.height - b.north - b.south
        } else {
            0
        };
        proof {
            assert(tw as int == trim_w(gs[k as int]));
            assert(th as int == trim_h(gs[k as int]));
        }
        let total2 = match total.checked_add(tw) {
            Some(t) => t,
            None => {
                proof {
                    lemma_x_off_mono(gs, k as int + 1, gs.len() as int);
                    lemma_max_h_mul(gs);
                }
                return Err("Output image too large.");
            },
        };
        let maxh2 = if th > maxh {
            th
        } else {
            maxh
        };
        tws.push(tw);
        ths.push(th);
        es.push(b.east);
        ns.push(b.north);
        total = total2;
        maxh = maxh2;
        k = k + 1;
    }
    let wh = match total.checked_mul(maxh) {
        Some(x) => x,
        None => {
            proof {
                lemma_wh_overflow(total as int, maxh as int);
            }
            return Err("Output image too large.");
        },
    };
    let _n3 = match wh.checked_mul(3) {
        Some(x) => x,
        None => {
            proof {
                lemma_wh3_assoc(total as int, maxh as int);
            }
            return Err("Output image too large.");
        },
    };
    proof {
        lemma_wh3_assoc(total as int, maxh as int);
    }
    let mut canvas = Image::fill(total, maxh, 255);
    let mut px: usize = 0;
    let mut k: usize = 0;
    while k < n
        invariant
            gs == glyphs@,
            n == gs.len(),
            forall|k2: int| 0 <= k2 < gs.len() ==> (#[trigger] gs[k2]).wf(),
            k <= n,
            tws@.len() == n,
            ths@.len() == n,
            es@.len() == n,
            ns@.len() == n,
            forall|k2: int| 0 <= k2 < n ==> tws@[k2] as int == trim_w(gs[k2]),
            forall|k2: int| 0 <= k2 < n ==> ths@[k2] as int == trim_h(gs[k2]),
            forall|k2: int| 0 <= k2 < n ==> es@[k2] as int == east_of(&gs[k2], white_px()),
            forall|k2: int| 0 <= k2 < n ==> ns@[k2] as int == north_of(&gs[k2], white_px()),
            canvas.wf(),
            canvas.width as int == total_w(gs),
            canvas.height as int == max_h(gs, gs.len() as int),
            px as int == x_off(gs, k as int),
            forall|k2: int, x: int, y: int|
                #![trigger x_off(gs, k2), canvas.pixel_spec(x, y)]
                0 <= k2 < k && x_off(gs, k2) <= x < x_off(gs, k2) + trim_w(gs[k2]) && 0 <= y
                    < trim_h(gs[k2]) ==> canvas.pixel_spec(x, y) == gs[k2].pixel_spec(
                    x - x_off(gs, k2) + east_of(&gs[k2], white_px()),
                    y + north_of(&gs[k2], white_px()),
                ),
            forall|x: int, y: int|
                px <= x < canvas.width && 0 <= y < canvas.height ==> canvas.pixel_spec(x, y)
                    == white_px(),
            forall|x: int, y: int|
                0 <= x < px && 0 <= y < canvas.height && !covered_upto(gs, k as int, x, y)
                    ==> canvas.pixel_spec(x, y) == white_px(),
        decreases n - k,
    {
        let g = &glyphs[k];
        let tw = tws[k];
        let th = ths[k];
        proof {
            lemma_trim_bounds(gs[k as int], white_px());
            lemma_x_off_mono(gs, k as int + 1, gs.len() as int);
            lemma_max_h_bounds(gs, k as int, gs.len() as int);
            if tw > 0 {
                assert(east_of(&gs[k as int], white_px()) + trim_w(gs[k as int]) <= gs[
                    k as int].width);
            }
            if th > 0 {
                assert(north_of(&gs[k as int], white_px()) + trim_h(gs[k as int]) <= gs[
                    k as int].height);
            }
        }
        let ghost canvas0 = canvas;
        blit(&mut canvas, g, es[k], ns[k], px, 0, tw, th);
        let px2 = px + tw;
        proof {
            let ki = k as int;
            assert forall|k2: int, x: int, y: int|
                #![trigger x_off(gs, k2), canvas.pixel_spec(x, y)]
                0 <= k2 < k + 1 && x_off(gs, k2) <= x < x_off(gs, k2) + trim_w(gs[k2]) && 0 <= y
                    < trim_h(gs[k2]) implies canvas.pixel_spec(x, y) == gs[k2].pixel_spec(
                x - x_off(gs, k2) + east_of(&gs[k2], white_px()),
                y + north_of(&gs[k2], white_px()),
            ) by {
                lemma_trim_bounds(gs[k2], white_px());
                lemma_max_h_bounds(gs, k2, gs.len() as int);
                if k2 == ki {
                    assert(canvas.pixel_spec(x, y) == gs[ki].pixel_spec(
                        x - px + es@[ki],
                        y + ns@[ki],
                    ));
                } else {
                    lemma_x_off_mono(gs, 0, k2);
                    lemma_x_off_mono(gs, k2 + 1, ki);
                    assert(x < px);
                    assert(canvas.pixel_spec(x, y) == canvas0.pixel_spec(x, y));
                }
            }
            assert forall|x: int, y: int|
                px2 <= x < canvas.width && 0 <= y < canvas.height implies canvas.pixel_spec(x, y)
                == white_px() by {
                assert(canvas.pixel_spec(x, y) == canvas0.pixel_spec(x, y));
            }
            assert forall|x: int, y: int|
                0 <= x < px2 && 0 <= y < canvas.height && !covered_upto(gs, ki + 1, x, y)
                    implies canvas.pixel_spec(x, y) == white_px() by {
                if x < px {
                    if covered_upto(gs, ki, x, y) {
                        let kw = choose|kw: int|
                            0 <= kw < ki && #[trigger] x_off(gs, kw) <= x < x_off(gs, kw)
                                + trim_w(gs[kw]) && 0 <= y < trim_h(gs[kw]);
                        assert(covered_upto(gs, ki + 1, x, y));
                    } else {
                        assert(canvas.pixel_spec(x, y) == canvas0.pixel_spec(x, y));
                    }
                } else {
                    if 0 <= y < th {
                        assert(x_off(gs, ki) <= x < x_off(gs, ki) + trim_w(gs[ki]) && 0 <= y
                            < trim_h(gs[ki]));
                        assert(covered_upto(gs, ki + 1, x, y));
                    } else {
                        assert(canvas.pixel_spec(x, y) == canvas0.pixel_spec(x, y));
                    }
                }
            }
        }
        px = px2;
        k = k + 1;
    }
    proof {
        assert forall|x: int, y: int|
            0 <= x < canvas.width && 0 <= y < canvas.height && !covered_upto(
                gs,
                gs.len() as int,
                x,
                y,
            ) implies canvas.pixel_spec(x, y) == white_px() by {
        }
    }
    Ok(canvas)
}

/// When the canvas width alone overflows, so does the full raster size.
proof fn lemma_max_h_mul(gs: Seq<Image>)
    ensures
        total_w(gs) > usize::MAX ==> (total_w(gs) > usize::MAX || total_w(gs) * max_h(
            gs,
            gs.len() as int,
        ) * 3 > usize::MAX),
{
}

proof fn lemma_wh_overflow(w: int, h: int)
    requires
        w >= 0,
        h >= 0,
        w * h > usize::MAX,
    ensures
        w * h * 3 > usize::MAX,
{
    assert(w * h * 3 >= w * h) by (nonlinear_arith)
        requires
            w >= 0,
            h >= 0,
    ;
}

proof fn lemma_wh3_assoc(w: int, h: int)
    requires
        w >= 0,
        h >= 0,
    ensures
        (w * h) * 3 == w * h * 3,
{
}

/// The PNG encoding of an RGB raster: a fixed function of the pixels and
/// dimensions alone.
pub uninterp spec fn png_of(pixels: Seq<u8>, width: nat, height: nat) -> Seq<u8>;

/// Relies on lodepng::encode24 encoding a raw RGB buffer, eight bits per
/// channel, as a PNG: the result is determined by the buffer and the
/// dimensions.
#[verifier::external_body]
fn encode_png(buf: &Vec<u8>, width: usize, height: usize) -> (r: Result<Vec<u8>, ()>)
    requires
        buf@.len() == width * height * 3,
    ensures
        r matches Ok(v) ==> v@ == png_of(buf@, width as nat, height as nat),
{
    match lodepng::encode24(&buf[..], width, height) {
        Ok(v) => Ok(v),
        Err(_) => Err(()),
    }
}

/// The standard base64 text of a byte sequence, with padding: four
/// characters for every three bytes.
pub uninterp spec fn base64_of(bytes: Seq<u8>) -> Seq<char>;

/// Relies on base64's STANDARD engine: the classic alphabet with padding,
/// so the text is determined by the bytes and four characters long for
/// every three bytes begun.
#[verifier::external_body]
pub fn to_base64(b: &Vec<u8>) -> (r: String)
    ensures
        r@ == base64_of(b@),
        b@.len() == 0 ==> r@.len() == 0,
        r@.len() == 4 * ((b@.len() + 2) / 3),
{
    base64::Engine::encode(&base64::engine::general_purpose::STANDARD, b)
}

impl Image {
    /// The image as PNG bytes.
    pub fn as_png(&self) -> (r: Result<Vec<u8>, &'static str>)
        requires
            self.wf(),
        ensures
            r matches Ok(v) ==> v@ == png_of(self.buf@, self.width as nat, self.height as nat),
    {
        match encode_png(&self.buf, self.width, self.height) {
            Ok(v) => Ok(v),
            Err(_) => Err("Could not encode image."),
        }
    }
}

/// Assembles rendered glyphs and encodes the result as a PNG.
pub fn captcha_png(glyphs: &Vec<Image>) -> (r: Result<Vec<u8>, &'static str>)
    requires
        glyphs@.len() >= 1,
        forall|k: int| 0 <= k < glyphs@.len() ==> (#[trigger] glyphs@[k]).wf(),
    ensures
        r matches Ok(v) ==> exists|img: Image|
            #[trigger] is_composition(glyphs@, img) && v@ == png_of(
                img.buf@,
                img.width as nat,
                img.height as nat,
            ),
        composition_oversized(glyphs@) ==> r is Err,
{
    let img = match do_image(glyphs) {
        Ok(img) => img,
        Err(e) => {
            return Err(e);
        },
    };
    match img.as_png() {
        Ok(v) => {
            proof {
                assert(is_composition(glyphs@, img) && v@ == png_of(
                    img.buf@,
                    img.width as nat,
                    img.height as nat,
                ));
            }
            Ok(v)
        },
        Err(e) => Err(e),
    }
}

// ---------------------------------------------------------------------------

/// The ranges the per-character render parameters are drawn from: rotation
/// in whole degrees, font size, and the colours and font families to pick
/// from.
pub struct CharConfig {
    pub min_angle: i32,
    pub max_angle: i32,
    pub min_size: usize,
    pub max_size: usize,
    pub colors: Vec<String>,
    pub fonts: Vec<String>,
}

/// The render parameters drawn for one character; what the drawing
/// primitive is asked to put on its canvas.
pub struct CharProperties {
    pub c: char,
    pub angle: i32,
    pub fontsize: usize,
    pub color: String,
    pub font: String,
}

/// The drawn parameters lie in the configured ranges; colour and font come
/// from the configured lists, or are the defaults when a list is empty.
pub open spec fn prop_ok(p: CharProperties, c: char, cc: &CharConfig) -> bool {
    &&& p.c == c
    &&& cc.min_angle <= p.angle <= cc.max_angle
    &&& cc.min_size <= p.fontsize <= cc.max_size
    &&& cc.colors@.len() > 0 ==> exists|j: int|
        0 <= j < cc.colors@.len() && p.color@ == (#[trigger] cc.colors@[j])@
    &&& cc.colors@.len() == 0 ==> p.color@ == ("black")@
    &&& cc.fonts@.len() > 0 ==> exists|j: int|
        0 <= j < cc.fonts@.len() && p.font@ == (#[trigger] cc.fonts@[j])@
    &&& cc.fonts@.len() == 0 ==> p.font@ == ("Verdana-Bold-Italic")@
}

/// Draws the render parameters for one character. `None` is returned
/// exactly when the randomness source fails.
fn sample_one(c: char, cc: &CharConfig) -> (r: Option<CharProperties>)
    requires
        cc.min_angle <= cc.max_angle,
        cc.min_size <= cc.max_size,
        cc.max_size < usize::MAX,
    ensures
        r matches Some(p) ==> prop_ok(p, c, cc),
{
    let r1 = match os_random_u32() {
        Some(r) => r,
        None => {
            return None;
        },
    };
    let r2 = match os_random_u32() {
        Some(r) => r,
        None => {
            return None;
        },
    };
    let r3 = match os_random_u32() {
        Some(r) => r,
        None => {
            return None;
        },
    };
    let r4 = match os_random_u32() {
        Some(r) => r,
        None => {
            return None;
        },
    };
    let span_a: i64 = (cc.max_angle as i64) - (cc.min_angle as i64) + 1;
    let angle: i32 = ((cc.min_angle as i64) + ((r1 as i64) % span_a)) as i32;
    let span_s: usize = cc.max_size - cc.min_size + 1;
    let fontsize: usize = cc.min_size + (r2 as usize) % span_s;
    let color = if cc.colors.len() > 0 {
        let j = (r3 as usize) % cc.colors.len();
        let co = cc.colors[j].clone();
        proof {
            assert(co@ == (cc.colors@[j as int])@);
        }
        co
    } else {
        String::from_str("black")
    };
    let font = if cc.fonts.len() > 0 {
        let j = (r4 as usize) % cc.fonts.len();
        let f = cc.fonts[j].clone();
        proof {
            assert(f@ == (cc.fonts@[j as int])@);
        }
        f
    } else {
        String::from_str("Verdana-Bold-Italic")
    };
    Some(CharProperties { c: c, angle: angle, fontsize: fontsize, color: color, font: font })
}

/// Draws independent render parameters for each character of the solution.
/// `None` is returned exactly when the randomness source fails.
pub fn sample_char_properties(chars: &Vec<char>, cc: &CharConfig) -> (r: Option<
    Vec<CharProperties>,
>)
    requires
        cc.min_angle <= cc.max_angle,
        cc.min_size <= cc.max_size,
        cc.max_size < usize::MAX,
    ensures
        r matches Some(v) ==> v@.len() == chars@.len() && forall|k: int|
            0 <= k < v@.len() ==> prop_ok(#[trigger] v@[k], chars@[k], cc),
{
    let mut out: Vec<CharProperties> = Vec::new();
    let mut k: usize = 0;
    while k < chars.len()
        invariant
            cc.min_angle <= cc.max_angle,
            cc.min_size <= cc.max_size,
            cc.max_size < usize::MAX,
            k <= chars@.len(),
            out@.len() == k,
            forall|k2: int| 0 <= k2 < k ==> prop_ok(#[trigger] out@[k2], chars@[k2], cc),
        decreases chars@.len() - k,
    {
        let props = match sample_one(chars[k], cc) {
            Some(p) => p,
            None => {
                return None;
            },
        };
        out.push(props);
        k = k + 1;
    }
    Some(out)
}

/// Distinct coordinates use disjoint byte triples.
proof fn lemma_pixel_index_distinct(w: int, x1: int, y1: int, x2: int, y2: int)
    requires
        0 <= x1 < w,
        0 <= x2 < w,
        0 <= y1,
        0 <= y2,
        x1 != x2 || y1 != y2,
    ensures
        y1 * w * 3 + x1 * 3 + 2 < y2 * w * 3 + x2 * 3 || y2 * w * 3 + x2 * 3 + 2 < y1 * w * 3 + x1
            * 3,
{
    assert(y1 * w * 3 + x1 * 3 + 2 < y2 * w * 3 + x2 * 3 || y2 * w * 3 + x2 * 3 + 2 < y1 * w * 3
        + x1 * 3) by (nonlinear_arith)
        requires
            0 <= x1 < w,
            0 <= x2 < w,
            0 <= y1,
            0 <= y2,
            x1 != x2 || y1 != y2,
    ;
}

} // verus!
