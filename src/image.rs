//! RGBA pixel buffers and the alpha-keyed, brightness-scaled blit.
use crate::geometry::Point2;
use vstd::prelude::*;

verus! {

/// Largest width or height of an image.
pub const IMAGE_LIMIT: usize = 0x4000;

/// Brightness factor that leaves colors as they are; factors are in 256ths.
pub const FULL_BRIGHTNESS: u32 = 256;

/// Alpha value of a solid pixel; every other alpha value is transparent.
pub const OPAQUE: u8 = 0xff;

/// Position of channel `c` of pixel `(x, y)` in a row-major RGBA buffer `w` pixels wide.
pub open spec fn idx(w: int, x: int, y: int, c: int) -> int {
    (y * w + x) * 4 + c
}

/// A color channel scaled by `factor` 256ths, rounded down.
pub open spec fn scaled(v: int, factor: int) -> int {
    v * factor / 256
}

pub proof fn lemma_idx_in_bounds(w: int, h: int, x: int, y: int, c: int)
    requires
        0 <= x < w,
        0 <= y < h,
        0 <= c < 4,
        w <= IMAGE_LIMIT,
        h <= IMAGE_LIMIT,
    ensures
        0 <= y * w + x < w * h,
        0 <= idx(w, x, y, c) < w * h * 4,
        w * h * 4 <= 0x4000_0000,
{
    assert(w * h <= 0x4000 * 0x4000) by (nonlinear_arith)
        requires
            0 <= w <= 0x4000,
            0 <= h <= 0x4000,
    ;
    assert(0 <= y * w) by (nonlinear_arith)
        requires
            0 <= y,
            0 <= w,
    ;
    assert(y * w + x < w * h) by (nonlinear_arith)
        requires
            0 <= x < w,
            0 <= y < h,
    ;
}

proof fn lemma_idx_distinct(w: int, x1: int, y1: int, c1: int, x2: int, y2: int, c2: int)
    requires
        0 <= x1 < w,
        0 <= x2 < w,
        0 <= y1,
        0 <= y2,
        0 <= c1 < 4,
        0 <= c2 < 4,
        idx(w, x1, y1, c1) == idx(w, x2, y2, c2),
    ensures
        x1 == x2 && y1 == y2 && c1 == c2,
{
    let a = y1 * w + x1;
    let b = y2 * w + x2;
    assert(a == b && c1 == c2);
    if y1 < y2 {
        assert(y1 * w + w <= y2 * w) by (nonlinear_arith)
            requires
                y1 < y2,
                0 <= w,
        ;
    } else if y2 < y1 {
        assert(y2 * w + w <= y1 * w) by (nonlinear_arith)
            requires
                y2 < y1,
                0 <= w,
        ;
    }
}

/// The mathematical state of an image: its bytes, row by row, four per pixel.
pub struct ImageState {
    pub data: Seq<u8>,
    pub width: int,
    pub height: int,
}

impl ImageState {
    pub open spec fn wf(self) -> bool {
        0 <= self.width <= IMAGE_LIMIT && 0 <= self.height <= IMAGE_LIMIT && self.data.len()
            == self.width * self.height * 4
    }

    pub open spec fn byte(self, x: int, y: int, c: int) -> u8 {
        self.data[idx(self.width, x, y, c)]
    }

    pub open spec fn contains(self, x: int, y: int) -> bool {
        0 <= x < self.width && 0 <= y < self.height
    }
}

/// Whether a blit of the `size` window at `src_pos` of `src` to `dest_pos`
/// puts a pixel at destination `(x, y)`: the window covers it, the source
/// pixel lies inside `src`, and that pixel is solid.
pub open spec fn copies(
    src: ImageState,
    dest_pos: Point2,
    src_pos: Point2,
    size: Point2,
    x: int,
    y: int,
) -> bool {
    let wx = x - dest_pos.x;
    let wy = y - dest_pos.y;
    let sx = src_pos.x + wx;
    let sy = src_pos.y + wy;
    &&& 0 <= wx < size.x
    &&& 0 <= wy < size.y
    &&& src.contains(sx, sy)
    &&& src.byte(sx, sy, 3) == OPAQUE
}

/// Channel `c` of source pixel `(sx, sy)` as written: color channels scaled
/// by `factor`, alpha as it is.
pub open spec fn written(src: ImageState, sx: int, sy: int, c: int, factor: int) -> u8 {
    if c < 3 {
        scaled(src.byte(sx, sy, c) as int, factor) as u8
    } else {
        src.byte(sx, sy, c)
    }
}

/// Window row `wy` is done, and in row `row` the columns before `col`.
pub open spec fn window_done(wx: int, wy: int, row: int, col: int) -> bool {
    wy < row || (wy == row && wx < col)
}

/// Channel `c` of destination pixel `(x, y)` once the window positions before
/// `(col, row)` have been drawn.
pub open spec fn blit_progress(
    dest: ImageState,
    src: ImageState,
    dest_pos: Point2,
    src_pos: Point2,
    size: Point2,
    factor: int,
    row: int,
    col: int,
    x: int,
    y: int,
    c: int,
) -> u8 {
    let wx = x - dest_pos.x;
    let wy = y - dest_pos.y;
    if copies(src, dest_pos, src_pos, size, x, y) && window_done(wx, wy, row, col) {
        written(src, src_pos.x + wx, src_pos.y + wy, c, factor)
    } else {
        dest.byte(x, y, c)
    }
}

/// Channel `c` of destination pixel `(x, y)` after the whole blit.
pub open spec fn blitted(
    dest: ImageState,
    src: ImageState,
    dest_pos: Point2,
    src_pos: Point2,
    size: Point2,
    factor: int,
    x: int,
    y: int,
    c: int,
) -> u8 {
    if copies(src, dest_pos, src_pos, size, x, y) {
        written(src, src_pos.x + x - dest_pos.x, src_pos.y + y - dest_pos.y, c, factor)
    } else {
        dest.byte(x, y, c)
    }
}

/// An RGBA image, four bytes per pixel, row by row.
pub struct Image {
    data: Vec<u8>,
    width: usize,
    height: usize,
}

impl View for Image {
    type V = ImageState;

    closed spec fn view(&self) -> ImageState {
        ImageState { data: self.data@, width: self.width as int, height: self.height as int }
    }
}

impl Image {
    /// Wraps pixel data of the given size; `None` when the data's length is
    /// not four bytes per pixel or a side exceeds `IMAGE_LIMIT`.
    pub fn new(data: Vec<u8>, width: usize, height: usize) -> (r: Option<Image>)
        ensures
            r is Some <==> (width <= IMAGE_LIMIT && height <= IMAGE_LIMIT && data@.len() == width
                * height * 4),
            r matches Some(img) ==> img@ == (ImageState {
                data: data@,
                width: width as int,
                height: height as int,
            }) && img@.wf(),
    {
        if width > IMAGE_LIMIT || height > IMAGE_LIMIT {
            return None;
        }
        assert(width * height <= IMAGE_LIMIT * IMAGE_LIMIT) by (nonlinear_arith)
            requires
                width <= IMAGE_LIMIT,
                height <= IMAGE_LIMIT,
        ;
        if data.len() != width * height * 4 {
            return None;
        }
        Some(Image { data, width, height })
    }

    /// A transparent image of the given size.
    pub fn blank(width: usize, height: usize) -> (r: Image)
        requires
            width <= IMAGE_LIMIT,
            height <= IMAGE_LIMIT,
        ensures
            r@.wf(),
            r@.width == width,
            r@.height == height,
            forall|i: int| 0 <= i < r@.data.len() ==> r@.data[i] == 0,
    {
        assert(width * height <= IMAGE_LIMIT * IMAGE_LIMIT) by (nonlinear_arith)
            requires
                width <= IMAGE_LIMIT,
                height <= IMAGE_LIMIT,
        ;
        let n = width * height * 4;
        let mut data: Vec<u8> = Vec::with_capacity(n);
        let mut i: usize = 0;
        while i < n
            invariant
                i <= n,
                data@.len() == i,
                forall|j: int| 0 <= j < i ==> data@[j] == 0,
            decreases n - i,
        {
            data.push(0);
            i += 1;
        }
        Image { data, width, height }
    }

    pub fn width(&self) -> (r: usize)
        ensures
            r == self@.width,
    {
        self.width
    }

    pub fn height(&self) -> (r: usize)
        ensures
            r == self@.height,
    {
        self.height
    }

    /// The pixel bytes, row by row.
    pub fn data(&self) -> (r: &Vec<u8>)
        ensures
            r@ == self@.data,
    {
        &self.data
    }
}

/// A channel scaled by a brightness `factor` in 256ths.
pub fn scale_channel(v: u8, factor: u32) -> (r: u8)
    requires
        factor <= FULL_BRIGHTNESS,
    ensures
        r == scaled(v as int, factor as int),
{
    assert(v as int * factor as int <= 255 * 256) by (nonlinear_arith)
        requires
            v <= 255,
            factor <= 256,
    ;
    assert(0 <= v as int * factor as int) by (nonlinear_arith);
    let p: u32 = v as u32 * factor;
    (p / 256) as u8
}

/// An RGBA color.
#[derive(Clone, Copy, Debug, PartialEq, Eq, Structural)]
pub struct Rgba {
    pub r: u8,
    pub g: u8,
    pub b: u8,
    pub a: u8,
}

/// Scales the color channels by `factor` 256ths, keeping alpha.
pub fn color_multiply(color: Rgba, factor: u32) -> (r: Rgba)
    requires
        factor <= FULL_BRIGHTNESS,
    ensures
        r.r == scaled(color.r as int, factor as int),
        r.g == scaled(color.g as int, factor as int),
        r.b == scaled(color.b as int, factor as int),
        r.a == color.a,
{
    Rgba {
        r: scale_channel(color.r, factor),
        g: scale_channel(color.g, factor),
        b: scale_channel(color.b, factor),
        a: color.a,
    }
}

/// Copies the `size` window of `src` at `src_pos` to `dest_pos` in `dest`.
/// Only solid source pixels are drawn, their colors scaled by `factor`
/// 256ths. Parts of the window outside either image are skipped, whatever the
/// offsets (negative ones included); nothing outside `dest` is written.
pub fn blit(
    dest: &mut Image,
    dest_pos: Point2,
    src: &Image,
    src_pos: Point2,
    size: Point2,
    factor: u32,
)
    requires
        old(dest)@.wf(),
        src@.wf(),
        dest_pos.wf(),
        src_pos.wf(),
        0 <= size.x <= src@.width,
        0 <= size.y <= src@.height,
        size.x <= old(dest)@.width,
        size.y <= old(dest)@.height,
        factor <= FULL_BRIGHTNESS,
    ensures
        final(dest)@.wf(),
        final(dest)@.width == old(dest)@.width,
        final(dest)@.height == old(dest)@.height,
        forall|x: int, y: int, c: int|
            old(dest)@.contains(x, y) && 0 <= c < 4 ==> #[trigger] final(dest)@.byte(x, y, c)
                == blitted(old(dest)@, src@, dest_pos, src_pos, size, factor as int, x, y, c),
{
    let ghost d0 = dest@;
    let sw = src.width as i64;
    let sh = src.height as i64;
    let dw = dest.width as i64;
    let dh = dest.height as i64;
    let mut wy: i64 = 0;
    while wy < size.y
        invariant
            0 <= wy <= size.y,
            d0.wf(),
            src@.wf(),
            dest_pos.wf(),
            src_pos.wf(),
            0 <= size.x <= src@.width,
            0 <= size.y <= src@.height,
            size.x <= d0.width,
            size.y <= d0.height,
            factor <= FULL_BRIGHTNESS,
            sw == src@.width,
            sh == src@.height,
            dw == d0.width,
            dh == d0.height,
            dest@.width == d0.width,
            dest@.height == d0.height,
            dest@.data.len() == d0.data.len(),
            forall|x: int, y: int, c: int|
                d0.contains(x, y) && 0 <= c < 4 ==> #[trigger] dest@.byte(x, y, c)
                    == blit_progress(d0, src@, dest_pos, src_pos, size, factor as int, wy as int, 0, x, y, c),
        decreases size.y - wy,
    {
        let mut wx: i64 = 0;
        while wx < size.x
            invariant
                0 <= wx <= size.x,
                0 <= wy < size.y,
                d0.wf(),
                src@.wf(),
                dest_pos.wf(),
                src_pos.wf(),
                0 <= size.x <= src@.width,
                0 <= size.y <= src@.height,
                size.x <= d0.width,
                size.y <= d0.height,
                factor <= FULL_BRIGHTNESS,
                sw == src@.width,
                sh == src@.height,
                dw == d0.width,
                dh == d0.height,
                dest@.width == d0.width,
                dest@.height == d0.height,
                dest@.data.len() == d0.data.len(),
                forall|x: int, y: int, c: int|
                    d0.contains(x, y) && 0 <= c < 4 ==> #[trigger] dest@.byte(x, y, c)
                        == blit_progress(
                        d0,
                        src@,
                        dest_pos,
                        src_pos,
                        size,
                        factor as int,
                        wy as int,
                        wx as int,
                        x,
                        y,
                        c,
                    ),
            decreases size.x - wx,
        {
            let sx = src_pos.x + wx;
            let sy = src_pos.y + wy;
            let dx = dest_pos.x + wx;
            let dy = dest_pos.y + wy;
            let ghost before = dest@;
            if 0 <= sx && sx < sw && 0 <= sy && sy < sh && 0 <= dx && dx < dw && 0 <= dy && dy
                < dh {
                proof {
                    lemma_idx_in_bounds(sw as int, sh as int, sx as int, sy as int, 3);
                    lemma_idx_in_bounds(dw as int, dh as int, dx as int, dy as int, 3);
                }
                let si = ((sy as usize) * src.width + sx as usize) * 4;
                if src.data[si + 3] == OPAQUE {
                    let di = ((dy as usize) * dest.width + dx as usize) * 4;
                    let c0 = scale_channel(src.data[si], factor);
                    let c1 = scale_channel(src.data[si + 1], factor);
                    let c2 = scale_channel(src.data[si + 2], factor);
                    dest.data[di] = c0;
                    dest.data[di + 1] = c1;
                    dest.data[di + 2] = c2;
                    dest.data[di + 3] = OPAQUE;
                    proof {
                        assert(di == idx(dw as int, dx as int, dy as int, 0));
                        assert(di + 1 == idx(dw as int, dx as int, dy as int, 1));
                        assert(di + 2 == idx(dw as int, dx as int, dy as int, 2));
                        assert(di + 3 == idx(dw as int, dx as int, dy as int, 3));
                        assert forall|x: int, y: int, c: int|
                            d0.contains(x, y) && 0 <= c < 4 implies #[trigger] dest@.byte(x, y, c)
                            == blit_progress(
                            d0,
                            src@,
                            dest_pos,
                            src_pos,
                            size,
                            factor as int,
                            wy as int,
                            wx + 1,
                            x,
                            y,
                            c,
                        ) by {
                            lemma_idx_in_bounds(dw as int, dh as int, x, y, c);
                            if x == dx && y == dy {
                                assert(idx(dw as int, x, y, c) == di + c);
                            } else {
                                assert forall|k: int| 0 <= k < 4 implies idx(dw as int, x, y, c)
                                    != idx(dw as int, dx as int, dy as int, k) by {
                                    if idx(dw as int, x, y, c) == idx(
                                        dw as int,
                                        dx as int,
                                        dy as int,
                                        k,
                                    ) {
                                        lemma_idx_distinct(
                                            dw as int,
                                            x,
                                            y,
                                            c,
                                            dx as int,
                                            dy as int,
                                            k,
                                        );
                                    }
                                }
                                assert(idx(dw as int, x, y, c) != di);
                                assert(idx(dw as int, x, y, c) != di + 1);
                                assert(idx(dw as int, x, y, c) != di + 2);
                                assert(idx(dw as int, x, y, c) != di + 3);
                                assert(dest@.byte(x, y, c) == before.byte(x, y, c));
                            }
                        }
                    }
                }
            }
            wx += 1;
        }
        wy += 1;
    }
}

} // verus!
