//! Pixel-buffer rasterizer: frame clear, disk fill with a degenerate-disk
//! fallback, bounds-checked pixel plot, and the affine range transform used
//! to turn physical quantities into 8-bit color channels.

use vstd::prelude::*;
use crate::num::{SCALE, rdiv, lemma_rdiv_err, lemma_rdiv_bounds, div_round};
use crate::disk::Disk;

verus! {

/// Largest accepted frame dimension.
pub const MAX_DIM: usize = 16384;

/// Magnitude bound on the arguments of `map_to_range`.
pub const MAP_LIMIT: i64 = 1_000_000_000;

/// Magnitude bound on the arguments of `map_to_channel`.
pub const CHANNEL_MAP_LIMIT: i64 = 1_000_000_000_000;

/// One RGBA pixel.
#[derive(Clone, Copy, PartialEq, Eq, Structural, Debug)]
pub struct Rgba {
    pub r: u8,
    pub g: u8,
    pub b: u8,
    pub a: u8,
}

/// A row-major frame buffer of RGBA pixels.
pub struct Frame {
    pub width: usize,
    pub height: usize,
    pub pixels: Vec<Rgba>,
}

impl Frame {
    /// Well-formed: bounded dimensions and exactly one pixel per cell.
    pub open spec fn wf(self) -> bool {
        &&& self.width <= MAX_DIM
        &&& self.height <= MAX_DIM
        &&& self.pixels.len() == self.width * self.height
    }

    /// A fresh frame with every pixel set to `fill`.
    pub fn new(width: usize, height: usize, fill: Rgba) -> (r: Frame)
        requires
            width <= MAX_DIM,
            height <= MAX_DIM,
        ensures
            r.wf(),
            r.width == width,
            r.height == height,
            forall|i: int| 0 <= i < r.pixels.len() ==> r.pixels[i] == fill,
    {
        proof {
            lemma_frame_cells(width as int, height as int);
        }
        let n: usize = width * height;
        let mut pixels: Vec<Rgba> = Vec::new();
        let mut i: usize = 0;
        while i < n
            invariant
                i <= n,
                pixels.len() == i,
                forall|j: int| 0 <= j < i ==> pixels[j] == fill,
            decreases n - i,
        {
            pixels.push(fill);
            i = i + 1;
        }
        Frame { width, height, pixels }
    }
}

/// The number of cells of a bounded frame fits comfortably in a `usize`.
pub proof fn lemma_frame_cells(w: int, h: int)
    requires
        0 <= w <= MAX_DIM,
        0 <= h <= MAX_DIM,
    ensures
        0 <= w * h <= 0x10000000,
{
    assert(0 <= w * h <= 0x10000000) by (nonlinear_arith)
        requires
            0 <= w <= 16384,
            0 <= h <= 16384,
    ;
}

/// A row-major pixel index stays within the frame.
proof fn lemma_pixel_index(row: int, col: int, w: int, h: int)
    requires
        0 <= row < h,
        0 <= col < w,
        w <= MAX_DIM,
        h <= MAX_DIM,
    ensures
        0 <= row * w + col < w * h,
        row * w + col <= 0x10000000,
{
    assert(0 <= row * w + col < w * h && row * w + col <= 0x10000000) by (nonlinear_arith)
        requires
            0 <= row < h,
            0 <= col < w,
            w <= 16384,
            h <= 16384,
    ;
}

/// A frame's contents with every pixel set to one color.
pub open spec fn filled(len: nat, color: Rgba) -> Seq<Rgba> {
    Seq::new(len, |i: int| color)
}

/// Overwrite every pixel of the frame with `color`.
pub fn clear_frame(color: &Rgba, frame: &mut Frame)
    requires
        old(frame).wf(),
    ensures
        final(frame).wf(),
        final(frame).width == old(frame).width,
        final(frame).height == old(frame).height,
        final(frame).pixels.len() == old(frame).pixels.len(),
        final(frame).pixels@ == filled(old(frame).pixels@.len(), *color),
        forall|i: int| 0 <= i < final(frame).pixels.len() ==> final(frame).pixels[i] == *color,
{
    let n: usize = frame.pixels.len();
    let mut i: usize = 0;
    while i < n
        invariant
            i <= n,
            n == frame.pixels.len(),
            frame.width == old(frame).width,
            frame.height == old(frame).height,
            frame.wf(),
            forall|j: int| 0 <= j < i ==> frame.pixels[j] == *color,
        decreases n - i,
    {
        frame.pixels[i] = *color;
        i = i + 1;
    }
    proof {
        assert forall|j: int| 0 <= j < frame.pixels@.len() implies frame.pixels@[j] == filled(
            frame.pixels@.len(),
            *color,
        )[j] by {}
        assert(frame.pixels@ =~= filled(frame.pixels@.len(), *color));
    }
}

/// Write one pixel if `(x, y)` lies within the frame; off-screen targets
/// are silently dropped.
pub fn set_pixel(x: usize, y: usize, color: &Rgba, frame: &mut Frame)
    requires
        old(frame).wf(),
    ensures
        final(frame).wf(),
        final(frame).width == old(frame).width,
        final(frame).height == old(frame).height,
        final(frame).pixels.len() == old(frame).pixels.len(),
        x < old(frame).width && y < old(frame).height ==> final(frame).pixels@ == old(
            frame,
        ).pixels@.update(y * old(frame).width + x, *color),
        !(x < old(frame).width && y < old(frame).height) ==> final(frame).pixels@ == old(
            frame,
        ).pixels@,
{
    if x >= frame.width || y >= frame.height {
        return ;
    }
    proof {
        lemma_pixel_index(y as int, x as int, frame.width as int, frame.height as int);
    }
    let idx: usize = y * frame.width + x;
    frame.pixels[idx] = *color;
}

/// Round-to-nearest division extended to negative divisors.
pub open spec fn rdiv_any(a: int, b: int) -> int {
    if b > 0 {
        rdiv(a, b)
    } else {
        rdiv(-a, -b)
    }
}

/// The affine range transform `((v - a) / (b - a)) * (d - c) + c`, with the
/// quotient rounded to the nearest grid point (halves away from zero).
pub open spec fn map_range_spec(v: int, a: int, b: int, c: int, d: int) -> int {
    rdiv_any((v - a) * (d - c), b - a) + c
}

/// `rdiv_any` errs from the exact quotient by at most half the divisor.
pub proof fn lemma_rdiv_any_err(a: int, b: int)
    requires
        b != 0,
    ensures
        -vstd::math::abs(b) <= 2 * b * rdiv_any(a, b) - 2 * a <= vstd::math::abs(b),
{
    if b > 0 {
        lemma_rdiv_err(a, b);
    } else {
        lemma_rdiv_err(-a, -b);
        let q = rdiv(-a, -b);
        assert(2 * (-b) * q - 2 * (-a) == -(2 * b * q - 2 * a)) by (nonlinear_arith);
    }
}

/// The rounded quotient never exceeds the dividend in magnitude.
pub proof fn lemma_rdiv_any_bounds(a: int, b: int)
    requires
        b != 0,
    ensures
        a >= 0 ==> 0 <= rdiv_any(a, b) * sign(b) <= a,
        a < 0 ==> a <= rdiv_any(a, b) * sign(b) <= 0,
        -vstd::math::abs(a) <= rdiv_any(a, b) <= vstd::math::abs(a),
{
    if b > 0 {
        lemma_rdiv_bounds(a, b);
    } else {
        lemma_rdiv_bounds(-a, -b);
    }
}

/// The sign of a nonzero integer.
pub open spec fn sign(b: int) -> int {
    if b > 0 {
        1
    } else {
        -1
    }
}

/// Mapping a value through the affine range transform and back returns to
/// within the tolerance set by the two rounding steps: the round-trip
/// error, scaled by twice the target range width, is at most the sum of
/// the two range widths. In particular, when the source range is no wider
/// than the target range, the round trip lands within one grid unit.
pub proof fn lemma_map_range_round_trip(v: int, a: int, b: int, c: int, d: int)
    requires
        a != b,
        c != d,
    ensures
        ({
            let w = map_range_spec(v, a, b, c, d);
            let rt = map_range_spec(w, c, d, a, b);
            -(vstd::math::abs(b - a) + vstd::math::abs(d - c)) <= 2 * (d - c) * (rt - v) <= vstd::math::abs(
                b - a,
            ) + vstd::math::abs(d - c)
        }),
        ({
            let w = map_range_spec(v, a, b, c, d);
            let rt = map_range_spec(w, c, d, a, b);
            vstd::math::abs(b - a) <= vstd::math::abs(d - c) ==> -1 <= rt - v <= 1
        }),
{
    let d1 = b - a;
    let d2 = d - c;
    let n1 = (v - a) * d2;
    let q1 = rdiv_any(n1, d1);
    let w = map_range_spec(v, a, b, c, d);
    assert(w == q1 + c);
    let n2 = (w - c) * d1;
    let q2 = rdiv_any(n2, d2);
    let rt = map_range_spec(w, c, d, a, b);
    assert(rt == q2 + a);
    lemma_rdiv_any_err(n1, d1);
    lemma_rdiv_any_err(n2, d2);
    let e1 = 2 * d1 * q1 - 2 * n1;
    let e2 = 2 * d2 * q2 - 2 * n2;
    assert(n2 == q1 * d1);
    assert(2 * d2 * (rt - v) == e1 + e2) by (nonlinear_arith)
        requires
            rt == q2 + a,
            n1 == (v - a) * d2,
            n2 == q1 * d1,
            e1 == 2 * d1 * q1 - 2 * n1,
            e2 == 2 * d2 * q2 - 2 * n2,
    ;
    if vstd::math::abs(d1) <= vstd::math::abs(d2) {
        let x = rt - v;
        assert(-1 <= x <= 1) by (nonlinear_arith)
            requires
                d2 != 0,
                -2 * vstd::math::abs(d2) <= 2 * d2 * x <= 2 * vstd::math::abs(d2),
                vstd::math::abs(d2) == if d2 > 0 {
                    d2
                } else {
                    -d2
                },
        ;
    }
}

/// The affine range transform on machine integers: exact fixed-point
/// arithmetic with the quotient rounded to nearest, halves away from zero.
pub fn map_to_range(value: i64, from_low: i64, from_high: i64, to_low: i64, to_high: i64) -> (r:
    i64)
    requires
        from_low != from_high,
        -MAP_LIMIT <= value <= MAP_LIMIT,
        -MAP_LIMIT <= from_low <= MAP_LIMIT,
        -MAP_LIMIT <= from_high <= MAP_LIMIT,
        -MAP_LIMIT <= to_low <= MAP_LIMIT,
        -MAP_LIMIT <= to_high <= MAP_LIMIT,
    ensures
        r == map_range_spec(value as int, from_low as int, from_high as int, to_low as int, to_high as int),
{
    let dv: i64 = value - from_low;
    let dr: i64 = to_high - to_low;
    proof {
        let big: int = 4_000_000_000_000_000_000;
        assert(-big <= (dv as int) * (dr as int) <= big) by (nonlinear_arith)
            requires
                -2_000_000_000 <= dv <= 2_000_000_000,
                -2_000_000_000 <= dr <= 2_000_000_000,
                big == 4_000_000_000_000_000_000,
        ;
    }
    let num: i128 = (dv as i128) * (dr as i128);
    let den: i64 = from_high - from_low;
    proof {
        lemma_rdiv_any_bounds(num as int, den as int);
    }
    let q: i128 = if den > 0 {
        div_round(num, den as i128)
    } else {
        div_round(-num, (-den) as i128)
    };
    (q as i64) + to_low
}

/// Clamped 8-bit channel value of a fixed-point quantity: round to the
/// nearest whole unit, then clamp to `[0, 255]`.
pub open spec fn channel_spec(v: int) -> int {
    let u = rdiv(v, SCALE as int);
    if u < 0 {
        0
    } else if u > 255 {
        255
    } else {
        u
    }
}

/// Map a physical quantity through the affine range transform and reduce
/// it to an 8-bit color channel.
pub fn map_to_channel(value: i64, from_low: i64, from_high: i64, to_low: i64, to_high: i64) -> (r:
    u8)
    requires
        from_low != from_high,
        -CHANNEL_MAP_LIMIT <= value <= CHANNEL_MAP_LIMIT,
        -CHANNEL_MAP_LIMIT <= from_low <= CHANNEL_MAP_LIMIT,
        -CHANNEL_MAP_LIMIT <= from_high <= CHANNEL_MAP_LIMIT,
        -CHANNEL_MAP_LIMIT <= to_low <= CHANNEL_MAP_LIMIT,
        -CHANNEL_MAP_LIMIT <= to_high <= CHANNEL_MAP_LIMIT,
    ensures
        r as int == channel_spec(
            map_range_spec(value as int, from_low as int, from_high as int, to_low as int, to_high as int),
        ),
{
    let dv: i64 = value - from_low;
    let dr: i64 = to_high - to_low;
    proof {
        let big: int = 8_000_000_000_000_000_000_000_000;
        assert(-big <= (dv as int) * (dr as int) <= big) by (nonlinear_arith)
            requires
                -2_000_000_000_000 <= dv <= 2_000_000_000_000,
                -2_000_000_000_000 <= dr <= 2_000_000_000_000,
                big == 8_000_000_000_000_000_000_000_000,
        ;
    }
    let num: i128 = (dv as i128) * (dr as i128);
    let den: i64 = from_high - from_low;
    proof {
        lemma_rdiv_any_bounds(num as int, den as int);
    }
    let q: i128 = if den > 0 {
        div_round(num, den as i128)
    } else {
        div_round(-num, (-den) as i128)
    };
    let mapped: i128 = q + (to_low as i128);
    proof {
        lemma_rdiv_bounds(mapped as int, SCALE as int);
    }
    let u: i128 = div_round(mapped, SCALE as i128);
    if u < 0 {
        0
    } else if u > 255 {
        255
    } else {
        u as u8
    }
}

/// Whether the center of the pixel at `(row, col)` lies strictly inside
/// the disk (pixel coordinates are whole world units).
pub open spec fn covers(d: Disk, row: int, col: int) -> bool {
    d.contains(col * SCALE, row * SCALE)
}

/// Whether the pixel with row-major index `i` of a frame `w` pixels wide
/// is covered by the disk.
pub open spec fn covers_at(d: Disk, w: int, i: int) -> bool {
    covers(d, i / w, i % w)
}

/// The disk center rounded to the nearest pixel row.
pub open spec fn center_row(d: Disk) -> int {
    rdiv(d.center.y as int, SCALE as int)
}

/// The disk center rounded to the nearest pixel column.
pub open spec fn center_col(d: Disk) -> int {
    rdiv(d.center.x as int, SCALE as int)
}

/// The value of one pixel after the scan has visited the first `k` cells:
/// the fill color where the scan has already reached a covered cell.
pub open spec fn painted_at(d: Disk, w: int, po: Seq<Rgba>, color: Rgba, k: int, i: int) -> Rgba {
    if i < k && covers_at(d, w, i) {
        color
    } else {
        po[i]
    }
}

/// The frame contents after the scan has visited the first `k` cells.
pub open spec fn paint_upto(d: Disk, w: int, po: Seq<Rgba>, color: Rgba, k: int) -> Seq<Rgba> {
    Seq::new(po.len(), |i: int| painted_at(d, w, po, color, k, i))
}

/// Whether the disk covers any of the first `k` pixels of the frame.
pub open spec fn hit_before(d: Disk, w: int, k: int) -> bool
    decreases k,
{
    if k <= 0 {
        false
    } else {
        hit_before(d, w, k - 1) || covers_at(d, w, k - 1)
    }
}

/// The frame contents after `draw_circle`: every covered pixel takes the
/// fill color; when no pixel at all is covered, the rounded center pixel
/// alone is plotted, if it lies in bounds.
pub open spec fn painted_pixels(d: Disk, w: int, h: int, po: Seq<Rgba>, color: Rgba) -> Seq<
    Rgba,
> {
    let scanned = paint_upto(d, w, po, color, w * h);
    if !hit_before(d, w, w * h) && 0 <= center_col(d) < w && 0 <= center_row(d) < h {
        scanned.update(center_row(d) * w + center_col(d), color)
    } else {
        scanned
    }
}

/// A covered pixel that the scan has reached makes `hit_before` true.
pub proof fn lemma_hit_before_covered(d: Disk, w: int, k: int, j: int)
    requires
        0 <= j < k,
        covers_at(d, w, j),
    ensures
        hit_before(d, w, k),
    decreases k,
{
    if j < k - 1 {
        lemma_hit_before_covered(d, w, k - 1, j);
    }
}

/// When `hit_before` is false, no reached pixel is covered.
pub proof fn lemma_hit_before_none(d: Disk, w: int, k: int, j: int)
    requires
        !hit_before(d, w, k),
        0 <= j < k,
    ensures
        !covers_at(d, w, j),
    decreases k,
{
    if j < k - 1 {
        lemma_hit_before_none(d, w, k - 1, j);
    }
}

/// Fill the disk into the frame: every pixel whose center lies strictly
/// inside the disk gets `color`; if the scan covers no pixel at all (a
/// degenerate disk), the rounded-to-nearest center pixel is plotted
/// instead, if it is in bounds. All other pixels keep their previous
/// value.
#[verifier::loop_isolation(false)]
pub fn draw_circle(circle: &Disk, color: &Rgba, frame: &mut Frame)
    requires
        old(frame).wf(),
        circle.wf(),
    ensures
        final(frame).wf(),
        final(frame).width == old(frame).width,
        final(frame).height == old(frame).height,
        final(frame).pixels@ == painted_pixels(
            *circle,
            old(frame).width as int,
            old(frame).height as int,
            old(frame).pixels@,
            *color,
        ),
{
    let ghost w = old(frame).width as int;
    let ghost h = old(frame).height as int;
    let ghost po = old(frame).pixels@;
    let width: usize = frame.width;
    let n: usize = frame.pixels.len();
    let mut any_painted: bool = false;
    let mut i: usize = 0;
    while i < n
        invariant
            frame.wf(),
            frame.width == old(frame).width,
            frame.height == old(frame).height,
            width == frame.width,
            frame.pixels.len() == n,
            n == po.len(),
            i <= n,
            frame.pixels@ == paint_upto(*circle, w, po, *color, i as int),
            any_painted == hit_before(*circle, w, i as int),
        decreases n - i,
    {
        proof {
            assert(n == w * h);
            assert(w >= 1 && h >= 1) by (nonlinear_arith)
                requires
                    w * h >= 1,
                    w >= 0,
                    h >= 0,
            ;
        }
        let col: usize = i % width;
        let row: usize = i / width;
        proof {
            vstd::arithmetic::div_mod::lemma_fundamental_div_mod(i as int, w);
            vstd::arithmetic::div_mod::lemma_mod_division_less_than_divisor(i as int, w);
            assert((row as int) < h) by (nonlinear_arith)
                requires
                    i as int == w * (row as int) + (col as int),
                    0 <= (col as int) < w,
                    (i as int) < w * h,
                    w >= 1,
                    h >= 0,
            ;
        }
        let inside = circle.contains_point((col as i64) * SCALE, (row as i64) * SCALE);
        if inside {
            frame.pixels[i] = *color;
            any_painted = true;
        }
        proof {
            assert(covers_at(*circle, w, i as int) == circle.contains(
                (col as int) * SCALE,
                (row as int) * SCALE,
            ));
            assert(frame.pixels@ =~= paint_upto(*circle, w, po, *color, i as int + 1));
            assert(hit_before(*circle, w, i as int + 1) == (hit_before(*circle, w, i as int)
                || covers_at(*circle, w, i as int)));
        }
        i = i + 1;
    }
    if !any_painted {
        let cc: i64 = crate::num::round_units(circle.center.x);
        let cr: i64 = crate::num::round_units(circle.center.y);
        if cc >= 0 && cr >= 0 && cc < width as i64 && cr < frame.height as i64 {
            proof {
                lemma_pixel_index(cr as int, cc as int, w, h);
            }
            let idx: usize = (cr as usize) * width + (cc as usize);
            frame.pixels[idx] = *color;
        }
    }
}

} // verus!