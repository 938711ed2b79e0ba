//! The tray icon's picture and tooltip.
//!
//! The icon is a 64x64 RGBA image held as 16384 bytes, row by row. Every
//! drawing step paints a set of pixels in one colour; the specifications
//! describe each step by the set of pixels it paints.

use vstd::prelude::*;
use vstd::string::*;

use crate::state::AppState;

verus! {

/// Width and height of the icon, in pixels.
pub const ICON_SIZE: usize = 64;

/// Bytes in the icon buffer.
pub open spec fn icon_bytes() -> int {
    16384
}

/// The column of the pixel that byte `i` belongs to.
pub open spec fn px(i: int) -> int {
    (i / 4) % 64
}

/// The row of the pixel that byte `i` belongs to.
pub open spec fn py(i: int) -> int {
    (i / 4) / 64
}

/// `img` with every pixel whose coordinates satisfy `p` set to `color`.
pub open spec fn paint(img: Seq<u8>, p: spec_fn(int, int) -> bool, color: Seq<u8>) -> Seq<u8> {
    Seq::new(img.len(), |i: int| if p(px(i), py(i)) { color[i % 4] } else { img[i] })
}

/// Painting twice in one colour paints the union.
pub proof fn lemma_paint_twice(
    img: Seq<u8>,
    p: spec_fn(int, int) -> bool,
    q: spec_fn(int, int) -> bool,
    color: Seq<u8>,
)
    ensures
        paint(paint(img, p, color), q, color) == paint(img, |x: int, y: int| p(x, y) || q(x, y), color),
{
    assert(paint(paint(img, p, color), q, color) =~= paint(
        img,
        |x: int, y: int| p(x, y) || q(x, y),
        color,
    ));
}

/// Painting a set with no pixel inside the icon changes nothing.
pub proof fn lemma_paint_nothing(img: Seq<u8>, p: spec_fn(int, int) -> bool, color: Seq<u8>)
    requires
        img.len() == icon_bytes(),
        forall|x: int, y: int| 0 <= x < 64 && 0 <= y < 64 ==> !#[trigger] p(x, y),
    ensures
        paint(img, p, color) == img,
{
    assert forall|i: int| 0 <= i < img.len() implies #[trigger] paint(img, p, color)[i] == img[i] by {
        lemma_pixel_coords_in_range(i);
        assert(!p(px(i), py(i)));
    }
    assert(paint(img, p, color) =~= img);
}

proof fn lemma_paint_ext(img: Seq<u8>, p: spec_fn(int, int) -> bool, q: spec_fn(int, int) -> bool, color: Seq<u8>)
    requires
        img.len() == icon_bytes(),
        forall|x: int, y: int| 0 <= x < 64 && 0 <= y < 64 ==> (#[trigger] p(x, y) == q(x, y)),
    ensures
        paint(img, p, color) == paint(img, q, color),
{
    assert forall|i: int| 0 <= i < img.len() implies #[trigger] paint(img, p, color)[i] == paint(
        img,
        q,
        color,
    )[i] by {
        lemma_pixel_coords_in_range(i);
        assert(p(px(i), py(i)) == q(px(i), py(i)));
    }
    assert(paint(img, p, color) =~= paint(img, q, color));
}

proof fn lemma_pixel_coords_in_range(i: int)
    requires
        0 <= i < icon_bytes(),
    ensures
        0 <= px(i) < 64,
        0 <= py(i) < 64,
{
}

proof fn lemma_pixel_bytes(x: int, y: int, k: int)
    requires
        0 <= x < 64,
        0 <= y,
        0 <= k < 4,
    ensures
        px(4 * (64 * y + x) + k) == x,
        py(4 * (64 * y + x) + k) == y,
        (4 * (64 * y + x) + k) % 4 == k,
{
    assert((4 * (64 * y + x) + k) / 4 == 64 * y + x);
    assert((64 * y + x) % 64 == x);
    assert((64 * y + x) / 64 == y);
}

proof fn lemma_byte_of_pixel(i: int)
    requires
        0 <= i,
    ensures
        i == 4 * (64 * py(i) + px(i)) + i % 4,
{
}

// ---------------------------------------------------------------- pixels

/// Sets one pixel; pixels outside the icon are ignored.
fn set_pixel(buf: &mut Vec<u8>, x: usize, y: usize, color: [u8; 4])
    requires
        old(buf)@.len() == icon_bytes(),
    ensures
        final(buf)@ == paint(old(buf)@, |a: int, b: int| a == x && b == y, color@),
{
    if x >= 64 || y >= 64 {
        proof {
            lemma_paint_nothing(old(buf)@, |a: int, b: int| a == x && b == y, color@);
        }
        return;
    }
    let idx = (y * 64 + x) * 4;
    let ghost target = paint(old(buf)@, |a: int, b: int| a == x && b == y, color@);
    let mut k: usize = 0;
    while k < 4
        invariant
            x < 64,
            y < 64,
            idx == (y * 64 + x) * 4,
            k <= 4,
            buf@.len() == icon_bytes(),
            old(buf)@.len() == icon_bytes(),
            target == paint(old(buf)@, |a: int, b: int| a == x && b == y, color@),
            forall|i: int|
                0 <= i < icon_bytes() ==> #[trigger] buf@[i] == (if idx <= i < idx + k {
                    target[i]
                } else {
                    old(buf)@[i]
                }),
        decreases 4 - k,
    {
        proof {
            lemma_pixel_bytes(x as int, y as int, k as int);
            let j = idx + k;
            assert(j == 4 * (64 * y + x) + k);
            assert(j < icon_bytes());
            assert(px(j) == x && py(j) == y && j % 4 == k);
            assert(target[j] == color@[k as int]);
        }
        buf.set(idx + k, color[k]);
        k = k + 1;
    }
    assert forall|i: int| 0 <= i < icon_bytes() implies #[trigger] buf@[i] == target[i] by {
        lemma_byte_of_pixel(i);
        lemma_pixel_coords_in_range(i);
        if idx <= i < idx + 4 {
        } else {
            if px(i) == x && py(i) == y {
                assert(i == 4 * (64 * y + x) + i % 4);
            }
        }
    }
    assert(buf@ =~= target);
}

/// The pixels of the rectangle `w` wide and `h` high at `(x, y)`.
pub open spec fn in_rect(x: int, y: int, w: int, h: int, a: int, b: int) -> bool {
    x <= a < x + w && y <= b < y + h
}

/// Fills a rectangle; the part outside the icon is ignored.
fn fill_rect(buf: &mut Vec<u8>, x: usize, y: usize, w: usize, h: usize, color: [u8; 4])
    requires
        old(buf)@.len() == icon_bytes(),
        x + w <= usize::MAX,
        y + h <= usize::MAX,
    ensures
        final(buf)@ == paint(old(buf)@, |a: int, b: int| in_rect(x as int, y as int, w as int, h as int, a, b), color@),
{
    let ghost start = old(buf)@;
    let mut dy: usize = 0;
    while dy < h
        invariant
            buf@.len() == icon_bytes(),
            x + w <= usize::MAX,
            y + h <= usize::MAX,
            dy <= h,
            buf@ == paint(start, |a: int, b: int| in_rect(x as int, y as int, w as int, dy as int, a, b), color@),
        decreases h - dy,
    {
        let mut dx: usize = 0;
        while dx < w
            invariant
                buf@.len() == icon_bytes(),
                x + w <= usize::MAX,
                y + h <= usize::MAX,
                dy < h,
                dx <= w,
                buf@ == paint(
                    start,
                    |a: int, b: int|
                        in_rect(x as int, y as int, w as int, dy as int, a, b) || (b == y + dy
                            && x <= a < x + dx),
                    color@,
                ),
            decreases w - dx,
        {
            let ghost before = buf@;
            set_pixel(buf, x + dx, y + dy, color);
            proof {
                lemma_paint_twice(
                    start,
                    |a: int, b: int|
                        in_rect(x as int, y as int, w as int, dy as int, a, b) || (b == y + dy
                            && x <= a < x + dx),
                    |a: int, b: int| a == x + dx && b == y + dy,
                    color@,
                );
                lemma_paint_ext(
                    start,
                    |a: int, b: int|
                        (in_rect(x as int, y as int, w as int, dy as int, a, b) || (b == y + dy
                            && x <= a < x + dx)) || (a == x + dx && b == y + dy),
                    |a: int, b: int|
                        in_rect(x as int, y as int, w as int, dy as int, a, b) || (b == y + dy
                            && x <= a < x + dx + 1),
                    color@,
                );
            }
            dx = dx + 1;
        }
        proof {
            lemma_paint_ext(
                start,
                |a: int, b: int|
                    in_rect(x as int, y as int, w as int, dy as int, a, b) || (b == y + dy && x
                        <= a < x + w),
                |a: int, b: int| in_rect(x as int, y as int, w as int, dy + 1, a, b),
                color@,
            );
        }
        dy = dy + 1;
    }
}


// ---------------------------------------------------------------- lines

/// The points that Bresenham's line algorithm visits from `(x, y)` with
/// error term `err` towards `(x1, y1)`, where `a` and `b` are the line's
/// horizontal and vertical extents and `sx`, `sy` its step directions. Each
/// step moves horizontally when `2 * err >= -b` and vertically when
/// `2 * err <= a` (both judged before the step). `fuel` bounds the number of
/// steps.
pub open spec fn bres_points(
    x: int,
    y: int,
    err: int,
    x1: int,
    y1: int,
    a: int,
    b: int,
    sx: int,
    sy: int,
    fuel: nat,
) -> Set<(int, int)>
    decreases fuel,
{
    if (x == x1 && y == y1) || fuel == 0 {
        set![(x, y)]
    } else {
        let e2 = 2 * err;
        let x2 = if e2 >= -b { x + sx } else { x };
        let err2 = if e2 >= -b { err - b } else { err };
        let y2 = if e2 <= a { y + sy } else { y };
        let err3 = if e2 <= a { err2 + a } else { err2 };
        set![(x, y)].union(bres_points(x2, y2, err3, x1, y1, a, b, sx, sy, (fuel - 1) as nat))
    }
}

/// The absolute value of an integer.
pub open spec fn abs(v: int) -> int {
    if v < 0 {
        -v
    } else {
        v
    }
}

/// The points of the line from `(x0, y0)` to `(x1, y1)` as Bresenham's
/// algorithm rasterises it. It reaches `(x1, y1)` within `|dx| + |dy|`
/// steps, which is the fuel given.
pub open spec fn line_points(x0: int, y0: int, x1: int, y1: int) -> Set<(int, int)> {
    let a = abs(x1 - x0);
    let b = abs(y1 - y0);
    let sx = if x0 < x1 { 1int } else { -1int };
    let sy = if y0 < y1 { 1int } else { -1int };
    bres_points(x0, y0, a - b, x1, y1, a, b, sx, sy, (a + b) as nat)
}

/// Coordinates small enough that the algorithm's arithmetic fits in a
/// 32-bit `isize`.
pub open spec fn small_coord(v: int) -> bool {
    -16383 <= v <= 16383
}

proof fn lemma_mul_step(a: int, n: int)
    by (nonlinear_arith)
    ensures
        a * (n + 2) == a * (n + 1) + a,
{
}

proof fn lemma_mul_le(a: int, n: int, m: int)
    by (nonlinear_arith)
    requires
        0 <= a,
        n <= m,
    ensures
        a * n <= a * m,
{
}

proof fn lemma_err_bounds(a: int, b: int, nx: int, ny: int)
    by (nonlinear_arith)
    requires
        0 <= a <= 32766,
        0 <= b <= 32766,
        0 <= nx <= a,
        0 <= ny <= b,
    ensures
        0 <= a * (ny + 1) <= 1073643522,
        0 <= b * (nx + 1) <= 1073643522,
{
}

/// Draws a line with Bresenham's algorithm; pixels outside the icon are
/// ignored.
fn draw_line(buf: &mut Vec<u8>, x0: isize, y0: isize, x1: isize, y1: isize, color: [u8; 4])
    requires
        old(buf)@.len() == icon_bytes(),
        small_coord(x0 as int),
        small_coord(y0 as int),
        small_coord(x1 as int),
        small_coord(y1 as int),
    ensures
        final(buf)@ == paint(
            old(buf)@,
            |p: int, q: int| line_points(x0 as int, y0 as int, x1 as int, y1 as int).contains((p, q)),
            color@,
        ),
{
    let ghost start = old(buf)@;
    let ghost line = line_points(x0 as int, y0 as int, x1 as int, y1 as int);
    let dx: isize = if x1 >= x0 { x1 - x0 } else { x0 - x1 };
    let dy: isize = -(if y1 >= y0 { y1 - y0 } else { y0 - y1 });
    let sx: isize = if x0 < x1 { 1 } else { -1 };
    let sy: isize = if y0 < y1 { 1 } else { -1 };
    let mut err: isize = dx + dy;
    let mut x = x0;
    let mut y = y0;
    let ghost a: int = dx as int;
    let ghost b: int = -dy;
    let ghost mut nx: int = 0;
    let ghost mut ny: int = 0;
    let ghost mut fuel: nat = (a + b) as nat;
    let ghost mut visited: Set<(int, int)> = Set::empty();
    proof {
        assert(visited.union(line) =~= line);
    }
    loop
        invariant_except_break
            buf@.len() == icon_bytes(),
            start.len() == icon_bytes(),
            a == dx,
            b == -dy,
            0 <= a <= 32766,
            0 <= b <= 32766,
            a == abs(x1 - x0),
            b == abs(y1 - y0),
            sx == (if x0 < x1 { 1int } else { -1int }),
            sy == (if y0 < y1 { 1int } else { -1int }),
            0 <= nx <= a,
            0 <= ny <= b,
            x == (if sx == 1 { x0 + nx } else { x0 - nx }),
            y == (if sy == 1 { y0 + ny } else { y0 - ny }),
            x1 == (if sx == 1 { x0 + a } else { x0 - a }),
            y1 == (if sy == 1 { y0 + b } else { y0 - b }),
            err == a * (ny + 1) - b * (nx + 1),
            fuel >= (a - nx) + (b - ny),
            line == visited.union(bres_points(x as int, y as int, err as int, x1 as int, y1 as int, a, b, sx as int, sy as int, fuel)),
            buf@ == paint(start, |p: int, q: int| visited.contains((p, q)), color@),
        ensures
            buf@ == paint(start, |p: int, q: int| line.contains((p, q)), color@),
        decreases (a - nx) + (b - ny),
    {
        let ghost before = buf@;
        if x >= 0 && y >= 0 {
            set_pixel(buf, x as usize, y as usize, color);
            proof {
                lemma_paint_twice(
                    start,
                    |p: int, q: int| visited.contains((p, q)),
                    |p: int, q: int| p == x as usize && q == y as usize,
                    color@,
                );
                lemma_paint_ext(
                    start,
                    |p: int, q: int| visited.contains((p, q)) || (p == x as usize && q == y as usize),
                    |p: int, q: int| visited.insert((x as int, y as int)).contains((p, q)),
                    color@,
                );
            }
        } else {
            proof {
                lemma_paint_ext(
                    start,
                    |p: int, q: int| visited.contains((p, q)),
                    |p: int, q: int| visited.insert((x as int, y as int)).contains((p, q)),
                    color@,
                );
            }
        }
        proof {
            visited = visited.insert((x as int, y as int));
        }
        if x == x1 && y == y1 {
            proof {
                assert(line =~= visited);
                lemma_paint_ext(
                    start,
                    |p: int, q: int| visited.contains((p, q)),
                    |p: int, q: int| line.contains((p, q)),
                    color@,
                );
            }
            break;
        }
        proof {
            lemma_err_bounds(a, b, nx, ny);
            // a step always moves, and never past the end point
            if nx == a && ny < b {
                lemma_mul_le(a, ny + 1, b);
                assert(b * (a + 1) == a * b + b) by (nonlinear_arith);
                assert(a * b == b * a) by (nonlinear_arith);
            }
            if ny == b && nx < a {
                lemma_mul_le(b, nx + 1, a);
                assert(a * (b + 1) == a * b + a) by (nonlinear_arith);
                assert(a * b == b * a) by (nonlinear_arith);
            }
            assert(fuel > 0);
        }
        let e2 = 2 * err;
        let ghost old_state = (x as int, y as int, err as int);
        if e2 >= dy {
            err = err + dy;
            x = x + sx;
            proof {
                lemma_mul_step(b, nx);
                nx = nx + 1;
            }
        }
        if e2 <= dx {
            err = err + dx;
            y = y + sy;
            proof {
                lemma_mul_step(a, ny);
                ny = ny + 1;
            }
        }
        proof {
            assert(bres_points(old_state.0, old_state.1, old_state.2, x1 as int, y1 as int, a, b, sx as int, sy as int, fuel)
                == set![(old_state.0, old_state.1)].union(
                bres_points(x as int, y as int, err as int, x1 as int, y1 as int, a, b, sx as int, sy as int, (fuel - 1) as nat)));
            fuel = (fuel - 1) as nat;
            assert(line =~= visited.union(bres_points(x as int, y as int, err as int, x1 as int, y1 as int, a, b, sx as int, sy as int, fuel)));
        }
    }
}


// ---------------------------------------------------------------- discs

/// Whether `(p, q)` lies in the disc of radius `r` around `(cx, cy)`, on
/// the square grid the fill walks.
pub open spec fn in_disc(cx: int, cy: int, r: int, p: int, q: int) -> bool {
    -r <= p - cx <= r && -r <= q - cy <= r && (p - cx) * (p - cx) + (q - cy) * (q - cy) <= r * r
}

proof fn lemma_square_bounds(d: int, r: int)
    by (nonlinear_arith)
    requires
        0 <= r <= 32767,
        -r <= d <= r,
    ensures
        0 <= d * d <= r * r,
        r * r <= 1073676289,
{
}

/// Fills a disc; pixels outside the icon are ignored.
fn fill_circle(buf: &mut Vec<u8>, cx: isize, cy: isize, r: isize, color: [u8; 4])
    requires
        old(buf)@.len() == icon_bytes(),
        -1073741824 <= cx <= 1073741824,
        -1073741824 <= cy <= 1073741824,
        -32767 <= r <= 32767,
    ensures
        final(buf)@ == paint(
            old(buf)@,
            |p: int, q: int| in_disc(cx as int, cy as int, r as int, p, q),
            color@,
        ),
{
    let ghost start = old(buf)@;
    if r < 0 {
        proof {
            lemma_paint_nothing(start, |p: int, q: int| in_disc(cx as int, cy as int, r as int, p, q), color@);
        }
        return;
    }
    let mut dy: isize = -r;
    while dy <= r
        invariant
            buf@.len() == icon_bytes(),
            start.len() == icon_bytes(),
            -1073741824 <= cx <= 1073741824,
            -1073741824 <= cy <= 1073741824,
            0 <= r <= 32767,
            -r <= dy <= r + 1,
            buf@ == paint(
                start,
                |p: int, q: int| in_disc(cx as int, cy as int, r as int, p, q) && q - cy < dy,
                color@,
            ),
        decreases r + 1 - dy,
    {
        let mut dx: isize = -r;
        while dx <= r
            invariant
                buf@.len() == icon_bytes(),
                start.len() == icon_bytes(),
                -1073741824 <= cx <= 1073741824,
                -1073741824 <= cy <= 1073741824,
                0 <= r <= 32767,
                -r <= dy <= r,
                -r <= dx <= r + 1,
                buf@ == paint(
                    start,
                    |p: int, q: int|
                        in_disc(cx as int, cy as int, r as int, p, q) && (q - cy < dy || (q - cy
                            == dy && p - cx < dx)),
                    color@,
                ),
            decreases r + 1 - dx,
        {
            proof {
                lemma_square_bounds(dx as int, r as int);
                lemma_square_bounds(dy as int, r as int);
            }
            let inside = dx * dx + dy * dy <= r * r;
            let px_ = cx + dx;
            let py_ = cy + dy;
            let ghost cell = |p: int, q: int| p == px_ && q == py_;
            if inside && px_ >= 0 && py_ >= 0 {
                set_pixel(buf, px_ as usize, py_ as usize, color);
                proof {
                    lemma_paint_twice(
                        start,
                        |p: int, q: int|
                            in_disc(cx as int, cy as int, r as int, p, q) && (q - cy < dy || (q
                                - cy == dy && p - cx < dx)),
                        |p: int, q: int| p == px_ as usize && q == py_ as usize,
                        color@,
                    );
                }
            }
            proof {
                lemma_paint_ext(
                    start,
                    if inside && px_ >= 0 && py_ >= 0 {
                        |p: int, q: int|
                            (in_disc(cx as int, cy as int, r as int, p, q) && (q - cy < dy || (q
                                - cy == dy && p - cx < dx))) || (p == px_ as usize && q
                                == py_ as usize)
                    } else {
                        |p: int, q: int|
                            in_disc(cx as int, cy as int, r as int, p, q) && (q - cy < dy || (q
                                - cy == dy && p - cx < dx))
                    },
                    |p: int, q: int|
                        in_disc(cx as int, cy as int, r as int, p, q) && (q - cy < dy || (q
                            - cy == dy && p - cx < dx + 1)),
                    color@,
                );
            }
            dx = dx + 1;
        }
        proof {
            lemma_paint_ext(
                start,
                |p: int, q: int|
                    in_disc(cx as int, cy as int, r as int, p, q) && (q - cy < dy || (q - cy
                        == dy && p - cx < r + 1)),
                |p: int, q: int| in_disc(cx as int, cy as int, r as int, p, q) && q - cy < dy + 1,
                color@,
            );
        }
        dy = dy + 1;
    }
    proof {
        lemma_paint_ext(
            start,
            |p: int, q: int| in_disc(cx as int, cy as int, r as int, p, q) && q - cy < r + 1,
            |p: int, q: int| in_disc(cx as int, cy as int, r as int, p, q),
            color@,
        );
    }
}


// ---------------------------------------------------------------- the icon

pub const BLUE: [u8; 4] = [52, 152, 219, 255];

pub const GREEN: [u8; 4] = [46, 204, 113, 255];

pub const RED_QUAD: [u8; 4] = [231, 76, 60, 255];

pub const ORANGE: [u8; 4] = [243, 156, 18, 255];

pub const GREY: [u8; 4] = [127, 140, 141, 255];

pub const WHITE: [u8; 4] = [255, 255, 255, 255];

pub const X_RED: [u8; 4] = [231, 76, 60, 255];

pub const ORANGE_DOT: [u8; 4] = [230, 126, 34, 255];

pub const TRANSPARENT: [u8; 4] = [0, 0, 0, 0];

/// The four lines of the cross at one offset: the two diagonals, each
/// drawn from both of its neighbouring edges.
pub open spec fn x_mark(o: int) -> Set<(int, int)> {
    line_points(0, o, 63, 63 + o).union(line_points(o, 0, 63 + o, 63)).union(
        line_points(0, 63 - o, 63, -o),
    ).union(line_points(o, 63, 63 + o, 0))
}

/// The three-pixel-wide red cross over the whole icon.
pub open spec fn x_marks() -> Set<(int, int)> {
    x_mark(-1).union(x_mark(0)).union(x_mark(1))
}

/// The cross marks for offsets below `o`.
pub open spec fn x_marks_below(o: int) -> Set<(int, int)> {
    if o <= -1 {
        Set::empty()
    } else if o == 0 {
        x_mark(-1)
    } else if o == 1 {
        x_mark(-1).union(x_mark(0))
    } else {
        x_marks()
    }
}

/// Draws the red cross across the whole icon.
fn draw_x(buf: &mut Vec<u8>)
    requires
        old(buf)@.len() == icon_bytes(),
    ensures
        final(buf)@ == paint(old(buf)@, |p: int, q: int| x_marks().contains((p, q)), X_RED@),
{
    let ghost start = old(buf)@;
    let s: isize = 64;
    let mut offset: isize = -1;
    proof {
        lemma_paint_nothing(start, |p: int, q: int| x_marks_below(-1).contains((p, q)), X_RED@);
    }
    while offset <= 1
        invariant
            buf@.len() == icon_bytes(),
            start.len() == icon_bytes(),
            s == 64,
            -1 <= offset <= 2,
            buf@ == paint(start, |p: int, q: int| x_marks_below(offset as int).contains((p, q)), X_RED@),
        decreases 2 - offset,
    {
        let ghost o = offset as int;
        let ghost b0 = buf@;
        draw_line(buf, 0, offset, s - 1, s - 1 + offset, X_RED);
        draw_line(buf, offset, 0, s - 1 + offset, s - 1, X_RED);
        draw_line(buf, 0, s - 1 - offset, s - 1, -offset, X_RED);
        draw_line(buf, offset, s - 1, s - 1 + offset, 0, X_RED);
        proof {
            let prev = |p: int, q: int| x_marks_below(o).contains((p, q));
            let l1 = |p: int, q: int| line_points(0, o, 63, 63 + o).contains((p, q));
            let l2 = |p: int, q: int| line_points(o, 0, 63 + o, 63).contains((p, q));
            let l3 = |p: int, q: int| line_points(0, 63 - o, 63, -o).contains((p, q));
            let l4 = |p: int, q: int| line_points(o, 63, 63 + o, 0).contains((p, q));
            lemma_paint_twice(start, prev, l1, X_RED@);
            let u1 = |p: int, q: int| prev(p, q) || l1(p, q);
            lemma_paint_twice(start, u1, l2, X_RED@);
            let u2 = |p: int, q: int| u1(p, q) || l2(p, q);
            lemma_paint_twice(start, u2, l3, X_RED@);
            let u3 = |p: int, q: int| u2(p, q) || l3(p, q);
            lemma_paint_twice(start, u3, l4, X_RED@);
            let u4 = |p: int, q: int| u3(p, q) || l4(p, q);
            lemma_paint_ext(start, u4, |p: int, q: int| x_marks_below(o + 1).contains((p, q)), X_RED@);
        }
        offset = offset + 1;
    }
}

/// A fully transparent icon.
pub open spec fn blank_icon() -> Seq<u8> {
    Seq::new(16384, |i: int| 0u8)
}

/// The whole icon.
pub open spec fn whole(p: int, q: int) -> bool {
    in_rect(0, 0, 64, 64, p, q)
}

/// Four 30x30 tiles of the given colours (top-left, top-right,
/// bottom-left, bottom-right) divided by a white cross four pixels wide.
pub open spec fn tiles(base: Seq<u8>, c1: Seq<u8>, c2: Seq<u8>, c3: Seq<u8>, c4: Seq<u8>) -> Seq<u8> {
    let i1 = paint(base, |p: int, q: int| in_rect(0, 0, 30, 30, p, q), c1);
    let i2 = paint(i1, |p: int, q: int| in_rect(34, 0, 30, 30, p, q), c2);
    let i3 = paint(i2, |p: int, q: int| in_rect(0, 34, 30, 30, p, q), c3);
    let i4 = paint(i3, |p: int, q: int| in_rect(34, 34, 30, 30, p, q), c4);
    let i5 = paint(i4, |p: int, q: int| in_rect(30, 0, 4, 64, p, q), WHITE@);
    paint(i5, |p: int, q: int| in_rect(0, 30, 64, 4, p, q), WHITE@)
}

/// The icon for a state. With windows hidden it is a single grey tile with
/// a red cross; with icons hidden, four grey tiles (the white cross between
/// them kept) with the red cross; otherwise four coloured tiles (blue,
/// green, red, orange). When the taskbar is hidden an orange dot of radius
/// 10 sits at (52, 52).
pub open spec fn icon_spec(icons_hidden: bool, taskbar_hidden: bool, windows_hidden: bool) -> Seq<u8> {
    let base = paint(blank_icon(), |p: int, q: int| whole(p, q), TRANSPARENT@);
    let body = if windows_hidden {
        paint(
            paint(base, |p: int, q: int| whole(p, q), GREY@),
            |p: int, q: int| x_marks().contains((p, q)),
            X_RED@,
        )
    } else if icons_hidden {
        paint(
            tiles(base, GREY@, GREY@, GREY@, GREY@),
            |p: int, q: int| x_marks().contains((p, q)),
            X_RED@,
        )
    } else {
        tiles(base, BLUE@, GREEN@, RED_QUAD@, ORANGE@)
    };
    if taskbar_hidden {
        paint(body, |p: int, q: int| in_disc(52, 52, 10, p, q), ORANGE_DOT@)
    } else {
        body
    }
}

/// Paints the four tiles in these colours and the white cross between them.
fn draw_tiles(buf: &mut Vec<u8>, c1: [u8; 4], c2: [u8; 4], c3: [u8; 4], c4: [u8; 4])
    requires
        old(buf)@.len() == icon_bytes(),
    ensures
        final(buf)@ == tiles(old(buf)@, c1@, c2@, c3@, c4@),
{
    let half = ICON_SIZE / 2;
    let border: usize = 2;
    fill_rect(buf, 0, 0, half - border, half - border, c1);
    fill_rect(buf, half + border, 0, half - border, half - border, c2);
    fill_rect(buf, 0, half + border, half - border, half - border, c3);
    fill_rect(buf, half + border, half + border, half - border, half - border, c4);
    fill_rect(buf, half - border, 0, border * 2, ICON_SIZE, WHITE);
    fill_rect(buf, 0, half - border, ICON_SIZE, border * 2, WHITE);
}

/// The tray icon's RGBA bytes (64x64, row by row) for the current state.
pub fn build_icon_rgba(state: &AppState) -> (r: Vec<u8>)
    ensures
        r@ == icon_spec(state.icons_hidden, state.taskbar_hidden, state.windows_hidden),
{
    let total = ICON_SIZE * ICON_SIZE * 4;
    let mut buf = vec![0u8; total];
    assert(buf@ =~= blank_icon());
    // clear to transparent
    fill_rect(&mut buf, 0, 0, ICON_SIZE, ICON_SIZE, TRANSPARENT);
    if state.windows_hidden {
        // a single grey tile when windows are hidden
        fill_rect(&mut buf, 0, 0, ICON_SIZE, ICON_SIZE, GREY);
        draw_x(&mut buf);
    } else if state.icons_hidden {
        // four grey tiles when only the icons are hidden
        draw_tiles(&mut buf, GREY, GREY, GREY, GREY);
        draw_x(&mut buf);
    } else {
        draw_tiles(&mut buf, BLUE, GREEN, RED_QUAD, ORANGE);
    }
    // orange dot at the bottom-right corner when the taskbar is hidden
    if state.taskbar_hidden {
        fill_circle(&mut buf, ICON_SIZE as isize - 12, ICON_SIZE as isize - 12, 10, ORANGE_DOT);
    }
    buf
}

/// The tooltip's list of hidden things, in the order icons, taskbar,
/// windows.
pub open spec fn tooltip_parts(s: crate::state::StateView) -> Seq<Seq<char>> {
    let a = if s.icons_hidden { seq!["Icons: hidden"@] } else { Seq::empty() };
    let b = if s.taskbar_hidden { a.push("Taskbar: hidden"@) } else { a };
    if s.windows_hidden { b.push("Windows: hidden"@) } else { b }
}

/// Joins pieces with `", "`.
pub open spec fn join_comma(parts: Seq<Seq<char>>) -> Seq<char>
    decreases parts.len(),
{
    if parts.len() == 0 {
        Seq::empty()
    } else if parts.len() == 1 {
        parts[0]
    } else {
        join_comma(parts.drop_last()) + ", "@ + parts.last()
    }
}

/// The tooltip: "all visible", or the hidden things separated by commas.
pub open spec fn tooltip_spec(s: crate::state::StateView) -> Seq<char> {
    let parts = tooltip_parts(s);
    if parts.len() == 0 {
        "HideDesktopApps \u{2014} all visible"@
    } else {
        "HideDesktopApps \u{2014} "@ + join_comma(parts)
    }
}

proof fn lemma_join_comma_prefix(parts: Seq<Seq<char>>)
    requires
        parts.len() > 0,
    ensures
        parts[0].len() <= join_comma(parts).len(),
        join_comma(parts).take(parts[0].len() as int) == parts[0],
    decreases parts.len(),
{
    if parts.len() > 1 {
        let init = parts.drop_last();
        lemma_join_comma_prefix(init);
        let a = join_comma(init);
        assert((a + ", "@ + parts.last()).take(parts[0].len() as int) =~= a.take(parts[0].len() as int));
    }
}

proof fn lemma_join_comma_contains(parts: Seq<Seq<char>>, i: int)
    requires
        0 <= i < parts.len(),
    ensures
        crate::text::contains_seq(join_comma(parts), parts[i]),
    decreases parts.len(),
{
    let j = join_comma(parts);
    let p = parts[i];
    if parts.len() == 1 {
        assert(j.subrange(0int, 0int + p.len()) =~= p);
    } else {
        let init = parts.drop_last();
        let a = join_comma(init);
        let sep = ", "@;
        assert(j == a + sep + parts.last());
        if i == parts.len() - 1 {
            let k = (a.len() + sep.len()) as int;
            assert(j.subrange(k, k + p.len()) =~= p);
        } else {
            lemma_join_comma_contains(init, i);
            assert(init[i] == p);
            lemma_contains_in_prefix(a, sep + parts.last(), p);
            assert(a + (sep + parts.last()) =~= j);
        }
    }
}

proof fn lemma_contains_in_prefix(a: Seq<char>, b: Seq<char>, p: Seq<char>)
    requires
        crate::text::contains_seq(a, p),
    ensures
        crate::text::contains_seq(a + b, p),
{
    let k = choose|k: int| 0 <= k && k + p.len() <= a.len() && #[trigger] a.subrange(k, k + p.len()) == p;
    assert((a + b).subrange(k, k + p.len()) =~= a.subrange(k, k + p.len()));
}

proof fn lemma_contains_in_suffix(a: Seq<char>, b: Seq<char>, p: Seq<char>)
    requires
        crate::text::contains_seq(b, p),
    ensures
        crate::text::contains_seq(a + b, p),
{
    let k = choose|k: int| 0 <= k && k + p.len() <= b.len() && #[trigger] b.subrange(k, k + p.len()) == p;
    let m = k + a.len();
    assert((a + b).subrange(m, m + p.len()) =~= b.subrange(k, k + p.len()));
}

proof fn lemma_tooltip_not_all_visible(s: crate::state::StateView)
    requires
        s.icons_hidden || s.taskbar_hidden || s.windows_hidden,
    ensures
        tooltip_spec(s) != "HideDesktopApps \u{2014} all visible"@,
{
    reveal_strlit("HideDesktopApps \u{2014} all visible");
    reveal_strlit("HideDesktopApps \u{2014} ");
    reveal_strlit("Icons: hidden");
    reveal_strlit("Taskbar: hidden");
    reveal_strlit("Windows: hidden");
    let parts = tooltip_parts(s);
    let head = "HideDesktopApps \u{2014} "@;
    assert(parts.len() > 0);
    assert(parts[0] == "Icons: hidden"@ || parts[0] == "Taskbar: hidden"@ || parts[0] == "Windows: hidden"@);
    let j = join_comma(parts);
    lemma_join_comma_prefix(parts);
    assert(j[0] == parts[0][0]) by {
        assert(j.take(parts[0].len() as int)[0] == j[0]);
    }
    let t = head + j;
    assert(t[18] == j[0]);
    assert("HideDesktopApps \u{2014} all visible"@[18] == 'a');
}

/// The tooltip says "all visible" exactly when nothing is hidden, and names
/// each hidden thing.
pub proof fn lemma_tooltip_reports_hidden(s: crate::state::StateView)
    ensures
        (tooltip_spec(s) == "HideDesktopApps \u{2014} all visible"@) <==> (!s.icons_hidden
            && !s.taskbar_hidden && !s.windows_hidden),
        s.icons_hidden ==> crate::text::contains_seq(tooltip_spec(s), "Icons: hidden"@),
        s.taskbar_hidden ==> crate::text::contains_seq(tooltip_spec(s), "Taskbar: hidden"@),
        s.windows_hidden ==> crate::text::contains_seq(tooltip_spec(s), "Windows: hidden"@),
{
    if s.icons_hidden || s.taskbar_hidden || s.windows_hidden {
        lemma_tooltip_not_all_visible(s);
        let parts = tooltip_parts(s);
        let head = "HideDesktopApps \u{2014} "@;
        let a = if s.icons_hidden { seq!["Icons: hidden"@] } else { Seq::<Seq<char>>::empty() };
        let b = if s.taskbar_hidden { a.push("Taskbar: hidden"@) } else { a };
        if s.icons_hidden {
            lemma_join_comma_contains(parts, 0);
            lemma_contains_in_suffix(head, join_comma(parts), parts[0]);
        }
        if s.taskbar_hidden {
            let k = a.len() as int;
            assert(parts[k] == "Taskbar: hidden"@);
            lemma_join_comma_contains(parts, k);
            lemma_contains_in_suffix(head, join_comma(parts), parts[k]);
        }
        if s.windows_hidden {
            let k = b.len() as int;
            assert(parts[k] == "Windows: hidden"@);
            lemma_join_comma_contains(parts, k);
            lemma_contains_in_suffix(head, join_comma(parts), parts[k]);
        }
    }
}

/// The tray tooltip for the current state.
pub fn build_tooltip(state: &AppState) -> (r: String)
    ensures
        r@ == tooltip_spec(state@),
{
    let mut parts: Vec<&str> = Vec::new();
    if state.icons_hidden {
        parts.push("Icons: hidden");
    }
    if state.taskbar_hidden {
        parts.push("Taskbar: hidden");
    }
    if state.windows_hidden {
        parts.push("Windows: hidden");
    }
    let ghost want = tooltip_parts(state@);
    assert(parts@.len() == want.len());
    assert(forall|i: int| 0 <= i < want.len() ==> parts@[i]@ == #[trigger] want[i]);
    if parts.len() == 0 {
        return String::from_str("HideDesktopApps \u{2014} all visible");
    }
    let mut out = String::from_str("HideDesktopApps \u{2014} ");
    let ghost head = out@;
    let mut i: usize = 0;
    while i < parts.len()
        invariant
            i <= parts.len(),
            parts@.len() == want.len(),
            forall|j: int| 0 <= j < want.len() ==> parts@[j]@ == #[trigger] want[j],
            out@ == head + join_comma(want.take(i as int)),
        decreases parts.len() - i,
    {
        assert(want.take(i + 1).drop_last() =~= want.take(i as int));
        if i > 0 {
            out.append(", ");
        } else {
            assert(join_comma(want.take(0)) =~= Seq::<char>::empty());
        }
        out.append(parts[i]);
        i = i + 1;
        assert(out@ =~= head + join_comma(want.take(i as int)));
    }
    assert(want.take(parts.len() as int) =~= want);
    out
}

} // verus!

