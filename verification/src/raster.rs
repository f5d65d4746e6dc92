//! The rasterizer: integer edge tracing and scanline fill.
//!
//! `bresenham_line` produces every pixel on a segment using only integer
//! error accumulation, in all eight octants; its contract is the error
//! rule itself, written as the recursive [`line_points`]. `scanline_fill`
//! turns a traced outline into one horizontal span per populated row.

use vstd::prelude::*;

use crate::fixed::{div_t, FX_ONE};
use crate::polygons::{tri_xyz_bounded, Tri};

verus! {

/// Endpoints handed to the rasterizer must stay within this many pixels
/// of the origin, so that the error accumulator fits in an `i64`.
pub const PIX_LIMIT: i32 = 0x2000_0000;

/// One step of the integer error-accumulation rule, starting at
/// `(x, y)` and walking toward `(x2, y2)`: doubled error above `-dy`
/// steps `x`, below `dx` steps `y`, and the trace ends at the target.
/// `fuel` bounds the number of steps; started with `dx + dy` it never
/// runs out before the target.
pub open spec fn line_points(
    x: int,
    y: int,
    x2: int,
    y2: int,
    dx: int,
    dy: int,
    sx: int,
    sy: int,
    err: int,
    fuel: nat,
) -> Seq<(int, int)>
    decreases fuel,
{
    if (x == x2 && y == y2) || fuel == 0 {
        seq![(x, y)]
    } else {
        let e2 = 2 * err;
        let xn = if e2 > -dy {
            x + sx
        } else {
            x
        };
        let en = if e2 > -dy {
            err - dy
        } else {
            err
        };
        let yn = if e2 < dx {
            y + sy
        } else {
            y
        };
        let en2 = if e2 < dx {
            en + dx
        } else {
            en
        };
        seq![(x, y)] + line_points(xn, yn, x2, y2, dx, dy, sx, sy, en2, (fuel - 1) as nat)
    }
}

/// The full Bresenham trace from `(x1, y1)` to `(x2, y2)`: the error
/// rule run from the standard initial error `dx - dy`.
pub open spec fn bresenham_points(x1: int, y1: int, x2: int, y2: int) -> Seq<(int, int)> {
    let dx = if x2 >= x1 {
        x2 - x1
    } else {
        x1 - x2
    };
    let dy = if y2 >= y1 {
        y2 - y1
    } else {
        y1 - y2
    };
    let sx: int = if x1 < x2 {
        1
    } else {
        -1
    };
    let sy: int = if y1 < y2 {
        1
    } else {
        -1
    };
    line_points(x1, y1, x2, y2, dx, dy, sx, sy, dx - dy, (dx + dy) as nat)
}

/// A pixel sequence seen as unbounded integer pairs.
pub open spec fn pix_seq(s: Seq<(i32, i32)>) -> Seq<(int, int)> {
    s.map(|i: int, p: (i32, i32)| (p.0 as int, p.1 as int))
}

/// The walk invariant of the error rule: the accumulator always equals
/// `dx * (ny + 1) - dy * (nx + 1)`, where `nx` and `ny` are the steps
/// already taken on each axis. It implies that the walk never oversteps
/// the target, and that each step brings it strictly closer.
proof fn lemma_bres_step(x: int, y: int, x2: int, y2: int, dx: int, dy: int, sx: int, sy: int, err: int)
    requires
        sx == 1 || sx == -1,
        sy == 1 || sy == -1,
        0 <= sx * (x2 - x) <= dx,
        0 <= sy * (y2 - y) <= dy,
        !(x == x2 && y == y2),
        err == dx * ((dy - sy * (y2 - y)) + 1) - dy * ((dx - sx * (x2 - x)) + 1),
    ensures
        ({
            let e2 = 2 * err;
            let xn = if e2 > -dy {
                x + sx
            } else {
                x
            };
            let yn = if e2 < dx {
                y + sy
            } else {
                y
            };
            let en2 = (if e2 > -dy {
                err - dy
            } else {
                err
            }) + (if e2 < dx {
                dx
            } else {
                0
            });
            &&& (e2 > -dy) || (e2 < dx)
            &&& 0 <= sx * (x2 - xn) <= dx
            &&& 0 <= sy * (y2 - yn) <= dy
            &&& en2 == dx * ((dy - sy * (y2 - yn)) + 1) - dy * ((dx - sx * (x2 - xn)) + 1)
            &&& sx * (x2 - xn) + sy * (y2 - yn) < sx * (x2 - x) + sy * (y2 - y)
            &&& (sx == 1 ==> x2 - dx <= xn <= x2) && (sx == -1 ==> x2 <= xn <= x2 + dx)
            &&& (sy == 1 ==> y2 - dy <= yn <= y2) && (sy == -1 ==> y2 <= yn <= y2 + dy)
        }),
{
    let e2 = 2 * err;
    let rx = sx * (x2 - x);
    let ry = sy * (y2 - y);
    let nx = dx - rx;
    let ny = dy - ry;
    assert(rx >= 1 || ry >= 1) by (nonlinear_arith)
        requires
            sx == 1 || sx == -1,
            sy == 1 || sy == -1,
            rx == sx * (x2 - x),
            ry == sy * (y2 - y),
            0 <= rx,
            0 <= ry,
            !(x == x2 && y == y2),
    ;
    if rx == 0 {
        // At the target column: the x condition cannot fire.
        assert(ry >= 1);
        assert(!(e2 > -dy)) by (nonlinear_arith)
            requires
                e2 == 2 * (dx * (ny + 1) - dy * (nx + 1)),
                nx == dx,
                ny <= dy - 1,
                dy >= 1,
                dx >= 0,
        ;
        assert(e2 < dx) by (nonlinear_arith)
            requires
                e2 == 2 * (dx * (ny + 1) - dy * (nx + 1)),
                nx == dx,
                ny <= dy - 1,
                dy >= 1,
                dx >= 0,
        ;
    } else if ry == 0 {
        // At the target row: the y condition cannot fire.
        assert(rx >= 1);
        assert(!(e2 < dx)) by (nonlinear_arith)
            requires
                e2 == 2 * (dx * (ny + 1) - dy * (nx + 1)),
                ny == dy,
                nx <= dx - 1,
                dx >= 1,
                dy >= 0,
        ;
        assert(e2 > -dy) by (nonlinear_arith)
            requires
                e2 == 2 * (dx * (ny + 1) - dy * (nx + 1)),
                ny == dy,
                nx <= dx - 1,
                dx >= 1,
                dy >= 0,
        ;
    } else {
        // Strictly inside: at least one condition fires.
        assert((e2 > -dy) || (e2 < dx)) by (nonlinear_arith)
            requires
                e2 == 2 * err,
                rx >= 1,
                ry >= 1,
                rx <= dx,
                ry <= dy,
        ;
    }
    let xn = if e2 > -dy {
        x + sx
    } else {
        x
    };
    let yn = if e2 < dx {
        y + sy
    } else {
        y
    };
    let en2 = (if e2 > -dy {
        err - dy
    } else {
        err
    }) + (if e2 < dx {
        dx
    } else {
        0
    });
    let rxn = sx * (x2 - xn);
    let ryn = sy * (y2 - yn);
    assert(rxn == if e2 > -dy {
        rx - 1
    } else {
        rx
    }) by (nonlinear_arith)
        requires
            sx == 1 || sx == -1,
            rx == sx * (x2 - x),
            rxn == sx * (x2 - xn),
            xn == if 2 * err > -dy {
                x + sx
            } else {
                x
            },
            e2 == 2 * err,
    ;
    assert(ryn == if e2 < dx {
        ry - 1
    } else {
        ry
    }) by (nonlinear_arith)
        requires
            sy == 1 || sy == -1,
            ry == sy * (y2 - y),
            ryn == sy * (y2 - yn),
            yn == if 2 * err < dx {
                y + sy
            } else {
                y
            },
            e2 == 2 * err,
    ;
    assert(en2 == dx * ((dy - ryn) + 1) - dy * ((dx - rxn) + 1)) by (nonlinear_arith)
        requires
            err == dx * ((dy - ry) + 1) - dy * ((dx - rx) + 1),
            en2 == (if 2 * err > -dy {
                err - dy
            } else {
                err
            }) + (if 2 * err < dx {
                dx
            } else {
                0
            }),
            rxn == if 2 * err > -dy {
                rx - 1
            } else {
                rx
            },
            ryn == if 2 * err < dx {
                ry - 1
            } else {
                ry
            },
    ;
    assert((sx == 1 ==> x2 - dx <= xn <= x2) && (sx == -1 ==> x2 <= xn <= x2 + dx))
        by (nonlinear_arith)
        requires
            sx == 1 || sx == -1,
            rxn == sx * (x2 - xn),
            0 <= rxn <= dx,
    ;
    assert((sy == 1 ==> y2 - dy <= yn <= y2) && (sy == -1 ==> y2 <= yn <= y2 + dy))
        by (nonlinear_arith)
        requires
            sy == 1 || sy == -1,
            ryn == sy * (y2 - yn),
            0 <= ryn <= dy,
    ;
}

/// Traces the straight line from `(x1, y1)` to `(x2, y2)`: every pixel
/// of the Bresenham walk, both endpoints included, in walk order.
pub fn bresenham_line(x1: i32, y1: i32, x2: i32, y2: i32) -> (line: Vec<(i32, i32)>)
    requires
        -PIX_LIMIT <= x1 <= PIX_LIMIT,
        -PIX_LIMIT <= y1 <= PIX_LIMIT,
        -PIX_LIMIT <= x2 <= PIX_LIMIT,
        -PIX_LIMIT <= y2 <= PIX_LIMIT,
    ensures
        pix_seq(line@) == bresenham_points(x1 as int, y1 as int, x2 as int, y2 as int),
        line@.len() >= 1,
        line@[0] == (x1, y1),
        line@[line@.len() - 1] == (x2, y2),
        forall|k: int|
            0 <= k < line@.len() ==> -PIX_LIMIT <= (#[trigger] line@[k]).0 <= PIX_LIMIT
                && -PIX_LIMIT <= line@[k].1 <= PIX_LIMIT,
{
    let mut line: Vec<(i32, i32)> = Vec::new();
    let mut x: i32 = x1;
    let mut y: i32 = y1;
    let dx: i64 = if x2 >= x1 {
        (x2 as i64) - (x1 as i64)
    } else {
        (x1 as i64) - (x2 as i64)
    };
    let dy: i64 = if y2 >= y1 {
        (y2 as i64) - (y1 as i64)
    } else {
        (y1 as i64) - (y2 as i64)
    };
    let sx: i32 = if x1 < x2 {
        1
    } else {
        -1
    };
    let sy: i32 = if y1 < y2 {
        1
    } else {
        -1
    };
    let mut err: i64 = dx - dy;
    let ghost total = bresenham_points(x1 as int, y1 as int, x2 as int, y2 as int);
    proof {
        assert((sx as int) * (x2 - x1) == dx && (sy as int) * (y2 - y1) == dy && (err as int) == (
        dx as int) * (((dy as int) - (sy as int) * (y2 - y1)) + 1) - (dy as int) * (((dx as int) - (
        sx as int) * (x2 - x1)) + 1)) by (nonlinear_arith)
            requires
                sx == if x1 < x2 {
                    1i32
                } else {
                    -1i32
                },
                sy == if y1 < y2 {
                    1i32
                } else {
                    -1i32
                },
                dx == if x2 >= x1 {
                    (x2 as i64) - (x1 as i64)
                } else {
                    (x1 as i64) - (x2 as i64)
                },
                dy == if y2 >= y1 {
                    (y2 as i64) - (y1 as i64)
                } else {
                    (y1 as i64) - (y2 as i64)
                },
                err == dx - dy,
        ;
    }
    while !(x == x2 && y == y2)
        invariant
            -PIX_LIMIT <= x1 <= PIX_LIMIT,
            -PIX_LIMIT <= y1 <= PIX_LIMIT,
            -PIX_LIMIT <= x2 <= PIX_LIMIT,
            -PIX_LIMIT <= y2 <= PIX_LIMIT,
            -PIX_LIMIT <= x <= PIX_LIMIT,
            -PIX_LIMIT <= y <= PIX_LIMIT,
            sx == 1 || sx == -1,
            sy == 1 || sy == -1,
            (sx == 1 && x1 <= x2 && dx == x2 - x1) || (sx == -1 && x2 <= x1 && dx == x1 - x2),
            (sy == 1 && y1 <= y2 && dy == y2 - y1) || (sy == -1 && y2 <= y1 && dy == y1 - y2),
            0 <= dx <= 0x4000_0000,
            0 <= dy <= 0x4000_0000,
            0 <= (sx as int) * (x2 - x) <= dx,
            0 <= (sy as int) * (y2 - y) <= dy,
            err as int == (dx as int) * (((dy as int) - (sy as int) * (y2 - y)) + 1) - (dy as int)
                * (((dx as int) - (sx as int) * (x2 - x)) + 1),
            line@.len() + ((sx as int) * (x2 - x) + (sy as int) * (y2 - y)) <= dx + dy,
            total == pix_seq(line@) + line_points(
                x as int,
                y as int,
                x2 as int,
                y2 as int,
                dx as int,
                dy as int,
                sx as int,
                sy as int,
                err as int,
                ((dx + dy) as nat - line@.len()) as nat,
            ),
            forall|k: int| 0 <= k < line@.len() ==> #[trigger] line@[k] != (x2, y2),
            forall|k: int|
                0 <= k < line@.len() ==> -PIX_LIMIT <= (#[trigger] line@[k]).0 <= PIX_LIMIT
                    && -PIX_LIMIT <= line@[k].1 <= PIX_LIMIT,
            line@.len() > 0 ==> line@[0] == (x1, y1),
            line@.len() == 0 ==> x == x1 && y == y1,
        decreases (sx as int) * (x2 - x) + (sy as int) * (y2 - y),
    {
        proof {
            lemma_bres_step(
                x as int,
                y as int,
                x2 as int,
                y2 as int,
                dx as int,
                dy as int,
                sx as int,
                sy as int,
                err as int,
            );
            lemma_err_fits(
                dx as int,
                dy as int,
                (dx as int) - (sx as int) * (x2 - x),
                (dy as int) - (sy as int) * (y2 - y),
                err as int,
            );
        }
        let ghost prev_line = line@;
        let ghost prev_fuel = ((dx + dy) as nat - line@.len()) as nat;
        let ghost prev_x = x as int;
        let ghost prev_y = y as int;
        let ghost prev_err = err as int;
        line.push((x, y));
        let e2: i64 = 2 * err;
        if e2 > -dy {
            err = err - dy;
            x = x + sx;
        }
        if e2 < dx {
            err = err + dx;
            y = y + sy;
        }
        proof {
            assert(line_points(
                prev_x,
                prev_y,
                x2 as int,
                y2 as int,
                dx as int,
                dy as int,
                sx as int,
                sy as int,
                prev_err,
                prev_fuel,
            ) == seq![(prev_x, prev_y)] + line_points(
                x as int,
                y as int,
                x2 as int,
                y2 as int,
                dx as int,
                dy as int,
                sx as int,
                sy as int,
                err as int,
                (prev_fuel - 1) as nat,
            ));
            assert(pix_seq(line@) =~= pix_seq(prev_line) + seq![(prev_x, prev_y)]);
            assert(pix_seq(line@) + line_points(
                x as int,
                y as int,
                x2 as int,
                y2 as int,
                dx as int,
                dy as int,
                sx as int,
                sy as int,
                err as int,
                (prev_fuel - 1) as nat,
            ) =~= total);
        }
    }
    proof {
        assert(line_points(
            x as int,
            y as int,
            x2 as int,
            y2 as int,
            dx as int,
            dy as int,
            sx as int,
            sy as int,
            err as int,
            ((dx + dy) as nat - line@.len()) as nat,
        ) == seq![(x as int, y as int)]);
    }
    let ghost prev_line = line@;
    line.push((x2, y2));
    proof {
        assert(pix_seq(line@) =~= pix_seq(prev_line) + seq![(x2 as int, y2 as int)]);
        assert(pix_seq(line@) =~= total);
    }
    line
}

/// The error accumulator stays within `i64` for bounded `dx` and `dy`.
proof fn lemma_err_fits(dx: int, dy: int, nx: int, ny: int, err: int)
    requires
        0 <= dx <= 0x4000_0000,
        0 <= dy <= 0x4000_0000,
        0 <= nx <= dx,
        0 <= ny <= dy,
        err == dx * (ny + 1) - dy * (nx + 1),
    ensures
        -0x2000_0000_0000_0000 <= err <= 0x2000_0000_0000_0000,
        i64::MIN <= 2 * err <= i64::MAX,
        i64::MIN <= err - dy <= i64::MAX,
        i64::MIN <= err + dx <= i64::MAX,
        i64::MIN <= err - dy + dx <= i64::MAX,
{
    crate::fixed::lemma_mul_abs_bound(dx, ny + 1, 0x4000_0000, 0x4000_0001);
    crate::fixed::lemma_mul_abs_bound(dy, nx + 1, 0x4000_0000, 0x4000_0001);
}

/// A horizontal filled span: row `y`, from `x0` to `x1` inclusive.
#[derive(Clone, Copy, Debug, PartialEq, Eq, Structural)]
pub struct Span {
    pub y: i32,
    pub x0: i32,
    pub x1: i32,
}

/// Some pixel of `s` lies on row `y`.
pub open spec fn row_present(s: Seq<(int, int)>, y: int) -> bool {
    exists|k: int| 0 <= k < s.len() && (#[trigger] s[k]).1 == y
}

/// The smallest `x` among the pixels of `s` on row `y` (for a present row).
pub open spec fn row_min_x(s: Seq<(int, int)>, y: int) -> int
    decreases s.len(),
{
    if s.len() == 0 {
        0
    } else {
        let p = s.last();
        let rest = s.drop_last();
        if p.1 == y {
            if row_present(rest, y) {
                let m = row_min_x(rest, y);
                if p.0 < m {
                    p.0
                } else {
                    m
                }
            } else {
                p.0
            }
        } else {
            row_min_x(rest, y)
        }
    }
}

/// The largest `x` among the pixels of `s` on row `y` (for a present row).
pub open spec fn row_max_x(s: Seq<(int, int)>, y: int) -> int
    decreases s.len(),
{
    if s.len() == 0 {
        0
    } else {
        let p = s.last();
        let rest = s.drop_last();
        if p.1 == y {
            if row_present(rest, y) {
                let m = row_max_x(rest, y);
                if p.0 > m {
                    p.0
                } else {
                    m
                }
            } else {
                p.0
            }
        } else {
            row_max_x(rest, y)
        }
    }
}

/// The spans fill the outline exactly: one span per populated row, from
/// that row's leftmost to its rightmost pixel, in increasing row order,
/// and nothing for empty rows.
pub open spec fn spans_fill(o: Seq<(int, int)>, spans: Seq<Span>) -> bool {
    &&& forall|k: int|
        0 <= k < spans.len() ==> {
            &&& row_present(o, (#[trigger] spans[k]).y as int)
            &&& spans[k].x0 as int == row_min_x(o, spans[k].y as int)
            &&& spans[k].x1 as int == row_max_x(o, spans[k].y as int)
        }
    &&& forall|yy: int|
        #[trigger] row_present(o, yy) ==> exists|k: int|
            0 <= k < spans.len() && (#[trigger] spans[k]).y as int == yy
    &&& forall|k1: int, k2: int|
        0 <= k1 < k2 < spans.len() ==> (#[trigger] spans[k1]).y < (#[trigger] spans[k2]).y
}

/// Groups an outline's pixels by row and returns one filled span per
/// populated row, from the row's minimum `x` to its maximum `x`. Rows
/// with no outline pixel get no span.
pub fn scanline_fill(outline: &Vec<(i32, i32)>) -> (spans: Vec<Span>)
    requires
        forall|k: int|
            0 <= k < outline@.len() ==> -PIX_LIMIT <= (#[trigger] outline@[k]).0 <= PIX_LIMIT
                && -PIX_LIMIT <= outline@[k].1 <= PIX_LIMIT,
    ensures
        spans_fill(pix_seq(outline@), spans@),
{
    let ghost o = pix_seq(outline@);
    let mut spans: Vec<Span> = Vec::new();
    if outline.len() == 0 {
        return spans;
    }
    let mut ymin: i32 = outline[0].1;
    let mut ymax: i32 = outline[0].1;
    let mut i: usize = 1;
    while i < outline.len()
        invariant
            o == pix_seq(outline@),
            1 <= i <= outline@.len(),
            forall|k: int| 0 <= k < i ==> ymin <= (#[trigger] outline@[k]).1 <= ymax,
            forall|k: int|
                0 <= k < outline@.len() ==> -PIX_LIMIT <= (#[trigger] outline@[k]).0 <= PIX_LIMIT
                    && -PIX_LIMIT <= outline@[k].1 <= PIX_LIMIT,
            -PIX_LIMIT <= ymin <= PIX_LIMIT,
            -PIX_LIMIT <= ymax <= PIX_LIMIT,
        decreases outline@.len() - i,
    {
        let py = outline[i].1;
        if py < ymin {
            ymin = py;
        }
        if py > ymax {
            ymax = py;
        }
        i += 1;
    }
    let mut yy: i32 = ymin;
    while yy <= ymax
        invariant
            o == pix_seq(outline@),
            outline@.len() > 0,
            -PIX_LIMIT <= ymin <= PIX_LIMIT,
            -PIX_LIMIT <= ymax <= PIX_LIMIT,
            ymin <= yy <= ymax + 1,
            forall|k: int| 0 <= k < outline@.len() ==> ymin <= (#[trigger] outline@[k]).1 <= ymax,
            forall|k: int|
                0 <= k < outline@.len() ==> -PIX_LIMIT <= (#[trigger] outline@[k]).0 <= PIX_LIMIT
                    && -PIX_LIMIT <= outline@[k].1 <= PIX_LIMIT,
            forall|k: int|
                0 <= k < spans@.len() ==> {
                    &&& row_present(o, (#[trigger] spans@[k]).y as int)
                    &&& spans@[k].x0 as int == row_min_x(o, spans@[k].y as int)
                    &&& spans@[k].x1 as int == row_max_x(o, spans@[k].y as int)
                    &&& spans@[k].y < yy
                },
            forall|yp: int|
                ymin <= yp < yy && #[trigger] row_present(o, yp) ==> exists|k: int|
                    0 <= k < spans@.len() && (#[trigger] spans@[k]).y as int == yp,
            forall|k1: int, k2: int|
                0 <= k1 < k2 < spans@.len() ==> (#[trigger] spans@[k1]).y < (
                #[trigger] spans@[k2]).y,
        decreases ymax + 1 - yy,
    {
        let mut found: bool = false;
        let mut mn: i32 = 0;
        let mut mx: i32 = 0;
        let mut j: usize = 0;
        while j < outline.len()
            invariant
                o == pix_seq(outline@),
                0 <= j <= outline@.len(),
                found == row_present(o.subrange(0, j as int), yy as int),
                found ==> mn as int == row_min_x(o.subrange(0, j as int), yy as int),
                found ==> mx as int == row_max_x(o.subrange(0, j as int), yy as int),
            decreases outline@.len() - j,
        {
            let ghost prefix = o.subrange(0, j as int);
            let p = outline[j];
            proof {
                assert(o.subrange(0, j + 1).drop_last() =~= prefix);
                assert(o.subrange(0, j + 1).last() == o[j as int]);
            }
            if p.1 == yy {
                if !found {
                    found = true;
                    mn = p.0;
                    mx = p.0;
                } else {
                    if p.0 < mn {
                        mn = p.0;
                    }
                    if p.0 > mx {
                        mx = p.0;
                    }
                }
            }
            j += 1;
        }
        proof {
            assert(o.subrange(0, o.len() as int) =~= o);
        }
        let ghost spans_before = spans@;
        if found {
            spans.push(Span { y: yy, x0: mn, x1: mx });
        }
        proof {
            if found {
                assert((spans@[spans@.len() - 1]).y as int == yy as int);
            } else {
                assert(!row_present(o, yy as int));
            }
            assert forall|yp: int|
                ymin <= yp < yy + 1 && #[trigger] row_present(o, yp) implies exists|k: int|
                0 <= k < spans@.len() && (#[trigger] spans@[k]).y as int == yp by {
                if yp == yy as int {
                    assert(found);
                    assert(0 <= spans@.len() - 1 < spans@.len() && (spans@[spans@.len() - 1]).y
                        as int == yp);
                } else {
                    let k = choose|k: int|
                        0 <= k < spans_before.len() && (#[trigger] spans_before[k]).y as int == yp;
                    assert(0 <= k < spans@.len() && (spans@[k]).y as int == yp);
                }
            }
        }
        yy += 1;
    }
    spans
}

/// Screen-space coordinates handed to the triangle rasterizer must stay
/// within this bound (`PIX_LIMIT` pixels, in fixed point).
pub const SCREEN_LIMIT: i64 = 0x2000_0000_0000;

/// The pixel of a fixed-point screen coordinate: the integer part,
/// truncated toward zero.
pub open spec fn pix_of(v: int) -> int {
    div_t(v, FX_ONE as int)
}

/// The traced outline of a screen-space triangle: the Bresenham walks of
/// its three edges, concatenated in vertex order.
pub open spec fn tri_outline_points(t: Tri) -> Seq<(int, int)> {
    bresenham_points(pix_of(t.p0.x as int), pix_of(t.p0.y as int), pix_of(t.p1.x as int), pix_of(t.p1.y as int))
        + bresenham_points(pix_of(t.p1.x as int), pix_of(t.p1.y as int), pix_of(t.p2.x as int), pix_of(t.p2.y as int))
        + bresenham_points(pix_of(t.p2.x as int), pix_of(t.p2.y as int), pix_of(t.p0.x as int), pix_of(t.p0.y as int))
}

impl Tri {
    /// Every pixel of the triangle's outline: the three edges traced by
    /// `bresenham_line`, in order.
    pub fn draw_outline(&self) -> (pixels: Vec<(i32, i32)>)
        requires
            tri_xyz_bounded(*self, SCREEN_LIMIT as int),
        ensures
            pix_seq(pixels@) == tri_outline_points(*self),
            forall|k: int|
                0 <= k < pixels@.len() ==> -PIX_LIMIT <= (#[trigger] pixels@[k]).0 <= PIX_LIMIT
                    && -PIX_LIMIT <= pixels@[k].1 <= PIX_LIMIT,
    {
        proof {
            crate::fixed::lemma_div_t_abs_bound(self.p0.x as int, FX_ONE as int, SCREEN_LIMIT as int);
            crate::fixed::lemma_div_t_abs_bound(self.p0.y as int, FX_ONE as int, SCREEN_LIMIT as int);
            crate::fixed::lemma_div_t_abs_bound(self.p1.x as int, FX_ONE as int, SCREEN_LIMIT as int);
            crate::fixed::lemma_div_t_abs_bound(self.p1.y as int, FX_ONE as int, SCREEN_LIMIT as int);
            crate::fixed::lemma_div_t_abs_bound(self.p2.x as int, FX_ONE as int, SCREEN_LIMIT as int);
            crate::fixed::lemma_div_t_abs_bound(self.p2.y as int, FX_ONE as int, SCREEN_LIMIT as int);
        }
        let x0: i32 = (self.p0.x / FX_ONE) as i32;
        let y0: i32 = (self.p0.y / FX_ONE) as i32;
        let x1: i32 = (self.p1.x / FX_ONE) as i32;
        let y1: i32 = (self.p1.y / FX_ONE) as i32;
        let x2: i32 = (self.p2.x / FX_ONE) as i32;
        let y2: i32 = (self.p2.y / FX_ONE) as i32;
        let mut pixels = bresenham_line(x0, y0, x1, y1);
        let mut edge2 = bresenham_line(x1, y1, x2, y2);
        let mut edge3 = bresenham_line(x2, y2, x0, y0);
        let ghost s1 = pixels@;
        let ghost s2 = edge2@;
        let ghost s3 = edge3@;
        pixels.append(&mut edge2);
        pixels.append(&mut edge3);
        proof {
            assert(pixels@ == s1 + s2 + s3);
            assert(pix_seq(pixels@) =~= pix_seq(s1) + pix_seq(s2) + pix_seq(s3));
        }
        pixels
    }

    /// The filled triangle: its outline traced edge by edge, then filled
    /// row by row between each populated row's leftmost and rightmost
    /// outline pixels.
    pub fn draw(&self) -> (spans: Vec<Span>)
        requires
            tri_xyz_bounded(*self, SCREEN_LIMIT as int),
        ensures
            spans_fill(tri_outline_points(*self), spans@),
    {
        let outline = self.draw_outline();
        scanline_fill(&outline)
    }
}

} // verus!
