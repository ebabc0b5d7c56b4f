//! Layout arithmetic: where a popup goes and how per-core gauges are spread
//! over columns.

use vstd::prelude::*;

verus! {

/// A rectangle of terminal cells.
#[derive(Clone, Copy, PartialEq, Eq, Structural, Debug)]
pub struct Area {
    pub x: u16,
    pub y: u16,
    pub width: u16,
    pub height: u16,
}

/// A `w` by `h` rectangle centred in `area`, clipped to it.
pub open spec fn centered(w: u16, h: u16, area: Area) -> Area {
    Area {
        x: (area.x + (area.width.saturating_sub(w)) / 2) as u16,
        y: (area.y + (area.height.saturating_sub(h)) / 2) as u16,
        width: if w < area.width {
            w
        } else {
            area.width
        },
        height: if h < area.height {
            h
        } else {
            area.height
        },
    }
}

/// The rectangle of a `w` by `h` popup centred in `area` and clipped to it.
pub fn centered_rect(w: u16, h: u16, area: Area) -> (r: Area)
    requires
        area.x + area.width <= u16::MAX,
        area.y + area.height <= u16::MAX,
    ensures
        r == centered(w, h, area),
{
    Area {
        x: area.x + (area.width.saturating_sub(w)) / 2,
        y: area.y + (area.height.saturating_sub(h)) / 2,
        width: if w < area.width {
            w
        } else {
            area.width
        },
        height: if h < area.height {
            h
        } else {
            area.height
        },
    }
}

/// A centred popup lies inside the area it is centred in.
pub proof fn lemma_centered_inside(w: u16, h: u16, area: Area)
    requires
        area.x + area.width <= u16::MAX,
        area.y + area.height <= u16::MAX,
    ensures
        area.x <= centered(w, h, area).x,
        centered(w, h, area).x + centered(w, h, area).width <= area.x + area.width,
        area.y <= centered(w, h, area).y,
        centered(w, h, area).y + centered(w, h, area).height <= area.y + area.height,
{
}

/// How many columns `n` gauges are spread over: four above sixteen, three
/// above eight, two otherwise.
pub open spec fn grid_cols(n: nat) -> nat {
    if n > 16 {
        4
    } else if n > 8 {
        3
    } else {
        2
    }
}

/// How many gauges each column holds (the last may hold fewer).
pub open spec fn grid_rows(n: nat) -> nat {
    ((n + grid_cols(n) - 1) / (grid_cols(n) as int)) as nat
}

/// The column count and rows per column for `n` per-core gauges.
pub fn core_grid(n: usize) -> (r: (usize, usize))
    requires
        n <= usize::MAX - 4,
    ensures
        r.0 == grid_cols(n as nat),
        r.1 == grid_rows(n as nat),
{
    let cols: usize = if n > 16 {
        4
    } else if n > 8 {
        3
    } else {
        2
    };
    (cols, (n + cols - 1) / cols)
}

/// The gauges `start..end` that column `c` shows.
pub fn grid_span(c: usize, per_col: usize, n: usize) -> (r: (usize, usize))
    requires
        c * per_col <= usize::MAX,
        c * per_col + per_col <= usize::MAX,
    ensures
        r.0 == c * per_col,
        r.1 == if c * per_col + per_col < n {
            c * per_col + per_col
        } else {
            n as int
        },
{
    let start = c * per_col;
    let end = if start + per_col < n {
        start + per_col
    } else {
        n
    };
    (start, end)
}

/// Every gauge lands in exactly one column of the grid.
pub proof fn lemma_grid_covers(n: nat, i: nat)
    requires
        i < n,
    ensures
        ({
            let per = grid_rows(n);
            let c = i / per;
            &&& per > 0
            &&& c < grid_cols(n)
            &&& c * per <= i < c * per + per
        }),
{
    let cols = grid_cols(n);
    let per = grid_rows(n);
    assert(per > 0) by (nonlinear_arith)
        requires
            per == (n + cols - 1) / (cols as int),
            cols >= 2,
            n > 0,
    ;
    assert(n <= cols * per) by (nonlinear_arith)
        requires
            per == (n + cols - 1) / (cols as int),
            cols >= 2,
    ;
    let c = i / per;
    assert(c * per <= i < c * per + per) by (nonlinear_arith)
        requires
            c == i / per,
            per > 0,
    ;
    assert(c < cols) by (nonlinear_arith)
        requires
            c * per <= i,
            i < n,
            n <= cols * per,
            per > 0,
    ;
}

} // verus!
