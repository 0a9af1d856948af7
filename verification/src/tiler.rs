//! Work-area grid layout for player windows.

use vstd::prelude::*;

verus! {

/// Screen rectangle in pixels (right/bottom exclusive edges).
#[derive(Debug, Clone, Copy, PartialEq, Eq)]
pub struct Rect {
    pub left: i32,
    pub top: i32,
    pub right: i32,
    pub bottom: i32,
}

impl Rect {
    pub open spec fn spec_width(self) -> int {
        self.right - self.left
    }

    pub open spec fn spec_height(self) -> int {
        self.bottom - self.top
    }

    /// A rectangle whose width and height can be computed in `i32`.
    pub open spec fn measurable(self) -> bool {
        i32::MIN <= self.spec_width() <= i32::MAX && i32::MIN <= self.spec_height() <= i32::MAX
    }

    pub fn width(self) -> (w: i32)
        requires
            i32::MIN <= self.spec_width() <= i32::MAX,
        ensures
            w == self.spec_width(),
    {
        self.right - self.left
    }

    pub fn height(self) -> (h: i32)
        requires
            i32::MIN <= self.spec_height() <= i32::MAX,
        ensures
            h == self.spec_height(),
    {
        self.bottom - self.top
    }
}

} // verus!

verus! {

/// Smallest `c` with `c * c >= n` (the ceiling of the square root).
pub open spec fn is_ceil_sqrt(n: int, c: int) -> bool {
    &&& c >= 0
    &&& c * c >= n
    &&& (c == 0 || (c - 1) * (c - 1) < n)
}

/// Rows and columns chosen for `n` tiles: a fixed table up to ten, then a
/// near-square grid with `ceil(sqrt(n))` columns and as many rows as needed.
pub open spec fn spec_rows_cols(n: nat) -> (nat, nat) {
    if n == 0 {
        (0, 0)
    } else if n == 1 {
        (1, 1)
    } else if n == 2 {
        (1, 2)
    } else if n == 3 {
        (1, 3)
    } else if n == 4 {
        (2, 2)
    } else if n == 5 || n == 6 {
        (2, 3)
    } else if n == 7 || n == 8 {
        (2, 4)
    } else if n == 9 {
        (3, 3)
    } else if n == 10 {
        (2, 5)
    } else {
        let c = choose|c: nat| is_ceil_sqrt(n as int, c as int);
        (((n + c - 1) / c as int) as nat, c)
    }
}

proof fn lemma_ceil_sqrt_exists(n: nat)
    ensures
        exists|c: nat| is_ceil_sqrt(n as int, c as int),
    decreases n,
{
    if n == 0 {
        assert(is_ceil_sqrt(0, 0));
    } else {
        let m = (n - 1) as nat;
        lemma_ceil_sqrt_exists(m);
        let c = choose|c: nat| is_ceil_sqrt(m as int, c as int);
        if c * c >= n {
            assert(is_ceil_sqrt(n as int, c as int));
        } else {
            assert((c + 1) * (c + 1) >= n) by (nonlinear_arith)
                requires
                    c * c == n - 1,
                    c >= 0,
            ;
            assert(is_ceil_sqrt(n as int, (c + 1) as int));
        }
    }
}

proof fn lemma_ceil_sqrt_unique(n: int, a: int, b: int)
    requires
        is_ceil_sqrt(n, a),
        is_ceil_sqrt(n, b),
    ensures
        a == b,
{
    if a < b {
        assert(a * a <= (b - 1) * (b - 1)) by (nonlinear_arith)
            requires
                0 <= a <= b - 1,
        ;
    } else if b < a {
        assert(b * b <= (a - 1) * (a - 1)) by (nonlinear_arith)
            requires
                0 <= b <= a - 1,
        ;
    }
}

/// Ceiling of the square root of `n`.
fn ceil_sqrt(n: usize) -> (c: usize)
    ensures
        is_ceil_sqrt(n as int, c as int),
{
    let mut c: u64 = 0;
    let nn: u128 = n as u128;
    loop
        invariant
            c <= n,
            nn == n,
            c == 0 || (c - 1) * (c - 1) < n,
        ensures
            c <= n,
            c * c >= n,
            c == 0 || (c - 1) * (c - 1) < n,
        decreases n - c,
    {
        assert((c as u128) * (c as u128) <= u128::MAX) by (nonlinear_arith)
            requires
                0 <= c <= u64::MAX,
        ;
        let sq = (c as u128) * (c as u128);
        if sq >= nn {
            break;
        }
        assert(c < n) by (nonlinear_arith)
            requires
                c * c < n,
                c >= 0,
        ;
        c = c + 1;
    }
    c as usize
}

/// Rows and columns for `n` tiles.
pub fn rows_cols(n: usize) -> (rc: (usize, usize))
    ensures
        (rc.0 as nat, rc.1 as nat) == spec_rows_cols(n as nat),
{
    match n {
        0 => (0, 0),
        1 => (1, 1),
        2 => (1, 2),
        3 => (1, 3),
        4 => (2, 2),
        5 | 6 => (2, 3),
        7 | 8 => (2, 4),
        9 => (3, 3),
        10 => (2, 5),
        _ => {
            let cols = ceil_sqrt(n);
            proof {
                lemma_ceil_sqrt_exists(n as nat);
                let c = choose|c: nat| is_ceil_sqrt(n as int, c as int);
                lemma_ceil_sqrt_unique(n as int, c as int, cols as int);
            }
            assert(cols >= 2) by (nonlinear_arith)
                requires
                    cols * cols >= n,
                    n >= 11,
            ;
            assert(n / cols <= n / 2) by (nonlinear_arith)
                requires
                    cols >= 2,
            ;
            let rows = n / cols + if n % cols != 0 { 1 } else { 0 };
            assert(rows == (n + cols - 1) / (cols as int)) by (nonlinear_arith)
                requires
                    cols >= 1,
                    rows == n / cols + if n % cols != 0 { 1int } else { 0int },
            ;
            (rows, cols)
        }
    }
}

} // verus!

verus! {

pub open spec fn grid_rows(n: nat) -> nat {
    spec_rows_cols(n).0
}

pub open spec fn grid_cols(n: nat) -> nat {
    spec_rows_cols(n).1
}

/// Width of one grid cell (the last column takes the remainder).
pub open spec fn cell_w(n: nat, area: Rect) -> int {
    area.spec_width() / (grid_cols(n) as int)
}

/// Height of one grid cell (the last row takes the remainder).
pub open spec fn cell_h(n: nat, area: Rect) -> int {
    area.spec_height() / (grid_rows(n) as int)
}

pub open spec fn cell_left(n: nat, area: Rect, i: int) -> int {
    area.left + (i % (grid_cols(n) as int)) * cell_w(n, area)
}

pub open spec fn cell_top(n: nat, area: Rect, i: int) -> int {
    area.top + (i / (grid_cols(n) as int)) * cell_h(n, area)
}

pub open spec fn cell_right(n: nat, area: Rect, i: int) -> int {
    if i % (grid_cols(n) as int) + 1 == grid_cols(n) {
        area.right as int
    } else {
        cell_left(n, area, i) + cell_w(n, area)
    }
}

pub open spec fn cell_bottom(n: nat, area: Rect, i: int) -> int {
    if i / (grid_cols(n) as int) + 1 == grid_rows(n) {
        area.bottom as int
    } else {
        cell_top(n, area, i) + cell_h(n, area)
    }
}

/// `r` is cell `i` of the grid for `n` tiles over `area`.
pub open spec fn is_grid_cell(n: nat, area: Rect, i: int, r: Rect) -> bool {
    &&& r.left == cell_left(n, area, i)
    &&& r.top == cell_top(n, area, i)
    &&& r.right == cell_right(n, area, i)
    &&& r.bottom == cell_bottom(n, area, i)
}

/// A non-empty area whose size fits in `i32`.
pub open spec fn usable_area(area: Rect) -> bool {
    &&& area.measurable()
    &&& area.spec_width() > 0
    &&& area.spec_height() > 0
}

/// Enough cells for `n` tiles, no row left completely empty, and never
/// more rows than columns.
pub proof fn lemma_grid_fits(n: nat)
    requires
        n > 0,
    ensures
        grid_rows(n) >= 1,
        grid_cols(n) >= 1,
        grid_rows(n) * grid_cols(n) >= n,
        (grid_rows(n) - 1) * grid_cols(n) < n,
        grid_cols(n) <= n,
        grid_rows(n) <= grid_cols(n),
{
    if n > 10 {
        lemma_ceil_sqrt_exists(n);
        let c = choose|c: nat| is_ceil_sqrt(n as int, c as int);
        assert(c >= 4) by (nonlinear_arith)
            requires
                c * c >= n,
                n > 10,
                c >= 0,
        ;
        let q: int = (n + c - 1) / (c as int);
        let m: int = (n + c - 1) % (c as int);
        assert(q * c + m == n + c - 1 && 0 <= m < c) by (nonlinear_arith)
            requires
                c >= 1,
                q == (n + c - 1) / (c as int),
                m == (n + c - 1) % (c as int),
        ;
        assert(q >= 1 && (q - 1) * c == q * c - c) by (nonlinear_arith)
            requires
                c >= 1,
                q * c >= n,
                n > 0,
        ;
        let r = q as nat;
        assert(r * c >= n && (r - 1) * c < n && r >= 1);
        assert(c <= n) by (nonlinear_arith)
            requires
                (c - 1) * (c - 1) < n,
                c >= 4,
        ;
        assert(r <= c) by (nonlinear_arith)
            requires
                c >= 1,
                c * c >= n,
                (r - 1) * c < n,
        ;
        assert(grid_rows(n) == r && grid_cols(n) == c);
        assert(grid_rows(n) * grid_cols(n) >= n);
    } else if n == 1 {
        assert(grid_rows(n) == 1 && grid_cols(n) == 1);
        assert(1 * 1 >= n && (1 - 1) * 1 < n);
    } else if n == 2 {
        assert(grid_rows(n) == 1 && grid_cols(n) == 2);
        assert(1 * 2 >= n && (1 - 1) * 2 < n);
    } else if n == 3 {
        assert(grid_rows(n) == 1 && grid_cols(n) == 3);
        assert(1 * 3 >= n && (1 - 1) * 3 < n);
    } else if n == 4 {
        assert(grid_rows(n) == 2 && grid_cols(n) == 2);
        assert(2 * 2 >= n && (2 - 1) * 2 < n);
    } else if n == 5 {
        assert(grid_rows(n) == 2 && grid_cols(n) == 3);
        assert(2 * 3 >= n && (2 - 1) * 3 < n);
    } else if n == 6 {
        assert(grid_rows(n) == 2 && grid_cols(n) == 3);
        assert(2 * 3 >= n && (2 - 1) * 3 < n);
    } else if n == 7 {
        assert(grid_rows(n) == 2 && grid_cols(n) == 4);
        assert(2 * 4 >= n && (2 - 1) * 4 < n);
    } else if n == 8 {
        assert(grid_rows(n) == 2 && grid_cols(n) == 4);
        assert(2 * 4 >= n && (2 - 1) * 4 < n);
    } else if n == 9 {
        assert(grid_rows(n) == 3 && grid_cols(n) == 3);
        assert(3 * 3 >= n && (3 - 1) * 3 < n);
    } else {
        assert(n == 10);
        assert(grid_rows(n) == 2 && grid_cols(n) == 5);
        assert(2 * 5 >= n && (2 - 1) * 5 < n);
    }
}

proof fn lemma_col_bound(n: nat)
    requires
        n > 0,
        n <= usize::MAX,
    ensures
        grid_cols(n) <= 0x1_0000_0000,
        grid_rows(n) <= 0x1_0000_0001,
{
    lemma_grid_fits(n);
    if n > 10 {
        let c = grid_cols(n);
        lemma_ceil_sqrt_exists(n);
        let c0 = choose|c: nat| is_ceil_sqrt(n as int, c as int);
        assert((c - 1) * (c - 1) < n);
        assert(c <= 0x1_0000_0000) by (nonlinear_arith)
            requires
                (c - 1) * (c - 1) < n,
                n <= 0xffff_ffff_ffff_ffff,
                c >= 1,
        ;
    }
}

/// Split `area` into a `rows x cols` grid and return the first `n` cells in
/// row-major order; the last column / row absorbs the rounding remainder.
pub fn grid_layout(n: usize, area: Rect) -> (cells: Vec<Rect>)
    requires
        area.measurable(),
    ensures
        n == 0 || !usable_area(area) ==> cells@.len() == 0,
        n > 0 && usable_area(area) ==> {
            &&& cells@.len() == n
            &&& forall|i: int| 0 <= i < n ==> is_grid_cell(n as nat, area, i, #[trigger] cells@[i])
        },
{
    if n == 0 || area.width() <= 0 || area.height() <= 0 {
        return Vec::new();
    }
    let (rows, cols) = rows_cols(n);
    proof {
        lemma_grid_fits(n as nat);
        lemma_col_bound(n as nat);
    }
    let width = area.width() as i64;
    let height = area.height() as i64;
    let cw: i64 = width / (cols as i64);
    let ch: i64 = height / (rows as i64);
    assert(cw == cell_w(n as nat, area));
    assert(ch == cell_h(n as nat, area));
    assert(0 <= cw * (cols as int) <= width) by (nonlinear_arith)
        requires
            cols >= 1,
            width > 0,
            cw == (width as int) / (cols as int),
    ;
    assert(0 <= ch * (rows as int) <= height) by (nonlinear_arith)
        requires
            rows >= 1,
            height > 0,
            ch == (height as int) / (rows as int),
    ;
    let mut out: Vec<Rect> = Vec::new();
    let mut i: usize = 0;
    while i < n
        invariant
            0 <= i <= n,
            out@.len() == i,
            rows as nat == grid_rows(n as nat),
            cols as nat == grid_cols(n as nat),
            rows >= 1,
            cols >= 1,
            rows * cols >= n,
            cols <= 0x1_0000_0000,
            rows <= 0x1_0000_0001,
            usable_area(area),
            width == area.spec_width(),
            height == area.spec_height(),
            cw == cell_w(n as nat, area),
            ch == cell_h(n as nat, area),
            0 <= cw * (cols as int) <= width,
            0 <= ch * (rows as int) <= height,
            forall|k: int| 0 <= k < i ==> is_grid_cell(n as nat, area, k, #[trigger] out@[k]),
        decreases n - i,
    {
        let r = i / cols;
        let c = i % cols;
        assert(r < rows) by (nonlinear_arith)
            requires
                i < n,
                n <= rows * cols,
                cols >= 1,
                r == i / cols,
        ;
        assert(0 <= (c as int) * cw && (c as int) * cw + cw <= width) by (nonlinear_arith)
            requires
                c < cols,
                0 <= cw,
                cw * (cols as int) <= width,
        ;
        assert(0 <= (r as int) * ch && (r as int) * ch + ch <= height) by (nonlinear_arith)
            requires
                r < rows,
                0 <= ch,
                ch * (rows as int) <= height,
        ;
        let left64: i64 = area.left as i64 + (c as i64) * cw;
        let top64: i64 = area.top as i64 + (r as i64) * ch;
        let left = left64 as i32;
        let top = top64 as i32;
        let right = if c + 1 == cols {
            area.right
        } else {
            (left64 + cw) as i32
        };
        let bottom = if r + 1 == rows {
            area.bottom
        } else {
            (top64 + ch) as i32
        };
        let cell = Rect { left, top, right, bottom };
        assert(is_grid_cell(n as nat, area, i as int, cell));
        out.push(cell);
        i = i + 1;
    }
    out
}

} // verus!

verus! {

proof fn lemma_cell_index(n: nat, i: int)
    requires
        n > 0,
        0 <= i < n,
    ensures
        0 <= i % (grid_cols(n) as int) < grid_cols(n),
        0 <= i / (grid_cols(n) as int) < grid_rows(n),
        i == (i / (grid_cols(n) as int)) * grid_cols(n) + i % (grid_cols(n) as int),
{
    lemma_grid_fits(n);
    let cols = grid_cols(n) as int;
    let rows = grid_rows(n) as int;
    assert(0 <= i % cols < cols && i == (i / cols) * cols + i % cols && 0 <= i / cols)
        by (nonlinear_arith)
        requires
            cols >= 1,
            i >= 0,
    ;
    assert(i / cols < rows) by (nonlinear_arith)
        requires
            cols >= 1,
            0 <= i < n,
            rows * cols >= n,
    ;
}

proof fn lemma_cell_sizes(n: nat, area: Rect)
    requires
        n > 0,
        usable_area(area),
    ensures
        0 <= cell_w(n, area),
        0 <= cell_h(n, area),
        cell_w(n, area) * grid_cols(n) <= area.spec_width(),
        cell_h(n, area) * grid_rows(n) <= area.spec_height(),
        area.spec_width() >= grid_cols(n) ==> cell_w(n, area) >= 1,
        area.spec_height() >= grid_rows(n) ==> cell_h(n, area) >= 1,
{
    lemma_grid_fits(n);
    let cols = grid_cols(n) as int;
    let rows = grid_rows(n) as int;
    let w = area.spec_width();
    let h = area.spec_height();
    assert(0 <= w / cols && (w / cols) * cols <= w && (w >= cols ==> w / cols >= 1))
        by (nonlinear_arith)
        requires
            cols >= 1,
            w > 0,
    ;
    assert(0 <= h / rows && (h / rows) * rows <= h && (h >= rows ==> h / rows >= 1))
        by (nonlinear_arith)
        requires
            rows >= 1,
            h > 0,
    ;
}

/// Every one of the `n` cells lies inside the work area; when the area is at
/// least one pixel per column and per row, every cell also has a positive size.
pub proof fn lemma_cells_inside(n: nat, area: Rect, i: int)
    requires
        n > 0,
        usable_area(area),
        0 <= i < n,
    ensures
        area.left <= cell_left(n, area, i) <= cell_right(n, area, i) <= area.right,
        area.top <= cell_top(n, area, i) <= cell_bottom(n, area, i) <= area.bottom,
        area.spec_width() >= grid_cols(n) ==> cell_left(n, area, i) < cell_right(n, area, i),
        area.spec_height() >= grid_rows(n) ==> cell_top(n, area, i) < cell_bottom(n, area, i),
{
    lemma_cell_index(n, i);
    lemma_cell_sizes(n, area);
    let cols = grid_cols(n) as int;
    let rows = grid_rows(n) as int;
    let c = i % cols;
    let r = i / cols;
    let cw = cell_w(n, area);
    let ch = cell_h(n, area);
    assert(0 <= c * cw && c * cw + cw <= cw * cols) by (nonlinear_arith)
        requires
            0 <= c < cols,
            cw >= 0,
    ;
    assert(0 <= r * ch && r * ch + ch <= ch * rows) by (nonlinear_arith)
        requires
            0 <= r < rows,
            ch >= 0,
    ;
}

/// Two different cells of the grid never overlap.
pub proof fn lemma_cells_disjoint(n: nat, area: Rect, i: int, j: int)
    requires
        n > 0,
        usable_area(area),
        0 <= i < n,
        0 <= j < n,
        i != j,
    ensures
        cell_right(n, area, i) <= cell_left(n, area, j) || cell_right(n, area, j) <= cell_left(
            n,
            area,
            i,
        ) || cell_bottom(n, area, i) <= cell_top(n, area, j) || cell_bottom(n, area, j)
            <= cell_top(n, area, i),
{
    lemma_cell_index(n, i);
    lemma_cell_index(n, j);
    lemma_cell_sizes(n, area);
    let cols = grid_cols(n) as int;
    let cw = cell_w(n, area);
    let ch = cell_h(n, area);
    let ci = i % cols;
    let cj = j % cols;
    let ri = i / cols;
    let rj = j / cols;
    if ci < cj {
        assert(ci * cw + cw <= cj * cw) by (nonlinear_arith)
            requires
                ci < cj,
                cw >= 0,
        ;
    } else if cj < ci {
        assert(cj * cw + cw <= ci * cw) by (nonlinear_arith)
            requires
                cj < ci,
                cw >= 0,
        ;
    } else if ri < rj {
        assert(ri * ch + ch <= rj * ch) by (nonlinear_arith)
            requires
                ri < rj,
                ch >= 0,
        ;
    } else {
        assert(rj < ri);
        assert(rj * ch + ch <= ri * ch) by (nonlinear_arith)
            requires
                rj < ri,
                ch >= 0,
        ;
    }
}

/// Neighbouring cells in one row share their vertical edge and their top.
pub proof fn lemma_row_neighbours_abut(n: nat, area: Rect, i: int)
    requires
        n > 0,
        usable_area(area),
        0 <= i,
        i + 1 < n,
        i % (grid_cols(n) as int) + 1 < grid_cols(n),
    ensures
        cell_right(n, area, i) == cell_left(n, area, i + 1),
        cell_top(n, area, i) == cell_top(n, area, i + 1),
{
    lemma_cell_index(n, i);
    lemma_cell_index(n, i + 1);
    let cols = grid_cols(n) as int;
    let cw = cell_w(n, area);
    let c = i % cols;
    let q = i / cols;
    vstd::arithmetic::div_mod::lemma_fundamental_div_mod_converse(i + 1, cols, q, c + 1);
    assert(c * cw + cw == (c + 1) * cw) by (nonlinear_arith);
}

} // verus!

verus! {

/// Pairs of (window, target cell) among the first `k` positions: windows and
/// cells are matched by position and a zero window handle is skipped.
pub open spec fn tile_targets_upto(hwnds: Seq<isize>, rects: Seq<Rect>, k: nat) -> Seq<(isize, Rect)>
    decreases k,
{
    if k == 0 {
        Seq::empty()
    } else {
        let prev = tile_targets_upto(hwnds, rects, (k - 1) as nat);
        if hwnds[k - 1] == 0 {
            prev
        } else {
            prev.push((hwnds[k - 1], rects[k - 1]))
        }
    }
}

/// All (window, cell) moves of a tiling pass; the shorter list decides how many.
pub open spec fn spec_tile_targets(hwnds: Seq<isize>, rects: Seq<Rect>) -> Seq<(isize, Rect)> {
    let n = if hwnds.len() < rects.len() { hwnds.len() } else { rects.len() };
    tile_targets_upto(hwnds, rects, n)
}

/// Which window goes to which cell when tiling (the moves themselves are the
/// caller's business).
pub fn tile_targets(hwnds: &[isize], rects: &[Rect]) -> (out: Vec<(isize, Rect)>)
    ensures
        out@ == spec_tile_targets(hwnds@, rects@),
{
    let n = if hwnds.len() < rects.len() {
        hwnds.len()
    } else {
        rects.len()
    };
    let mut out: Vec<(isize, Rect)> = Vec::new();
    let mut k: usize = 0;
    while k < n
        invariant
            0 <= k <= n,
            n <= hwnds@.len(),
            n <= rects@.len(),
            out@ == tile_targets_upto(hwnds@, rects@, k as nat),
        decreases n - k,
    {
        if hwnds[k] != 0 {
            out.push((hwnds[k], rects[k]));
        }
        k = k + 1;
    }
    out
}

} // verus!
