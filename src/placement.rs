use crate::error::BadgeError;
use crate::random::draw_below;
use vstd::arithmetic::div_mod::{
    lemma_div_multiples_vanish, lemma_div_pos_is_pos, lemma_fundamental_div_mod, lemma_mod_multiples_basic,
    lemma_mod_pos_bound,
};
use vstd::prelude::*;

verus! {

/// Grid lines across the canvas width: `(canvas_width - badge_size) / badge_size`.
pub open spec fn grid_rows(canvas_width: int, badge_size: int) -> int {
    (canvas_width - badge_size) / badge_size
}

/// Grid lines down the canvas height: `(canvas_height - badge_size) / badge_size`.
pub open spec fn grid_columns(canvas_height: int, badge_size: int) -> int {
    (canvas_height - badge_size) / badge_size
}

/// How many indices lie in `1..n`.
pub open spec fn span(n: int) -> int {
    if n > 1 {
        n - 1
    } else {
        0
    }
}

/// The number of distinct cells a badge may take: row indices `1..rows`
/// times column indices `1..columns`.
pub open spec fn free_cells(canvas_width: int, canvas_height: int, badge_size: int) -> int {
    span(grid_rows(canvas_width, badge_size)) * span(grid_columns(canvas_height, badge_size))
}

/// The error that placing `count` badges ends in, if any.
pub open spec fn placement_error(canvas_width: int, canvas_height: int, badge_size: int, count: int) -> Option<
    BadgeError,
> {
    if canvas_width <= badge_size || canvas_height <= badge_size {
        Some(BadgeError::InvalidCanvasSize)
    } else if count > free_cells(canvas_width, canvas_height, badge_size) {
        Some(BadgeError::PlacementExhausted)
    } else {
        None
    }
}

/// A cell origin that lies on the badge grid: row index in `1..rows`,
/// column index in `1..columns`.
pub open spec fn on_grid(cell: (u32, u32), canvas_width: int, canvas_height: int, badge_size: int) -> bool {
    &&& cell.0 as int % badge_size == 0
    &&& cell.1 as int % badge_size == 0
    &&& 1 <= cell.0 as int / badge_size < grid_rows(canvas_width, badge_size)
    &&& 1 <= cell.1 as int / badge_size < grid_columns(canvas_height, badge_size)
}

/// A badge at this origin keeps a margin of one badge from every edge.
pub open spec fn clear_of_edges(cell: (u32, u32), canvas_width: int, canvas_height: int, badge_size: int) -> bool {
    &&& badge_size <= cell.0
    &&& cell.0 + badge_size <= canvas_width - badge_size
    &&& badge_size <= cell.1
    &&& cell.1 + badge_size <= canvas_height - badge_size
}

/// The cell numbered `k` when the free cells are numbered row by row.
pub open spec fn cell_of(k: int, canvas_height: int, badge_size: int) -> (u32, u32) {
    let c = span(grid_columns(canvas_height, badge_size));
    (((k / c + 1) * badge_size) as u32, ((k % c + 1) * badge_size) as u32)
}

/// Floyd's sampling without replacement: step `i` draws below `start + i + 1`
/// and takes the draw, or `start + i` where the draw was taken before.
pub open spec fn floyd(start: int, draws: Seq<u64>) -> Seq<u64>
    decreases draws.len(),
{
    if draws.len() == 0 {
        Seq::empty()
    } else {
        let prev = floyd(start, draws.drop_last());
        let top = start + draws.len() - 1;
        let pick = draws.last() as int % (top + 1);
        if prev.contains(pick as u64) {
            prev.push(top as u64)
        } else {
            prev.push(pick as u64)
        }
    }
}

/// The cells chosen for one badge per draw.
pub open spec fn placement(canvas_width: int, canvas_height: int, badge_size: int, draws: Seq<u64>) -> Seq<
    (u32, u32),
> {
    let picks = floyd(free_cells(canvas_width, canvas_height, badge_size) - draws.len(), draws);
    picks.map_values(|k: u64| cell_of(k as int, canvas_height, badge_size))
}

proof fn lemma_floyd(start: int, draws: Seq<u64>)
    requires
        0 <= start,
        start + draws.len() <= u64::MAX + 1,
    ensures
        floyd(start, draws).len() == draws.len(),
        floyd(start, draws).no_duplicates(),
        forall|i: int| 0 <= i < draws.len() ==> #[trigger] floyd(start, draws)[i] < start + draws.len(),
    decreases draws.len(),
{
    if draws.len() > 0 {
        let prev = floyd(start, draws.drop_last());
        lemma_floyd(start, draws.drop_last());
        let top = start + draws.len() - 1;
        let pick = draws.last() as int % (top + 1);
        lemma_mod_pos_bound(draws.last() as int, top + 1);
        let v: u64 = if prev.contains(pick as u64) {
            top as u64
        } else {
            pick as u64
        };
        assert(!prev.contains(v)) by {
            if prev.contains(top as u64) {
                let i = choose|i: int| 0 <= i < prev.len() && prev[i] == top as u64;
                assert(prev[i] < top);
            }
        }
        let s = floyd(start, draws);
        assert(s == prev.push(v));
        assert forall|i: int, j: int| 0 <= i < s.len() && 0 <= j < s.len() && i != j implies s[i] != s[j] by {
            if j == s.len() - 1 {
                assert(prev.contains(prev[i]));
            } else if i == s.len() - 1 {
                assert(prev.contains(prev[j]));
            }
        }
    }
}

proof fn lemma_cell(k: int, canvas_width: int, canvas_height: int, badge_size: int)
    requires
        0 < badge_size < canvas_width <= u32::MAX,
        badge_size < canvas_height <= u32::MAX,
        0 <= k < free_cells(canvas_width, canvas_height, badge_size),
    ensures
        span(grid_columns(canvas_height, badge_size)) > 0,
        0 <= k / span(grid_columns(canvas_height, badge_size)) < span(grid_rows(canvas_width, badge_size)),
        0 <= k % span(grid_columns(canvas_height, badge_size)) < span(grid_columns(canvas_height, badge_size)),
        cell_of(k, canvas_height, badge_size).0 == (k / span(grid_columns(canvas_height, badge_size)) + 1)
            * badge_size,
        cell_of(k, canvas_height, badge_size).1 == (k % span(grid_columns(canvas_height, badge_size)) + 1)
            * badge_size,
        on_grid(cell_of(k, canvas_height, badge_size), canvas_width, canvas_height, badge_size),
        clear_of_edges(cell_of(k, canvas_height, badge_size), canvas_width, canvas_height, badge_size),
{
    let b = badge_size;
    let rows = grid_rows(canvas_width, b);
    let cols = grid_columns(canvas_height, b);
    let sr = span(rows);
    let c = span(cols);
    assert(sr > 0 && c > 0) by (nonlinear_arith)
        requires
            sr >= 0,
            c >= 0,
            0 <= k < sr * c,
    ;
    lemma_fundamental_div_mod(k, c);
    lemma_mod_pos_bound(k, c);
    lemma_div_pos_is_pos(k, c);
    let q = k / c;
    let r = k % c;
    assert(q < sr) by (nonlinear_arith)
        requires
            k == c * q + r,
            0 <= r,
            k < sr * c,
            c > 0,
    ;
    lemma_fundamental_div_mod(canvas_width - b, b);
    lemma_mod_pos_bound(canvas_width - b, b);
    lemma_fundamental_div_mod(canvas_height - b, b);
    lemma_mod_pos_bound(canvas_height - b, b);
    assert((q + 1) * b + b <= canvas_width - b) by (nonlinear_arith)
        requires
            q + 1 <= rows - 1,
            canvas_width - b == b * rows + (canvas_width - b) % b,
            (canvas_width - b) % b >= 0,
            b > 0,
    ;
    assert((r + 1) * b + b <= canvas_height - b) by (nonlinear_arith)
        requires
            r + 1 <= cols - 1,
            canvas_height - b == b * cols + (canvas_height - b) % b,
            (canvas_height - b) % b >= 0,
            b > 0,
    ;
    assert(b <= (q + 1) * b && b <= (r + 1) * b) by (nonlinear_arith)
        requires
            q >= 0,
            r >= 0,
            b > 0,
    ;
    lemma_mod_multiples_basic(q + 1, b);
    lemma_mod_multiples_basic(r + 1, b);
    lemma_div_multiples_vanish(q + 1, b);
    lemma_div_multiples_vanish(r + 1, b);
    assert(b * (q + 1) == (q + 1) * b && b * (r + 1) == (r + 1) * b) by (nonlinear_arith);
}

proof fn lemma_cell_injective(k1: int, k2: int, canvas_width: int, canvas_height: int, badge_size: int)
    requires
        0 < badge_size < canvas_width <= u32::MAX,
        badge_size < canvas_height <= u32::MAX,
        0 <= k1 < free_cells(canvas_width, canvas_height, badge_size),
        0 <= k2 < free_cells(canvas_width, canvas_height, badge_size),
        k1 != k2,
    ensures
        cell_of(k1, canvas_height, badge_size) != cell_of(k2, canvas_height, badge_size),
{
    lemma_cell(k1, canvas_width, canvas_height, badge_size);
    lemma_cell(k2, canvas_width, canvas_height, badge_size);
    let c = span(grid_columns(canvas_height, badge_size));
    let b = badge_size;
    lemma_fundamental_div_mod(k1, c);
    lemma_fundamental_div_mod(k2, c);
    if cell_of(k1, canvas_height, b) == cell_of(k2, canvas_height, b) {
        let q1 = k1 / c;
        let q2 = k2 / c;
        let r1 = k1 % c;
        let r2 = k2 % c;
        assert(q1 == q2) by (nonlinear_arith)
            requires
                (q1 + 1) * b == (q2 + 1) * b,
                b > 0,
        ;
        assert(r1 == r2) by (nonlinear_arith)
            requires
                (r1 + 1) * b == (r2 + 1) * b,
                b > 0,
        ;
    }
}

/// Every placement that does not fail gives one cell per draw, no cell
/// twice, each on the badge grid and a badge's width clear of the edges.
pub proof fn lemma_placement_valid(canvas_width: u32, canvas_height: u32, badge_size: u32, draws: Seq<u64>)
    requires
        badge_size > 0,
        placement_error(canvas_width as int, canvas_height as int, badge_size as int, draws.len() as int)
            is None,
    ensures
        placement(canvas_width as int, canvas_height as int, badge_size as int, draws).len() == draws.len(),
        placement(canvas_width as int, canvas_height as int, badge_size as int, draws).no_duplicates(),
        forall|i: int|
            0 <= i < draws.len() ==> {
                let cell = #[trigger] placement(
                    canvas_width as int,
                    canvas_height as int,
                    badge_size as int,
                    draws,
                )[i];
                on_grid(cell, canvas_width as int, canvas_height as int, badge_size as int) && clear_of_edges(
                    cell,
                    canvas_width as int,
                    canvas_height as int,
                    badge_size as int,
                )
            },
{
    let (w, h, b) = (canvas_width as int, canvas_height as int, badge_size as int);
    let avail = free_cells(w, h, b);
    assert(avail <= u64::MAX) by {
        lemma_div_pos_is_pos(w - b, b);
        lemma_div_pos_is_pos(h - b, b);
        assert((w - b) / b <= w - b) by {
            lemma_fundamental_div_mod(w - b, b);
            lemma_mod_pos_bound(w - b, b);
            assert((w - b) / b <= w - b) by (nonlinear_arith)
                requires
                    w - b == b * ((w - b) / b) + (w - b) % b,
                    (w - b) % b >= 0,
                    (w - b) / b >= 0,
                    b >= 1,
            ;
        }
        assert((h - b) / b <= h - b) by {
            lemma_fundamental_div_mod(h - b, b);
            lemma_mod_pos_bound(h - b, b);
            assert((h - b) / b <= h - b) by (nonlinear_arith)
                requires
                    h - b == b * ((h - b) / b) + (h - b) % b,
                    (h - b) % b >= 0,
                    (h - b) / b >= 0,
                    b >= 1,
            ;
        }
        let sr = span(grid_rows(w, b));
        let sc = span(grid_columns(h, b));
        assert(sr * sc <= u64::MAX) by (nonlinear_arith)
            requires
                0 <= sr <= u32::MAX,
                0 <= sc <= u32::MAX,
        ;
    }
    let start = avail - draws.len();
    lemma_floyd(start, draws);
    let picks = floyd(start, draws);
    let cells = placement(w, h, b, draws);
    assert forall|i: int| 0 <= i < draws.len() implies on_grid(#[trigger] cells[i], w, h, b) && clear_of_edges(
        cells[i],
        w,
        h,
        b,
    ) by {
        lemma_cell(picks[i] as int, w, h, b);
    }
    assert forall|i: int, j: int| 0 <= i < cells.len() && 0 <= j < cells.len() && i != j implies cells[i]
        != cells[j] by {
        lemma_cell_injective(picks[i] as int, picks[j] as int, w, h, b);
    }
}

/// The number of free cells, for a canvas larger than one badge.
pub fn free_cell_count(canvas_width: u32, canvas_height: u32, badge_size: u32) -> (n: u64)
    requires
        0 < badge_size,
        badge_size < canvas_width,
        badge_size < canvas_height,
    ensures
        n == free_cells(canvas_width as int, canvas_height as int, badge_size as int),
{
    let rows = (canvas_width - badge_size) / badge_size;
    let columns = (canvas_height - badge_size) / badge_size;
    let xs: u64 = if rows > 1 {
        (rows - 1) as u64
    } else {
        0
    };
    let ys: u64 = if columns > 1 {
        (columns - 1) as u64
    } else {
        0
    };
    assert(xs * ys <= u64::MAX) by (nonlinear_arith)
        requires
            xs <= u32::MAX,
            ys <= u32::MAX,
    ;
    xs * ys
}

fn holds(v: &Vec<u64>, t: u64) -> (r: bool)
    ensures
        r == v@.contains(t),
{
    let mut i: usize = 0;
    while i < v.len()
        invariant
            i <= v.len(),
            forall|j: int| 0 <= j < i ==> v@[j] != t,
        decreases v.len() - i,
    {
        if v[i] == t {
            return true;
        }
        i = i + 1;
    }
    false
}

/// Chooses one cell per draw, without replacement. A draw may be any value:
/// the step that takes it reduces it below the number of candidates left.
pub fn place_cells(canvas_width: u32, canvas_height: u32, badge_size: u32, draws: &Vec<u64>) -> (r: Result<
    Vec<(u32, u32)>,
    BadgeError,
>)
    requires
        badge_size > 0,
    ensures
        match r {
            Ok(cells) => placement_error(
                canvas_width as int,
                canvas_height as int,
                badge_size as int,
                draws.len() as int,
            ) is None && cells@ == placement(
                canvas_width as int,
                canvas_height as int,
                badge_size as int,
                draws@,
            ),
            Err(e) => placement_error(
                canvas_width as int,
                canvas_height as int,
                badge_size as int,
                draws.len() as int,
            ) == Some(e),
        },
{
    if canvas_width <= badge_size || canvas_height <= badge_size {
        return Err(BadgeError::InvalidCanvasSize);
    }
    let avail = free_cell_count(canvas_width, canvas_height, badge_size);
    let n: u64 = draws.len() as u64;
    if n > avail {
        return Err(BadgeError::PlacementExhausted);
    }
    let start: u64 = avail - n;
    let ghost (w, h, b) = (canvas_width as int, canvas_height as int, badge_size as int);
    let mut picks: Vec<u64> = Vec::new();
    let mut i: usize = 0;
    while i < draws.len()
        invariant
            i <= draws.len(),
            n == draws.len(),
            start + n == avail,
            picks@ == floyd(start as int, draws@.take(i as int)),
        decreases draws.len() - i,
    {
        let top: u64 = start + i as u64;
        let pick: u64 = draws[i] % (top + 1);
        let ghost prev = draws@.take(i as int);
        assert(draws@.take(i as int + 1).drop_last() =~= prev);
        if holds(&picks, pick) {
            picks.push(top);
        } else {
            picks.push(pick);
        }
        i = i + 1;
    }
    assert(draws@.take(draws.len() as int) =~= draws@);
    proof {
        lemma_floyd(start as int, draws@);
    }
    let columns = (canvas_height - badge_size) / badge_size;
    let ys: u64 = if columns > 1 {
        (columns - 1) as u64
    } else {
        0
    };
    let mut cells: Vec<(u32, u32)> = Vec::new();
    let mut m: usize = 0;
    while m < picks.len()
        invariant
            m <= picks.len(),
            picks@ == floyd(start as int, draws@),
            picks.len() == n,
            forall|j: int| 0 <= j < n ==> #[trigger] picks@[j] < avail,
            ys == span(grid_columns(h, b)),
            avail == free_cells(w, h, b),
            0 < b < w <= u32::MAX,
            b < h <= u32::MAX,
            w == canvas_width,
            h == canvas_height,
            b == badge_size,
            cells@.len() == m,
            forall|j: int| 0 <= j < m ==> #[trigger] cells@[j] == cell_of(picks@[j] as int, h, b),
        decreases picks.len() - m,
    {
        let k = picks[m];
        proof {
            lemma_cell(k as int, w, h, b);
        }
        let x = ((k / ys + 1) * badge_size as u64) as u32;
        let y = ((k % ys + 1) * badge_size as u64) as u32;
        cells.push((x, y));
        m = m + 1;
    }
    assert(cells@ =~= placement(w, h, b, draws@));
    Ok(cells)
}

/// Draws `count` numbers from `rng`, each below the number of candidates
/// that the Floyd step taking it chooses among.
pub(crate) fn draw_cell_indices(avail: u64, count: usize, rng: &mut fastrand::Rng) -> (draws: Vec<u64>)
    requires
        count <= avail,
    ensures
        draws.len() == count,
{
    let n: u64 = count as u64;
    let start: u64 = avail - n;
    let mut draws: Vec<u64> = Vec::new();
    let mut i: usize = 0;
    while i < count
        invariant
            i <= count,
            n == count,
            start + n == avail,
            draws.len() == i,
        decreases count - i,
    {
        let d = draw_below(rng, start + i as u64 + 1);
        draws.push(d);
        i = i + 1;
    }
    draws
}

/// Chooses `count` distinct cells for badges, drawing from `rng`.
pub fn select_cells(
    canvas_width: u32,
    canvas_height: u32,
    badge_size: u32,
    count: usize,
    rng: &mut fastrand::Rng,
) -> (r: Result<Vec<(u32, u32)>, BadgeError>)
    requires
        badge_size > 0,
    ensures
        match r {
            Ok(cells) => {
                &&& placement_error(canvas_width as int, canvas_height as int, badge_size as int, count as int)
                    is None
                &&& cells.len() == count
                &&& cells@.no_duplicates()
                &&& forall|i: int|
                    0 <= i < count ==> on_grid(
                        #[trigger] cells@[i],
                        canvas_width as int,
                        canvas_height as int,
                        badge_size as int,
                    ) && clear_of_edges(cells@[i], canvas_width as int, canvas_height as int, badge_size as int)
                &&& exists|draws: Seq<u64>|
                    draws.len() == count && cells@ == #[trigger] placement(
                        canvas_width as int,
                        canvas_height as int,
                        badge_size as int,
                        draws,
                    )
            },
            Err(e) => placement_error(canvas_width as int, canvas_height as int, badge_size as int, count as int)
                == Some(e),
        },
{
    if canvas_width <= badge_size || canvas_height <= badge_size {
        return Err(BadgeError::InvalidCanvasSize);
    }
    let avail = free_cell_count(canvas_width, canvas_height, badge_size);
    let n: u64 = count as u64;
    if n > avail {
        return Err(BadgeError::PlacementExhausted);
    }
    let draws = draw_cell_indices(avail, count, rng);
    let r = place_cells(canvas_width, canvas_height, badge_size, &draws);
    proof {
        lemma_placement_valid(canvas_width, canvas_height, badge_size, draws@);
    }
    r
}

} // verus!
