//! Diff-based painting: given the previously painted frame and the current
//! one, compute the list of cell writes the terminal needs, in a fixed
//! column-major scan order. On a forced pass every cell is written; otherwise
//! exactly the cells whose glyph changed are, unchanged cells are not
//! touched.
use vstd::prelude::*;
use crate::frame::Frame;
use crate::frame::frame_wf;
use crate::NUM_COLS;
use crate::NUM_ROWS;

verus! {

/// One cell write: position the cursor at (`x`, `y`) and put `glyph` there.
#[derive(Clone, Copy, PartialEq, Eq, Structural, Debug)]
pub struct PaintOp {
    pub x: usize,
    pub y: usize,
    pub glyph: char,
}

/// The cells of rows `[0, k)` of column `x` that a pass writes, in row
/// order: all of them when forced, else those whose glyph changed.
pub open spec fn col_cells(
    last_col: Seq<char>,
    cur_col: Seq<char>,
    x: int,
    force: bool,
    k: int,
) -> Seq<(int, int)>
    decreases k,
{
    if k <= 0 {
        Seq::empty()
    } else {
        col_cells(last_col, cur_col, x, force, k - 1) + (if force || cur_col[k - 1] != last_col[k
            - 1] {
            seq![(x, k - 1)]
        } else {
            Seq::empty()
        })
    }
}

/// The cells of the first `x` whole columns that a pass writes, in scan
/// order.
pub open spec fn cells_upto(
    last: Seq<Seq<char>>,
    cur: Seq<Seq<char>>,
    force: bool,
    x: int,
) -> Seq<(int, int)>
    decreases x,
{
    if x <= 0 {
        Seq::empty()
    } else {
        cells_upto(last, cur, force, x - 1) + col_cells(
            last[x - 1],
            cur[x - 1],
            x - 1,
            force,
            NUM_ROWS as int,
        )
    }
}

/// All the cells one render pass writes, in scan order.
pub open spec fn painted_cells(
    last: Seq<Seq<char>>,
    cur: Seq<Seq<char>>,
    force: bool,
) -> Seq<(int, int)> {
    cells_upto(last, cur, force, NUM_COLS as int)
}

/// The writes `ops` are exactly the cells of `cells`, in order, each
/// carrying the current frame's glyph for its cell.
pub open spec fn ops_match_cells(
    ops: Seq<PaintOp>,
    cells: Seq<(int, int)>,
    cur: Seq<Seq<char>>,
) -> bool {
    &&& ops.len() == cells.len()
    &&& forall|n: int|
        0 <= n < ops.len() ==> {
            let op = #[trigger] ops[n];
            &&& op.x as int == cells[n].0
            &&& op.y as int == cells[n].1
            &&& op.glyph == cur[cells[n].0][cells[n].1]
        }
}

/// How many of rows `[0, k)` of a column hold a changed glyph.
pub open spec fn count_diffs_col(last_col: Seq<char>, cur_col: Seq<char>, k: int) -> int
    decreases k,
{
    if k <= 0 {
        0
    } else {
        count_diffs_col(last_col, cur_col, k - 1) + (if cur_col[k - 1] != last_col[k - 1] {
            1int
        } else {
            0int
        })
    }
}

/// How many cells of the first `x` columns hold a changed glyph.
pub open spec fn count_diffs_upto(last: Seq<Seq<char>>, cur: Seq<Seq<char>>, x: int) -> int
    decreases x,
{
    if x <= 0 {
        0
    } else {
        count_diffs_upto(last, cur, x - 1) + count_diffs_col(
            last[x - 1],
            cur[x - 1],
            NUM_ROWS as int,
        )
    }
}

/// How many cells of the whole grid hold a changed glyph.
pub open spec fn count_diffs(last: Seq<Seq<char>>, cur: Seq<Seq<char>>) -> int {
    count_diffs_upto(last, cur, NUM_COLS as int)
}

/// Compute the cell writes for one render pass: every cell when `force` is
/// set (the first pass), otherwise exactly the cells whose glyph differs
/// between the two frames, each with the current frame's glyph, in scan
/// order.
pub fn render_ops(last_frame: &Frame, cur_frame: &Frame, force: bool) -> (ops: Vec<PaintOp>)
    requires
        frame_wf(last_frame@),
        frame_wf(cur_frame@),
    ensures
        ops_match_cells(ops@, painted_cells(last_frame@, cur_frame@, force), cur_frame@),
{
    let ghost last = last_frame@;
    let ghost cur = cur_frame@;
    let mut ops: Vec<PaintOp> = Vec::new();
    let mut x: usize = 0;
    while x < NUM_COLS
        invariant
            frame_wf(last),
            frame_wf(cur),
            last == last_frame@,
            cur == cur_frame@,
            x <= NUM_COLS,
            ops_match_cells(ops@, cells_upto(last, cur, force, x as int), cur),
        decreases NUM_COLS - x,
    {
        let mut y: usize = 0;
        while y < NUM_ROWS
            invariant
                frame_wf(last),
                frame_wf(cur),
                last == last_frame@,
                cur == cur_frame@,
                x < NUM_COLS,
                y <= NUM_ROWS,
                ops_match_cells(
                    ops@,
                    cells_upto(last, cur, force, x as int) + col_cells(
                        last[x as int],
                        cur[x as int],
                        x as int,
                        force,
                        y as int,
                    ),
                    cur,
                ),
            decreases NUM_ROWS - y,
        {
            let ghost done = cells_upto(last, cur, force, x as int) + col_cells(
                last[x as int],
                cur[x as int],
                x as int,
                force,
                y as int,
            );
            let lc = last_frame.get(x, y);
            let cc = cur_frame.get(x, y);
            if force || cc != lc {
                ops.push(PaintOp { x, y, glyph: cc });
            }
            proof {
                let step = cells_upto(last, cur, force, x as int) + col_cells(
                    last[x as int],
                    cur[x as int],
                    x as int,
                    force,
                    y as int + 1,
                );
                if force || cur[x as int][y as int] != last[x as int][y as int] {
                    assert(step =~= done + seq![(x as int, y as int)]);
                } else {
                    assert(step =~= done);
                }
            }
            y = y + 1;
        }
        proof {
            assert(cells_upto(last, cur, force, x as int + 1) =~= cells_upto(
                last,
                cur,
                force,
                x as int,
            ) + col_cells(last[x as int], cur[x as int], x as int, force, NUM_ROWS as int));
        }
        x = x + 1;
    }
    ops
}

/// Every cell a column pass writes is sound: in that column, in range, and —
/// unless forced — changed.
proof fn lemma_col_cells_sound(last_col: Seq<char>, cur_col: Seq<char>, x: int, force: bool, k: int)
    ensures
        forall|n: int|
            0 <= n < col_cells(last_col, cur_col, x, force, k).len() ==> {
                let cell = #[trigger] col_cells(last_col, cur_col, x, force, k)[n];
                &&& cell.0 == x
                &&& 0 <= cell.1 < k
                &&& (!force ==> cur_col[cell.1] != last_col[cell.1])
            },
    decreases k,
{
    if k > 0 {
        lemma_col_cells_sound(last_col, cur_col, x, force, k - 1);
        let a = col_cells(last_col, cur_col, x, force, k - 1);
        let b: Seq<(int, int)> = if force || cur_col[k - 1] != last_col[k - 1] {
            seq![(x, k - 1)]
        } else {
            Seq::empty()
        };
        assert forall|n: int| 0 <= n < (a + b).len() implies {
            let cell = #[trigger] (a + b)[n];
            &&& cell.0 == x
            &&& 0 <= cell.1 < k
            &&& (!force ==> cur_col[cell.1] != last_col[cell.1])
        } by {
            if n < a.len() {
                assert((a + b)[n] == a[n]);
            } else {
                assert((a + b)[n] == b[n - a.len()]);
            }
        }
    }
}

proof fn lemma_cells_upto_sound(last: Seq<Seq<char>>, cur: Seq<Seq<char>>, force: bool, x: int)
    ensures
        forall|n: int|
            0 <= n < cells_upto(last, cur, force, x).len() ==> {
                let cell = #[trigger] cells_upto(last, cur, force, x)[n];
                &&& 0 <= cell.0 < x
                &&& 0 <= cell.1 < NUM_ROWS
                &&& (!force ==> cur[cell.0][cell.1] != last[cell.0][cell.1])
            },
    decreases x,
{
    if x > 0 {
        lemma_cells_upto_sound(last, cur, force, x - 1);
        lemma_col_cells_sound(last[x - 1], cur[x - 1], x - 1, force, NUM_ROWS as int);
        let a = cells_upto(last, cur, force, x - 1);
        let b = col_cells(last[x - 1], cur[x - 1], x - 1, force, NUM_ROWS as int);
        assert forall|n: int| 0 <= n < (a + b).len() implies {
            let cell = #[trigger] (a + b)[n];
            &&& 0 <= cell.0 < x
            &&& 0 <= cell.1 < NUM_ROWS
            &&& (!force ==> cur[cell.0][cell.1] != last[cell.0][cell.1])
        } by {
            if n < a.len() {
                assert((a + b)[n] == a[n]);
            } else {
                assert((a + b)[n] == b[n - a.len()]);
            }
        }
    }
}

/// The number of cells one column pass writes: all `k` when forced, else the
/// count of changed cells, which never exceeds `k`.
proof fn lemma_col_cells_len(last_col: Seq<char>, cur_col: Seq<char>, x: int, force: bool, k: int)
    requires
        0 <= k,
    ensures
        0 <= count_diffs_col(last_col, cur_col, k) <= k,
        col_cells(last_col, cur_col, x, force, k).len() == if force {
            k
        } else {
            count_diffs_col(last_col, cur_col, k)
        },
    decreases k,
{
    if k > 0 {
        lemma_col_cells_len(last_col, cur_col, x, force, k - 1);
    }
}

proof fn lemma_cells_upto_count(last: Seq<Seq<char>>, cur: Seq<Seq<char>>, force: bool, x: int)
    requires
        0 <= x,
    ensures
        0 <= count_diffs_upto(last, cur, x),
        cells_upto(last, cur, force, x).len() == if force {
            x * NUM_ROWS
        } else {
            count_diffs_upto(last, cur, x)
        },
    decreases x,
{
    if x > 0 {
        lemma_cells_upto_count(last, cur, force, x - 1);
        lemma_col_cells_len(last[x - 1], cur[x - 1], x - 1, force, NUM_ROWS as int);
    }
}

/// A forced pass over one column writes each of its first `k` cells.
proof fn lemma_col_cells_covers(last_col: Seq<char>, cur_col: Seq<char>, x: int, k: int)
    ensures
        forall|y: int|
            0 <= y < k ==> #[trigger] col_cells(last_col, cur_col, x, true, k).contains((x, y)),
    decreases k,
{
    if k > 0 {
        lemma_col_cells_covers(last_col, cur_col, x, k - 1);
        let a = col_cells(last_col, cur_col, x, true, k - 1);
        let b = seq![(x, k - 1)];
        assert forall|y: int|
            0 <= y < k implies #[trigger] col_cells(last_col, cur_col, x, true, k).contains(
            (x, y),
        ) by {
            if y == k - 1 {
                assert((a + b)[a.len() as int] == (x, y));
            } else {
                assert(a.contains((x, y)));
                let i = choose|i: int| 0 <= i < a.len() && a[i] == (x, y);
                assert((a + b)[i] == (x, y));
            }
        }
    }
}

proof fn lemma_cells_upto_covers(last: Seq<Seq<char>>, cur: Seq<Seq<char>>, x: int)
    ensures
        forall|c: int, y: int|
            0 <= c < x && 0 <= y < NUM_ROWS ==> #[trigger] cells_upto(last, cur, true, x).contains(
                (c, y),
            ),
    decreases x,
{
    if x > 0 {
        lemma_cells_upto_covers(last, cur, x - 1);
        lemma_col_cells_covers(last[x - 1], cur[x - 1], x - 1, NUM_ROWS as int);
        let a = cells_upto(last, cur, true, x - 1);
        let b = col_cells(last[x - 1], cur[x - 1], x - 1, true, NUM_ROWS as int);
        assert forall|c: int, y: int|
            0 <= c < x && 0 <= y < NUM_ROWS implies #[trigger] cells_upto(
            last,
            cur,
            true,
            x,
        ).contains((c, y)) by {
            if c == x - 1 {
                assert(b.contains((c, y)));
                let i = choose|i: int| 0 <= i < b.len() && b[i] == (c, y);
                assert((a + b)[a.len() + i] == (c, y));
            } else {
                assert(a.contains((c, y)));
                let i = choose|i: int| 0 <= i < a.len() && a[i] == (c, y);
                assert((a + b)[i] == (c, y));
            }
        }
    }
}

/// A column with no changed glyph yields no write.
proof fn lemma_col_cells_equal(last_col: Seq<char>, cur_col: Seq<char>, x: int, k: int)
    requires
        forall|y: int| 0 <= y < k ==> #[trigger] cur_col[y] == last_col[y],
    ensures
        col_cells(last_col, cur_col, x, false, k).len() == 0,
    decreases k,
{
    if k > 0 {
        lemma_col_cells_equal(last_col, cur_col, x, k - 1);
        assert(col_cells(last_col, cur_col, x, false, k) =~= col_cells(
            last_col,
            cur_col,
            x,
            false,
            k - 1,
        ));
    }
}

proof fn lemma_cells_upto_identical(last: Seq<Seq<char>>, cur: Seq<Seq<char>>, x: int)
    requires
        forall|c: int, y: int|
            0 <= c < x && 0 <= y < NUM_ROWS ==> #[trigger] cur[c][y] == #[trigger] last[c][y],
    ensures
        cells_upto(last, cur, false, x).len() == 0,
    decreases x,
{
    if x > 0 {
        lemma_cells_upto_identical(last, cur, x - 1);
        assert forall|y: int| 0 <= y < NUM_ROWS implies #[trigger] cur[x - 1][y] == last[x
            - 1][y] by {
            assert(cur[x - 1][y] == last[x - 1][y]);
        }
        lemma_col_cells_equal(last[x - 1], cur[x - 1], x - 1, NUM_ROWS as int);
        assert(cells_upto(last, cur, false, x) =~= cells_upto(last, cur, false, x - 1));
    }
}

/// A column whose only changed glyph is at row `y0` yields exactly that
/// write.
proof fn lemma_col_cells_one_diff(last_col: Seq<char>, cur_col: Seq<char>, x: int, y0: int, k: int)
    requires
        0 <= y0,
        cur_col[y0] != last_col[y0],
        forall|y: int| 0 <= y < k && y != y0 ==> #[trigger] cur_col[y] == last_col[y],
    ensures
        col_cells(last_col, cur_col, x, false, k) =~= if y0 < k {
            seq![(x, y0)]
        } else {
            Seq::<(int, int)>::empty()
        },
    decreases k,
{
    if k > 0 {
        lemma_col_cells_one_diff(last_col, cur_col, x, y0, k - 1);
        let a = col_cells(last_col, cur_col, x, false, k - 1);
        if y0 == k - 1 {
            assert(a.len() == 0);
            assert(col_cells(last_col, cur_col, x, false, k) =~= a + seq![(x, y0)]);
        } else {
            assert(cur_col[k - 1] == last_col[k - 1]);
            assert(col_cells(last_col, cur_col, x, false, k) =~= a);
        }
    }
}

proof fn lemma_cells_upto_single_diff(
    last: Seq<Seq<char>>,
    cur: Seq<Seq<char>>,
    x0: int,
    y0: int,
    x: int,
)
    requires
        0 <= x0 < NUM_COLS,
        0 <= y0 < NUM_ROWS,
        cur[x0][y0] != last[x0][y0],
        forall|c: int, y: int|
            0 <= c < NUM_COLS && 0 <= y < NUM_ROWS && (c != x0 || y != y0) ==> #[trigger] cur[c][y]
                == #[trigger] last[c][y],
        x <= NUM_COLS,
    ensures
        cells_upto(last, cur, false, x) =~= if x0 < x {
            seq![(x0, y0)]
        } else {
            Seq::<(int, int)>::empty()
        },
    decreases x,
{
    if x > 0 {
        lemma_cells_upto_single_diff(last, cur, x0, y0, x - 1);
        if x - 1 == x0 {
            lemma_col_cells_one_diff(last[x0], cur[x0], x0, y0, NUM_ROWS as int);
            assert(cells_upto(last, cur, false, x) =~= cells_upto(last, cur, false, x - 1)
                + col_cells(last[x0], cur[x0], x0, false, NUM_ROWS as int));
        } else {
            assert forall|y: int| 0 <= y < NUM_ROWS implies #[trigger] cur[x - 1][y] == last[x
                - 1][y] by {
                assert(cur[x - 1][y] == last[x - 1][y]);
            }
            lemma_col_cells_equal(last[x - 1], cur[x - 1], x - 1, NUM_ROWS as int);
            assert(cells_upto(last, cur, false, x) =~= cells_upto(last, cur, false, x - 1));
        }
    }
}

/// Law (soundness): every cell a render pass writes lies in the grid, and
/// without `force` a cell is written only where its glyph changed.
pub proof fn lemma_render_sound(last: Seq<Seq<char>>, cur: Seq<Seq<char>>, force: bool)
    ensures
        forall|n: int|
            0 <= n < painted_cells(last, cur, force).len() ==> {
                let cell = #[trigger] painted_cells(last, cur, force)[n];
                &&& 0 <= cell.0 < NUM_COLS
                &&& 0 <= cell.1 < NUM_ROWS
                &&& (!force ==> cur[cell.0][cell.1] != last[cell.0][cell.1])
            },
{
    lemma_cells_upto_sound(last, cur, force, NUM_COLS as int);
}

/// Law (write counts): a forced pass makes one write per cell of the grid;
/// an unforced pass makes exactly one write per changed cell.
pub proof fn lemma_render_count(last: Seq<Seq<char>>, cur: Seq<Seq<char>>, force: bool)
    ensures
        painted_cells(last, cur, force).len() == if force {
            NUM_COLS * NUM_ROWS
        } else {
            count_diffs(last, cur)
        },
{
    lemma_cells_upto_count(last, cur, force, NUM_COLS as int);
}

/// Law (forced pass): rendering with `force` writes every cell of the grid.
pub proof fn lemma_render_force_covers(last: Seq<Seq<char>>, cur: Seq<Seq<char>>)
    ensures
        forall|c: int, y: int|
            0 <= c < NUM_COLS && 0 <= y < NUM_ROWS ==> #[trigger] painted_cells(
                last,
                cur,
                true,
            ).contains((c, y)),
{
    lemma_cells_upto_covers(last, cur, NUM_COLS as int);
}

/// Law (identical frames): an unforced pass over two frames with equal
/// glyphs everywhere writes nothing.
pub proof fn lemma_render_identical_empty(last: Seq<Seq<char>>, cur: Seq<Seq<char>>)
    requires
        forall|c: int, y: int|
            0 <= c < NUM_COLS && 0 <= y < NUM_ROWS ==> #[trigger] cur[c][y] == #[trigger] last[c][y],
    ensures
        painted_cells(last, cur, false).len() == 0,
{
    lemma_cells_upto_identical(last, cur, NUM_COLS as int);
}

/// Law (single change): an unforced pass over two frames that differ in
/// exactly one cell makes exactly one write — that cell.
pub proof fn lemma_render_single_diff(last: Seq<Seq<char>>, cur: Seq<Seq<char>>, x0: int, y0: int)
    requires
        0 <= x0 < NUM_COLS,
        0 <= y0 < NUM_ROWS,
        cur[x0][y0] != last[x0][y0],
        forall|c: int, y: int|
            0 <= c < NUM_COLS && 0 <= y < NUM_ROWS && (c != x0 || y != y0) ==> #[trigger] cur[c][y]
                == #[trigger] last[c][y],
    ensures
        painted_cells(last, cur, false) =~= seq![(x0, y0)],
{
    lemma_cells_upto_single_diff(last, cur, x0, y0, NUM_COLS as int);
}

} // verus!
