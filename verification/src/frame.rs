//! One tick's full-grid glyph snapshot. A frame is rebuilt from empty every
//! tick; components paint their own state onto it in a fixed order, so where
//! two writes meet the later one wins.
use vstd::prelude::*;
use crate::NUM_COLS;
use crate::NUM_ROWS;

verus! {

/// The glyph of a cell nothing has painted.
pub const EMPTY_GLYPH: char = ' ';

/// A `NUM_COLS x NUM_ROWS` grid of glyphs, indexed column first.
pub struct Frame {
    pub cells: Vec<Vec<char>>,
}

impl View for Frame {
    type V = Seq<Seq<char>>;

    open spec fn view(&self) -> Seq<Seq<char>> {
        Seq::new(self.cells@.len(), |x: int| self.cells@[x]@)
    }
}

/// A grid has exactly `NUM_COLS` columns of `NUM_ROWS` cells each.
pub open spec fn frame_wf(f: Seq<Seq<char>>) -> bool {
    &&& f.len() == NUM_COLS
    &&& forall|x: int| 0 <= x < f.len() ==> (#[trigger] f[x]).len() == NUM_ROWS
}

/// The grid `f` with glyph `g` put at column `x`, row `y`.
pub open spec fn put_glyph(f: Seq<Seq<char>>, x: int, y: int, g: char) -> Seq<Seq<char>> {
    f.update(x, f[x].update(y, g))
}

/// The grid with every cell empty.
pub open spec fn blank_grid() -> Seq<Seq<char>> {
    Seq::new(NUM_COLS as nat, |x: int| Seq::new(NUM_ROWS as nat, |y: int| EMPTY_GLYPH))
}

/// A fresh frame: every cell empty.
pub fn new_frame() -> (f: Frame)
    ensures
        frame_wf(f@),
        f@ == blank_grid(),
        forall|x: int, y: int| 0 <= x < NUM_COLS && 0 <= y < NUM_ROWS ==> f@[x][y] == EMPTY_GLYPH,
{
    let mut cells: Vec<Vec<char>> = Vec::new();
    while cells.len() < NUM_COLS
        invariant
            cells@.len() <= NUM_COLS,
            forall|x: int| 0 <= x < cells@.len() ==> (#[trigger] cells@[x])@.len() == NUM_ROWS,
            forall|x: int, y: int|
                0 <= x < cells@.len() && 0 <= y < NUM_ROWS ==> cells@[x]@[y] == EMPTY_GLYPH,
        decreases NUM_COLS - cells.len(),
    {
        let mut col: Vec<char> = Vec::new();
        while col.len() < NUM_ROWS
            invariant
                col@.len() <= NUM_ROWS,
                forall|y: int| 0 <= y < col@.len() ==> col@[y] == EMPTY_GLYPH,
            decreases NUM_ROWS - col.len(),
        {
            col.push(EMPTY_GLYPH);
        }
        cells.push(col);
    }
    let f = Frame { cells };
    assert(f@ =~~= blank_grid());
    f
}

impl Frame {
    /// Paint glyph `g` at column `x`, row `y`.
    pub fn set(&mut self, x: usize, y: usize, g: char)
        requires
            frame_wf(old(self)@),
            x < NUM_COLS,
            y < NUM_ROWS,
        ensures
            frame_wf(final(self)@),
            final(self)@ == put_glyph(old(self)@, x as int, y as int, g),
    {
        proof {
            assert(self.cells@.len() == self@.len());
            assert(self@[x as int].len() == NUM_ROWS);
        }
        let col: &mut Vec<char> = &mut self.cells[x];
        col[y] = g;
        assert(final(self)@ =~~= put_glyph(old(self)@, x as int, y as int, g));
    }

    /// Read the glyph at column `x`, row `y`.
    pub fn get(&self, x: usize, y: usize) -> (g: char)
        requires
            frame_wf(self@),
            x < NUM_COLS,
            y < NUM_ROWS,
        ensures
            g == self@[x as int][y as int],
    {
        proof {
            assert(self.cells@.len() == self@.len());
            assert(self@[x as int].len() == NUM_ROWS);
        }
        self.cells[x][y]
    }
}

} // verus!
