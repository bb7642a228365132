//! The enemy formation: a flat list of grid positions, a cadence clock that
//! gates every step, and a direction that flips whenever the formation meets
//! a side of the grid. A flip always comes with a descent of one row and a
//! speed-up of the cadence, floored at a fixed minimum.
use vstd::prelude::*;
use crate::frame::Frame;
use crate::frame::frame_wf;
use crate::frame::put_glyph;
use crate::timer::MoveTimer;
use crate::NUM_COLS;
use crate::NUM_ROWS;

verus! {

/// Cadence of the formation at the start of a game, in milliseconds.
pub const START_INTERVAL_MS: u64 = 2000;

/// The cadence never drops below this duration, in milliseconds.
pub const MIN_INTERVAL_MS: u64 = 250;

/// How much the cadence shortens on every descent, in milliseconds.
pub const INTERVAL_STEP_MS: u64 = 250;

/// Row at which the formation has reached the bottom of the grid.
pub const BOTTOM_ROW: usize = NUM_ROWS - 1;

/// Glyph of an invader early in a cadence period.
pub const INVADER_EARLY_GLYPH: char = 'x';

/// Glyph of an invader late in a cadence period.
pub const INVADER_LATE_GLYPH: char = '+';

/// One enemy: a grid position and nothing more.
#[derive(Clone, Copy, PartialEq, Eq, Structural, Debug)]
pub struct Invader {
    pub x: usize,
    pub y: usize,
}

/// The enemy formation and its movement state.
pub struct Invaders {
    pub army: Vec<Invader>,
    pub move_timer: MoveTimer,
    /// `1` while marching right, `-1` while marching left.
    pub direction: i32,
}

/// The mathematical model of a formation: positions, cadence clock values
/// and direction, all as unbounded integers.
#[verifier::ext_equal]
pub ghost struct InvadersView {
    pub army: Seq<Invader>,
    pub duration_ms: int,
    pub elapsed_ms: int,
    pub direction: int,
}

impl View for Invaders {
    type V = InvadersView;

    open spec fn view(&self) -> InvadersView {
        InvadersView {
            army: self.army@,
            duration_ms: self.move_timer.duration_ms as int,
            elapsed_ms: self.move_timer.elapsed_ms as int,
            direction: self.direction as int,
        }
    }
}

/// Every invader of `a` lies inside the grid.
pub open spec fn army_in_bounds(a: Seq<Invader>) -> bool {
    forall|i: int|
        0 <= i < a.len() ==> (#[trigger] a[i]).x < NUM_COLS && a[i].y < NUM_ROWS
}

/// Some invader of `a` has reached the bottom threshold row.
pub open spec fn reach_bottom_spec(a: Seq<Invader>) -> bool {
    exists|i: int| 0 <= i < a.len() && (#[trigger] a[i]).y >= BOTTOM_ROW
}

/// Some invader of `a` stands in column `x`.
pub open spec fn army_at_col(a: Seq<Invader>, x: int) -> bool {
    exists|i: int| 0 <= i < a.len() && (#[trigger] a[i]).x == x
}

/// Some invader of `a` stands at (`x`, `y`).
pub open spec fn army_contains(a: Seq<Invader>, x: int, y: int) -> bool {
    exists|i: int| 0 <= i < a.len() && (#[trigger] a[i]).x == x && a[i].y == y
}

/// The invariant of a formation: positions in bounds, a unit direction, and
/// a cadence clock that never runs past its duration nor below the floor.
pub open spec fn inv_wf(v: InvadersView) -> bool {
    &&& army_in_bounds(v.army)
    &&& (v.direction == 1 || v.direction == -1)
    &&& 0 <= v.elapsed_ms <= v.duration_ms
    &&& v.duration_ms >= MIN_INTERVAL_MS
}

/// Whether accumulating `delta` milliseconds reaches the cadence duration,
/// so that the formation takes a step on this tick.
pub open spec fn timer_fires(v: InvadersView, delta: int) -> bool {
    v.elapsed_ms + delta >= v.duration_ms
}

/// Whether a step taken now triggers a descent: marching left, the leftmost
/// live invader sits in column 0 (an empty army counts as at the edge, its
/// minimum column defaulting to 0); marching right, the rightmost sits in
/// the last column.
pub open spec fn at_edge(v: InvadersView) -> bool {
    if v.direction == -1 {
        v.army.len() == 0 || army_at_col(v.army, 0)
    } else {
        army_at_col(v.army, NUM_COLS - 1)
    }
}

/// The cadence after a descent: shortened by one step, floored.
pub open spec fn stepped_duration(d: int) -> int {
    if d - INTERVAL_STEP_MS >= MIN_INTERVAL_MS {
        d - INTERVAL_STEP_MS
    } else {
        MIN_INTERVAL_MS as int
    }
}

/// Every invader shifted one column along `dir`.
pub open spec fn shifted_army(a: Seq<Invader>, dir: int) -> Seq<Invader> {
    a.map(|i: int, inv: Invader| Invader { x: (inv.x + dir) as usize, y: inv.y })
}

/// Every invader dropped one row.
pub open spec fn descended_army(a: Seq<Invader>) -> Seq<Invader> {
    a.map(|i: int, inv: Invader| Invader { x: inv.x, y: (inv.y + 1) as usize })
}

/// The formation after one tick of `delta` milliseconds: either the clock
/// has not fired and only the accumulated time grows, or the formation
/// descends (flipping direction and speeding up) when at an edge, or it
/// shifts one column along its direction.
pub open spec fn inv_step(v: InvadersView, delta: int) -> InvadersView {
    if !timer_fires(v, delta) {
        InvadersView {
            army: v.army,
            duration_ms: v.duration_ms,
            elapsed_ms: v.elapsed_ms + delta,
            direction: v.direction,
        }
    } else if at_edge(v) {
        InvadersView {
            army: descended_army(v.army),
            duration_ms: stepped_duration(v.duration_ms),
            elapsed_ms: 0,
            direction: if v.direction == -1 { 1 } else { -1 },
        }
    } else {
        InvadersView {
            army: shifted_army(v.army, v.direction),
            duration_ms: v.duration_ms,
            elapsed_ms: 0,
            direction: v.direction,
        }
    }
}

/// The glyph the formation is drawn with: one figure through the early half
/// of each cadence period, another through the late half.
pub open spec fn invader_glyph(duration_ms: int, elapsed_ms: int) -> char {
    if 2 * (duration_ms - elapsed_ms) > duration_ms {
        INVADER_EARLY_GLYPH
    } else {
        INVADER_LATE_GLYPH
    }
}

/// The grid `f` with glyph `g` painted at the first `k` positions of `a`.
pub open spec fn painted_army(f: Seq<Seq<char>>, a: Seq<Invader>, g: char, k: int) -> Seq<Seq<char>>
    decreases k,
{
    if k <= 0 {
        f
    } else {
        put_glyph(painted_army(f, a, g, k - 1), a[k - 1].x as int, a[k - 1].y as int, g)
    }
}

/// A position of the deterministic starting formation: not on the two
/// outermost columns on either side, below the topmost row, within the first
/// nine rows, and with both coordinates even.
pub open spec fn is_start_pos(x: int, y: int) -> bool {
    1 < x < NUM_COLS - 2 && 0 < y < 9 && x % 2 == 0 && y % 2 == 0
}

/// Law: one tick keeps the formation invariant; in particular every
/// invader's position stays inside the grid, for every delta, as long as the
/// formation has not yet reached the bottom threshold row.
pub proof fn lemma_step_stays_in_bounds(v: InvadersView, delta: int)
    requires
        inv_wf(v),
        !reach_bottom_spec(v.army),
        delta >= 0,
    ensures
        inv_wf(inv_step(v, delta)),
        army_in_bounds(inv_step(v, delta).army),
{
    let w = inv_step(v, delta);
    if !timer_fires(v, delta) {
    } else if at_edge(v) {
        assert forall|i: int| 0 <= i < w.army.len() implies (#[trigger] w.army[i]).x < NUM_COLS
            && w.army[i].y < NUM_ROWS by {
            assert(v.army[i].y < BOTTOM_ROW);
        }
    } else {
        assert forall|i: int| 0 <= i < w.army.len() implies (#[trigger] w.army[i]).x < NUM_COLS
            && w.army[i].y < NUM_ROWS by {
            if v.direction == -1 {
                assert(v.army[i].x != 0);
            } else {
                assert(v.army[i].x != NUM_COLS - 1);
            }
        }
    }
}

/// Law: the direction flips on a tick if and only if the clock fires while
/// the formation is at the edge it is marching towards, and every flip
/// coincides with a descent of the whole formation on the same tick.
pub proof fn lemma_flip_iff_edge(v: InvadersView, delta: int)
    requires
        inv_wf(v),
    ensures
        (inv_step(v, delta).direction != v.direction) <==> (timer_fires(v, delta) && at_edge(v)),
        (inv_step(v, delta).direction != v.direction) ==> inv_step(v, delta).army
            == descended_army(v.army),
{
}

/// Law: the cadence duration never grows on a tick and never drops below
/// the floor, for every delta.
pub proof fn lemma_duration_monotone(v: InvadersView, delta: int)
    requires
        inv_wf(v),
    ensures
        inv_step(v, delta).duration_ms <= v.duration_ms,
        inv_step(v, delta).duration_ms >= MIN_INTERVAL_MS,
{
}

/// Whether some invader of `army` stands in column `col`.
fn any_at_col(army: &Vec<Invader>, col: usize) -> (r: bool)
    ensures
        r == army_at_col(army@, col as int),
{
    let mut i: usize = 0;
    while i < army.len()
        invariant
            i <= army@.len(),
            forall|k: int| 0 <= k < i ==> (#[trigger] army@[k]).x != col,
        decreases army@.len() - i,
    {
        if army[i].x == col {
            return true;
        }
        i = i + 1;
    }
    false
}

impl Invaders {
    /// The formation invariant, on the live value.
    pub open spec fn wf(&self) -> bool {
        inv_wf(self@)
    }

    /// The deterministic starting formation: an invader at every grid
    /// position that `is_start_pos` admits, each exactly once, marching
    /// right at the starting cadence.
    pub fn new() -> (inv: Invaders)
        ensures
            inv.wf(),
            inv@.direction == 1,
            inv@.duration_ms == START_INTERVAL_MS,
            inv@.elapsed_ms == 0,
            forall|i: int|
                0 <= i < inv@.army.len() ==> is_start_pos(
                    (#[trigger] inv@.army[i]).x as int,
                    inv@.army[i].y as int,
                ),
            forall|x: int, y: int| is_start_pos(x, y) ==> army_contains(inv@.army, x, y),
            forall|i: int, j: int|
                0 <= i < j < inv@.army.len() ==> #[trigger] inv@.army[i] != #[trigger] inv@.army[j],
            !reach_bottom_spec(inv@.army),
    {
        let mut army: Vec<Invader> = Vec::new();
        let mut x: usize = 0;
        while x < NUM_COLS
            invariant
                x <= NUM_COLS,
                forall|i: int|
                    0 <= i < army@.len() ==> is_start_pos(
                        (#[trigger] army@[i]).x as int,
                        army@[i].y as int,
                    ),
                forall|i: int| 0 <= i < army@.len() ==> (#[trigger] army@[i]).x < x,
                forall|i: int, j: int|
                    0 <= i < j < army@.len() ==> #[trigger] army@[i] != #[trigger] army@[j],
                forall|p: int, q: int|
                    is_start_pos(p, q) && p < x ==> army_contains(army@, p, q),
            decreases NUM_COLS - x,
        {
            let mut y: usize = 0;
            while y < NUM_ROWS
                invariant
                    x < NUM_COLS,
                    y <= NUM_ROWS,
                    forall|i: int|
                        0 <= i < army@.len() ==> is_start_pos(
                            (#[trigger] army@[i]).x as int,
                            army@[i].y as int,
                        ),
                    forall|i: int|
                        0 <= i < army@.len() ==> ((#[trigger] army@[i]).x < x || (army@[i].x == x
                            && army@[i].y < y)),
                    forall|i: int, j: int|
                        0 <= i < j < army@.len() ==> #[trigger] army@[i] != #[trigger] army@[j],
                    forall|p: int, q: int|
                        is_start_pos(p, q) && (p < x || (p == x && q < y)) ==> army_contains(
                            army@,
                            p,
                            q,
                        ),
                decreases NUM_ROWS - y,
            {
                let ghost before = army@;
                if x > 1 && x < NUM_COLS - 2 && y > 0 && y < 9 && x % 2 == 0 && y % 2 == 0 {
                    army.push(Invader { x, y });
                }
                proof {
                    assert forall|p: int, q: int|
                        is_start_pos(p, q) && (p < x || (p == x && q < y + 1)) implies army_contains(
                        army@,
                        p,
                        q,
                    ) by {
                        if p == x && q == y {
                            assert(army@[army@.len() - 1].x == x && army@[army@.len() - 1].y == y);
                        } else {
                            assert(army_contains(before, p, q));
                            let i = choose|i: int|
                                0 <= i < before.len() && (#[trigger] before[i]).x == p
                                    && before[i].y == q;
                            assert(army@[i].x == p && army@[i].y == q);
                        }
                    }
                }
                y = y + 1;
            }
            x = x + 1;
        }
        proof {
            assert forall|p: int, q: int| is_start_pos(p, q) implies army_contains(army@, p, q) by {
                assert(p < NUM_COLS);
            }
        }
        Invaders { army, move_timer: MoveTimer::new(START_INTERVAL_MS), direction: 1 }
    }

    /// One tick of `delta_ms` elapsed milliseconds. Returns whether the
    /// formation actually took a step on this tick; the caller uses that to
    /// fire a movement cue.
    pub fn update(&mut self, delta_ms: u64) -> (moved: bool)
        requires
            old(self).wf(),
            !reach_bottom_spec(old(self)@.army),
        ensures
            final(self).wf(),
            final(self)@ == inv_step(old(self)@, delta_ms as int),
            moved == timer_fires(old(self)@, delta_ms as int),
    {
        let ghost v0 = self@;
        proof {
            lemma_step_stays_in_bounds(v0, delta_ms as int);
        }
        self.move_timer.tick(delta_ms);
        if self.move_timer.finished() {
            self.move_timer.reset();
            let going_left: bool = self.direction == -1;
            let edge: bool = if going_left {
                self.army.len() == 0 || any_at_col(&self.army, 0)
            } else {
                any_at_col(&self.army, NUM_COLS - 1)
            };
            let ghost a0 = self.army@;
            if edge {
                self.direction = if going_left { 1 } else { -1 };
                let d = self.move_timer.duration_ms;
                let nd = if d >= MIN_INTERVAL_MS + INTERVAL_STEP_MS {
                    d - INTERVAL_STEP_MS
                } else {
                    MIN_INTERVAL_MS
                };
                self.move_timer = MoveTimer::new(nd);
                let ghost m1 = self.move_timer;
                let ghost dir1 = self.direction;
                let mut i: usize = 0;
                while i < self.army.len()
                    invariant
                        self.move_timer == m1,
                        self.direction == dir1,
                        i <= self.army@.len(),
                        self.army@.len() == a0.len(),
                        army_in_bounds(a0),
                        !reach_bottom_spec(a0),
                        forall|k: int| 0 <= k < i ==> #[trigger] self.army@[k] == descended_army(a0)[k],
                        forall|k: int| i <= k < a0.len() ==> #[trigger] self.army@[k] == a0[k],
                    decreases a0.len() - i,
                {
                    let inv = self.army[i];
                    proof {
                        assert(a0[i as int].y < BOTTOM_ROW);
                    }
                    self.army[i] = Invader { x: inv.x, y: inv.y + 1 };
                    i = i + 1;
                }
                assert(self.army@ =~= descended_army(a0));
            } else {
                let ghost m1 = self.move_timer;
                let ghost dir1 = self.direction;
                let mut i: usize = 0;
                while i < self.army.len()
                    invariant
                        self.move_timer == m1,
                        self.direction == dir1,
                        i <= self.army@.len(),
                        self.army@.len() == a0.len(),
                        army_in_bounds(a0),
                        going_left ==> !army_at_col(a0, 0),
                        !going_left ==> !army_at_col(a0, NUM_COLS - 1),
                        forall|k: int|
                            0 <= k < i ==> #[trigger] self.army@[k] == shifted_army(
                                a0,
                                if going_left { -1int } else { 1int },
                            )[k],
                        forall|k: int| i <= k < a0.len() ==> #[trigger] self.army@[k] == a0[k],
                    decreases a0.len() - i,
                {
                    let inv = self.army[i];
                    let nx: usize = if going_left {
                        proof {
                            assert(a0[i as int].x != 0);
                        }
                        inv.x - 1
                    } else {
                        proof {
                            assert(a0[i as int].x != NUM_COLS - 1);
                        }
                        inv.x + 1
                    };
                    self.army[i] = Invader { x: nx, y: inv.y };
                    i = i + 1;
                }
                assert(self.army@ =~= shifted_army(a0, if going_left { -1int } else { 1int }));
            }
            assert(self@ =~~= inv_step(v0, delta_ms as int));
            true
        } else {
            assert(self@ =~~= inv_step(v0, delta_ms as int));
            false
        }
    }

    /// Paint every invader onto `frame`, with the glyph of the current point
    /// of the cadence period. Reads nothing of the frame's prior contents.
    pub fn draw(&self, frame: &mut Frame)
        requires
            self.wf(),
            frame_wf(old(frame)@),
        ensures
            frame_wf(final(frame)@),
            final(frame)@ == painted_army(
                old(frame)@,
                self@.army,
                invader_glyph(self@.duration_ms, self@.elapsed_ms),
                self@.army.len() as int,
            ),
    {
        let remaining = self.move_timer.duration_ms - self.move_timer.elapsed_ms;
        let g: char = if (remaining as u128) * 2 > self.move_timer.duration_ms as u128 {
            INVADER_EARLY_GLYPH
        } else {
            INVADER_LATE_GLYPH
        };
        let ghost f0 = frame@;
        let mut i: usize = 0;
        while i < self.army.len()
            invariant
                self.wf(),
                i <= self.army@.len(),
                frame_wf(frame@),
                g == invader_glyph(self@.duration_ms, self@.elapsed_ms),
                frame@ == painted_army(f0, self@.army, g, i as int),
            decreases self.army@.len() - i,
        {
            let inv = self.army[i];
            frame.set(inv.x, inv.y, g);
            i = i + 1;
        }
    }

    /// Whether the whole army has been destroyed: the win condition.
    pub fn all_killed(&self) -> (r: bool)
        ensures
            r == (self@.army.len() == 0),
    {
        self.army.len() == 0
    }

    /// Whether some invader has reached the bottom threshold row: the lose
    /// condition.
    pub fn reach_bottom(&self) -> (r: bool)
        ensures
            r == reach_bottom_spec(self@.army),
    {
        let mut i: usize = 0;
        while i < self.army.len()
            invariant
                i <= self.army@.len(),
                forall|k: int| 0 <= k < i ==> (#[trigger] self.army@[k]).y < BOTTOM_ROW,
            decreases self.army@.len() - i,
        {
            if self.army[i].y >= BOTTOM_ROW {
                return true;
            }
            i = i + 1;
        }
        false
    }
}

} // verus!
