//! The player: a column position on the bottom row, a cap on concurrent
//! shots, and the live projectiles. Shots travel upward one row per tick
//! until they leave the grid or score a hit.
use vstd::prelude::*;
use crate::frame::Frame;
use crate::frame::frame_wf;
use crate::frame::put_glyph;
use crate::invaders::Invader;
use crate::invaders::Invaders;
use crate::invaders::army_in_bounds;
use crate::NUM_COLS;
use crate::NUM_ROWS;

verus! {

/// Most shots that may be in flight at once, so that holding the fire key
/// cannot flood the grid.
pub const MAX_SHOTS: usize = 2;

/// Glyph of the player.
pub const PLAYER_GLYPH: char = 'A';

/// Glyph of a shot in flight.
pub const SHOT_GLYPH: char = '|';

/// Row the player stands on.
pub const PLAYER_ROW: usize = NUM_ROWS - 1;

/// Column the player starts in.
pub const PLAYER_START_COL: usize = NUM_COLS / 2;

/// One projectile: a grid position, travelling upward.
#[derive(Clone, Copy, PartialEq, Eq, Structural, Debug)]
pub struct Shot {
    pub x: usize,
    pub y: usize,
}

/// The player and the live projectile set.
pub struct Player {
    pub x: usize,
    pub y: usize,
    pub shots: Vec<Shot>,
}

/// The mathematical model of the player.
#[verifier::ext_equal]
pub ghost struct PlayerView {
    pub x: int,
    pub y: int,
    pub shots: Seq<Shot>,
}

impl View for Player {
    type V = PlayerView;

    open spec fn view(&self) -> PlayerView {
        PlayerView { x: self.x as int, y: self.y as int, shots: self.shots@ }
    }
}

/// Every shot of `s` lies inside the grid.
pub open spec fn shots_in_bounds(s: Seq<Shot>) -> bool {
    forall|i: int| 0 <= i < s.len() ==> (#[trigger] s[i]).x < NUM_COLS && s[i].y < NUM_ROWS
}

/// The invariant of the player: position in bounds, shots in bounds and no
/// more of them than the cap.
pub open spec fn player_wf(v: PlayerView) -> bool {
    &&& 0 <= v.x < NUM_COLS
    &&& 0 <= v.y < NUM_ROWS
    &&& shots_in_bounds(v.shots)
    &&& v.shots.len() <= MAX_SHOTS
}

/// The shots after one tick: each moved up one row, in order, dropping any
/// that moves past the top of the grid.
pub open spec fn advanced_shots(s: Seq<Shot>) -> Seq<Shot>
    decreases s.len(),
{
    if s.len() == 0 {
        Seq::empty()
    } else {
        let rest = advanced_shots(s.skip(1));
        if s[0].y > 0 {
            seq![Shot { x: s[0].x, y: (s[0].y - 1) as usize }] + rest
        } else {
            rest
        }
    }
}

/// A shot and an invader collide exactly when their coordinates are equal.
pub open spec fn shot_hits_invader(s: Shot, inv: Invader) -> bool {
    s.x == inv.x && s.y == inv.y
}

/// Index of the first invader of `a`, at `j` or later, that `s` collides
/// with; `-1` when there is none.
pub open spec fn first_hit_index(a: Seq<Invader>, s: Shot, j: int) -> int
    decreases a.len() - j,
{
    if j < 0 || j >= a.len() {
        -1
    } else if shot_hits_invader(s, a[j]) {
        j
    } else {
        first_hit_index(a, s, j + 1)
    }
}

/// What collision detection leaves behind, and whether anything was hit.
#[verifier::ext_equal]
pub ghost struct HitsResult {
    pub shots: Seq<Shot>,
    pub army: Seq<Invader>,
    pub any: bool,
}

/// Collision resolution: shots are taken in order; a shot that collides with
/// a live invader removes that invader (the first match) and itself; a shot
/// that collides with none stays.
pub open spec fn resolve_hits(shots: Seq<Shot>, army: Seq<Invader>) -> HitsResult
    decreases shots.len(),
{
    if shots.len() == 0 {
        HitsResult { shots, army, any: false }
    } else {
        let j = first_hit_index(army, shots[0], 0);
        if j >= 0 {
            let rest = resolve_hits(shots.skip(1), army.remove(j));
            HitsResult { shots: rest.shots, army: rest.army, any: true }
        } else {
            let rest = resolve_hits(shots.skip(1), army);
            HitsResult { shots: seq![shots[0]] + rest.shots, army: rest.army, any: rest.any }
        }
    }
}

/// A found first-hit index is in range and is a collision; a result of `-1`
/// means nothing from `j` on collides.
proof fn lemma_first_hit_index(a: Seq<Invader>, s: Shot, j: int)
    requires
        0 <= j,
    ensures
        ({
            let k = first_hit_index(a, s, j);
            &&& k == -1 || (j <= k < a.len() && shot_hits_invader(s, a[k]))
            &&& k == -1 ==> forall|m: int| j <= m < a.len() ==> !shot_hits_invader(s, #[trigger] a[m])
        }),
    decreases a.len() - j,
{
    if j < a.len() && !shot_hits_invader(s, a[j]) {
        lemma_first_hit_index(a, s, j + 1);
    }
}

/// Law: collision detection removes exactly one shot and one invader per
/// match it resolves — the count of removed shots equals the count of
/// removed invaders, and neither collection grows.
pub proof fn lemma_hits_balanced(shots: Seq<Shot>, army: Seq<Invader>)
    ensures
        ({
            let r = resolve_hits(shots, army);
            &&& shots.len() - r.shots.len() == army.len() - r.army.len()
            &&& r.shots.len() <= shots.len()
            &&& r.army.len() <= army.len()
        }),
    decreases shots.len(),
{
    if shots.len() > 0 {
        let j = first_hit_index(army, shots[0], 0);
        lemma_first_hit_index(army, shots[0], 0);
        if j >= 0 {
            lemma_hits_balanced(shots.skip(1), army.remove(j));
        } else {
            lemma_hits_balanced(shots.skip(1), army);
        }
    }
}

/// Law: collision detection reports a hit exactly when some shot coordinate
/// equals some invader coordinate; in particular it returns false when no
/// shot matches any invader.
pub proof fn lemma_hits_found_iff(shots: Seq<Shot>, army: Seq<Invader>)
    ensures
        resolve_hits(shots, army).any <==> exists|i: int, j: int|
            #![trigger shots[i], army[j]]
            0 <= i < shots.len() && 0 <= j < army.len() && shot_hits_invader(shots[i], army[j]),
    decreases shots.len(),
{
    if shots.len() > 0 {
        let j0 = first_hit_index(army, shots[0], 0);
        lemma_first_hit_index(army, shots[0], 0);
        if j0 >= 0 {
            assert(shot_hits_invader(shots[0], army[j0]));
        } else {
            lemma_hits_found_iff(shots.skip(1), army);
            if resolve_hits(shots, army).any {
                let (i, j) = choose|i: int, j: int|
                    #![trigger shots.skip(1)[i], army[j]]
                    0 <= i < shots.skip(1).len() && 0 <= j < army.len() && shot_hits_invader(
                        shots.skip(1)[i],
                        army[j],
                    );
                assert(shots[i + 1] == shots.skip(1)[i]);
                assert(shot_hits_invader(shots[i + 1], army[j]));
            }
            if exists|i: int, j: int|
                #![trigger shots[i], army[j]]
                0 <= i < shots.len() && 0 <= j < army.len() && shot_hits_invader(
                    shots[i],
                    army[j],
                ) {
                let (i, j) = choose|i: int, j: int|
                    #![trigger shots[i], army[j]]
                    0 <= i < shots.len() && 0 <= j < army.len() && shot_hits_invader(
                        shots[i],
                        army[j],
                    );
                assert(i != 0);
                assert(shots.skip(1)[i - 1] == shots[i]);
                assert(shot_hits_invader(shots.skip(1)[i - 1], army[j]));
            }
        }
    }
}

/// Law: when no hit is found, collision detection changes nothing.
pub proof fn lemma_hits_none_unchanged(shots: Seq<Shot>, army: Seq<Invader>)
    ensures
        !resolve_hits(shots, army).any ==> resolve_hits(shots, army).shots == shots
            && resolve_hits(shots, army).army == army,
    decreases shots.len(),
{
    if shots.len() > 0 && !resolve_hits(shots, army).any {
        lemma_hits_none_unchanged(shots.skip(1), army);
        assert(seq![shots[0]] + shots.skip(1) =~= shots);
    }
}

/// Collision detection keeps every survivor inside the grid and never grows
/// the shot list.
pub proof fn lemma_hits_preserve_bounds(shots: Seq<Shot>, army: Seq<Invader>)
    requires
        shots_in_bounds(shots),
        army_in_bounds(army),
    ensures
        shots_in_bounds(resolve_hits(shots, army).shots),
        army_in_bounds(resolve_hits(shots, army).army),
        resolve_hits(shots, army).shots.len() <= shots.len(),
    decreases shots.len(),
{
    if shots.len() > 0 {
        let j = first_hit_index(army, shots[0], 0);
        lemma_first_hit_index(army, shots[0], 0);
        if j >= 0 {
            assert(army_in_bounds(army.remove(j))) by {
                assert forall|k: int| 0 <= k < army.remove(j).len() implies (#[trigger] army.remove(
                    j,
                )[k]).x < NUM_COLS && army.remove(j)[k].y < NUM_ROWS by {
                    if k < j {
                        assert(army.remove(j)[k] == army[k]);
                    } else {
                        assert(army.remove(j)[k] == army[k + 1]);
                    }
                }
            }
            lemma_hits_preserve_bounds(shots.skip(1), army.remove(j));
        } else {
            lemma_hits_preserve_bounds(shots.skip(1), army);
        }
    }
}

/// Advancing shots keeps them inside the grid and keeps their count.
proof fn lemma_advanced_shots_bounds(s: Seq<Shot>)
    requires
        shots_in_bounds(s),
    ensures
        shots_in_bounds(advanced_shots(s)),
        advanced_shots(s).len() <= s.len(),
    decreases s.len(),
{
    if s.len() > 0 {
        lemma_advanced_shots_bounds(s.skip(1));
    }
}

/// Appending one shot to a list advances as the list, then that shot.
proof fn lemma_advanced_shots_push(s: Seq<Shot>, e: Shot)
    ensures
        advanced_shots(s.push(e)) == advanced_shots(s) + (if e.y > 0 {
            seq![Shot { x: e.x, y: (e.y - 1) as usize }]
        } else {
            Seq::<Shot>::empty()
        }),
    decreases s.len(),
{
    if s.len() == 0 {
        assert(s.push(e).skip(1) =~= Seq::<Shot>::empty());
        assert(advanced_shots(s.push(e)) =~= advanced_shots(s) + (if e.y > 0 {
            seq![Shot { x: e.x, y: (e.y - 1) as usize }]
        } else {
            Seq::<Shot>::empty()
        }));
    } else {
        assert(s.push(e).skip(1) =~= s.skip(1).push(e));
        lemma_advanced_shots_push(s.skip(1), e);
        let tail: Seq<Shot> = if e.y > 0 {
            seq![Shot { x: e.x, y: (e.y - 1) as usize }]
        } else {
            Seq::<Shot>::empty()
        };
        assert(s.push(e)[0] == s[0]);
        assert(advanced_shots(s.push(e).skip(1)) == advanced_shots(s.skip(1)) + tail);
        if s[0].y > 0 {
            let head = seq![Shot { x: s[0].x, y: (s[0].y - 1) as usize }];
            assert(advanced_shots(s.push(e)) == head + (advanced_shots(s.skip(1)) + tail));
            assert(advanced_shots(s) == head + advanced_shots(s.skip(1)));
            assert(head + (advanced_shots(s.skip(1)) + tail) =~= advanced_shots(s) + tail);
        } else {
            assert(advanced_shots(s.push(e)) == advanced_shots(s.skip(1)) + tail);
            assert(advanced_shots(s) == advanced_shots(s.skip(1)));
        }
    }
}

/// The grid `f` with the shot glyph painted at the first `k` shots of `s`.
pub open spec fn painted_shots(f: Seq<Seq<char>>, s: Seq<Shot>, k: int) -> Seq<Seq<char>>
    decreases k,
{
    if k <= 0 {
        f
    } else {
        put_glyph(painted_shots(f, s, k - 1), s[k - 1].x as int, s[k - 1].y as int, SHOT_GLYPH)
    }
}

/// Index of the first invader of `army`, if any, that `s` collides with.
fn find_invader_at(army: &Vec<Invader>, s: Shot) -> (r: Option<usize>)
    ensures
        match r {
            Some(j) => j as int == first_hit_index(army@, s, 0) && j < army@.len(),
            None => first_hit_index(army@, s, 0) == -1,
        },
{
    let mut j: usize = 0;
    while j < army.len()
        invariant
            j <= army@.len(),
            first_hit_index(army@, s, 0) == first_hit_index(army@, s, j as int),
        decreases army@.len() - j,
    {
        if army[j].x == s.x && army[j].y == s.y {
            return Some(j);
        }
        j = j + 1;
    }
    None
}

impl Player {
    /// The player invariant, on the live value.
    pub open spec fn wf(&self) -> bool {
        player_wf(self@)
    }

    /// A player at the start position on the bottom row, with no shot in
    /// flight.
    pub fn new() -> (p: Player)
        ensures
            p.wf(),
            p@.x == PLAYER_START_COL,
            p@.y == PLAYER_ROW,
            p@.shots.len() == 0,
    {
        Player { x: PLAYER_START_COL, y: PLAYER_ROW, shots: Vec::new() }
    }

    /// Shift one column left; a no-op at the boundary.
    pub fn move_left(&mut self)
        requires
            old(self).wf(),
        ensures
            final(self).wf(),
            final(self)@.x == if old(self)@.x > 0 {
                old(self)@.x - 1
            } else {
                0
            },
            final(self)@.y == old(self)@.y,
            final(self)@.shots == old(self)@.shots,
    {
        if self.x > 0 {
            self.x = self.x - 1;
        }
    }

    /// Shift one column right; a no-op at the boundary.
    pub fn move_right(&mut self)
        requires
            old(self).wf(),
        ensures
            final(self).wf(),
            final(self)@.x == if old(self)@.x < NUM_COLS - 1 {
                old(self)@.x + 1
            } else {
                old(self)@.x
            },
            final(self)@.y == old(self)@.y,
            final(self)@.shots == old(self)@.shots,
    {
        if self.x < NUM_COLS - 1 {
            self.x = self.x + 1;
        }
    }

    /// Try to fire: succeeds, adding a shot at the player's position, only
    /// while fewer than the cap are in flight; otherwise nothing changes.
    pub fn shoot(&mut self) -> (fired: bool)
        requires
            old(self).wf(),
        ensures
            final(self).wf(),
            fired == (old(self)@.shots.len() < MAX_SHOTS),
            final(self)@.x == old(self)@.x,
            final(self)@.y == old(self)@.y,
            final(self)@.shots == if fired {
                old(self)@.shots.push(Shot { x: old(self).x, y: old(self).y })
            } else {
                old(self)@.shots
            },
    {
        if self.shots.len() < MAX_SHOTS {
            let s = Shot { x: self.x, y: self.y };
            self.shots.push(s);
            true
        } else {
            false
        }
    }

    /// One tick: every live shot moves up one row; a shot that moves past
    /// the top of the grid is removed. The elapsed time is taken for
    /// interface uniformity; shot travel is per tick.
    pub fn update(&mut self, _delta_ms: u64)
        requires
            old(self).wf(),
        ensures
            final(self).wf(),
            final(self)@.x == old(self)@.x,
            final(self)@.y == old(self)@.y,
            final(self)@.shots == advanced_shots(old(self)@.shots),
    {
        let ghost s0 = self.shots@;
        let ghost px = self.x;
        let ghost py = self.y;
        let mut kept: Vec<Shot> = Vec::new();
        let mut i: usize = 0;
        while i < self.shots.len()
            invariant
                self.x == px,
                self.y == py,
                i <= s0.len(),
                self.shots@ == s0,
                kept@ == advanced_shots(s0.take(i as int)),
            decreases s0.len() - i,
        {
            let s = self.shots[i];
            proof {
                assert(s0.take(i as int + 1) =~= s0.take(i as int).push(s0[i as int]));
                lemma_advanced_shots_push(s0.take(i as int), s0[i as int]);
            }
            if s.y > 0 {
                kept.push(Shot { x: s.x, y: s.y - 1 });
            }
            i = i + 1;
        }
        proof {
            assert(s0.take(s0.len() as int) =~= s0);
            lemma_advanced_shots_bounds(s0);
        }
        self.shots = kept;
    }

    /// Resolve collisions between the live shots and the invader army: every
    /// shot whose coordinates equal a live invader's removes that invader
    /// and itself. Returns whether at least one pair was removed.
    pub fn detect_hits(&mut self, invaders: &mut Invaders) -> (hit: bool)
        requires
            old(self).wf(),
            old(invaders).wf(),
        ensures
            final(self).wf(),
            final(invaders).wf(),
            final(self)@.x == old(self)@.x,
            final(self)@.y == old(self)@.y,
            final(invaders)@.duration_ms == old(invaders)@.duration_ms,
            final(invaders)@.elapsed_ms == old(invaders)@.elapsed_ms,
            final(invaders)@.direction == old(invaders)@.direction,
            ({
                let r = resolve_hits(old(self)@.shots, old(invaders)@.army);
                &&& final(self)@.shots == r.shots
                &&& final(invaders)@.army == r.army
                &&& hit == r.any
            }),
    {
        let ghost s0 = self.shots@;
        let ghost a0 = invaders.army@;
        let ghost px = self.x;
        let ghost py = self.y;
        let ghost m0 = invaders.move_timer;
        let ghost d0 = invaders.direction;
        let mut hit = false;
        let mut i: usize = 0;
        let ghost mut p: int = 0;
        proof {
            assert(s0.skip(0) =~= s0);
            assert(self.shots@.take(0) =~= Seq::<Shot>::empty());
            assert(resolve_hits(s0, a0) =~~= (HitsResult {
                shots: self.shots@.take(0) + resolve_hits(s0.skip(0), invaders.army@).shots,
                army: resolve_hits(s0.skip(0), invaders.army@).army,
                any: false || resolve_hits(s0.skip(0), invaders.army@).any,
            }));
        }
        while i < self.shots.len()
            invariant
                self.x == px,
                self.y == py,
                invaders.move_timer == m0,
                invaders.direction == d0,
                0 <= i as int <= self.shots@.len(),
                0 <= p <= s0.len(),
                self.shots@.len() - i == s0.len() - p,
                self.shots@.skip(i as int) == s0.skip(p),
                resolve_hits(s0, a0) == (HitsResult {
                    shots: self.shots@.take(i as int) + resolve_hits(
                        s0.skip(p),
                        invaders.army@,
                    ).shots,
                    army: resolve_hits(s0.skip(p), invaders.army@).army,
                    any: hit || resolve_hits(s0.skip(p), invaders.army@).any,
                }),
            decreases s0.len() - p,
        {
            let s = self.shots[i];
            proof {
                assert(self.shots@.skip(i as int)[0] == s0.skip(p)[0]);
                assert(s == s0.skip(p)[0]);
            }
            let ghost a_cur = invaders.army@;
            let ghost s_cur = self.shots@;
            match find_invader_at(&invaders.army, s) {
                Some(j) => {
                    invaders.army.remove(j);
                    self.shots.remove(i);
                    hit = true;
                    proof {
                        assert(s0.skip(p).skip(1) =~= s0.skip(p + 1));
                        assert(self.shots@.skip(i as int) =~= s_cur.skip(i as int + 1));
                        assert(s_cur.skip(i as int + 1) =~= s0.skip(p + 1));
                        assert(self.shots@.take(i as int) =~= s_cur.take(i as int));
                        assert(resolve_hits(s0.skip(p), a_cur).shots == resolve_hits(
                            s0.skip(p + 1),
                            invaders.army@,
                        ).shots);
                    }
                },
                None => {
                    proof {
                        assert(s0.skip(p).skip(1) =~= s0.skip(p + 1));
                        assert(self.shots@.take(i as int + 1) =~= s_cur.take(i as int).push(s));
                        assert(self.shots@.take(i as int) + resolve_hits(s0.skip(p), a_cur).shots
                            =~= self.shots@.take(i as int + 1) + resolve_hits(
                            s0.skip(p + 1),
                            invaders.army@,
                        ).shots);
                    }
                    i = i + 1;
                },
            }
            proof {
                p = p + 1;
            }
        }
        proof {
            assert(s0.skip(p) =~= Seq::<Shot>::empty());
            assert(self.shots@.take(i as int) =~= self.shots@);
            assert(self.shots@ + resolve_hits(s0.skip(p), invaders.army@).shots =~= self.shots@);
            lemma_hits_preserve_bounds(s0, a0);
        }
        hit
    }

    /// Paint the player and every live shot onto `frame`. Reads nothing of
    /// the frame's prior contents.
    pub fn draw(&self, frame: &mut Frame)
        requires
            self.wf(),
            frame_wf(old(frame)@),
        ensures
            frame_wf(final(frame)@),
            final(frame)@ == painted_shots(
                put_glyph(old(frame)@, self@.x, self@.y, PLAYER_GLYPH),
                self@.shots,
                self@.shots.len() as int,
            ),
    {
        frame.set(self.x, self.y, PLAYER_GLYPH);
        let ghost f0 = frame@;
        let mut i: usize = 0;
        while i < self.shots.len()
            invariant
                self.wf(),
                i <= self.shots@.len(),
                frame_wf(frame@),
                frame@ == painted_shots(f0, self@.shots, i as int),
            decreases self.shots@.len() - i,
        {
            let s = self.shots[i];
            frame.set(s.x, s.y, SHOT_GLYPH);
            i = i + 1;
        }
    }
}

} // verus!
