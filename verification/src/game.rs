//! The per-tick orchestration: map key events to commands, apply a command
//! to the player, and advance the whole game by one tick — updates, collision
//! detection, frame construction and the win/lose verdict, in the fixed
//! order the loop uses. The surrounding loop only measures elapsed time,
//! polls keys, plays the cues this module reports, and ships frames to the
//! renderer.
use vstd::prelude::*;
use crate::frame::Frame;
use crate::frame::blank_grid;
use crate::frame::frame_wf;
use crate::frame::new_frame;
use crate::frame::put_glyph;
use crate::invaders::Invaders;
use crate::invaders::InvadersView;
use crate::invaders::START_INTERVAL_MS;
use crate::invaders::army_contains;
use crate::invaders::is_start_pos;
use crate::invaders::inv_step;
use crate::invaders::inv_wf;
use crate::invaders::invader_glyph;
use crate::invaders::painted_army;
use crate::invaders::reach_bottom_spec;
use crate::invaders::timer_fires;
use crate::player::MAX_SHOTS;
use crate::player::PLAYER_GLYPH;
use crate::player::Player;
use crate::player::PlayerView;
use crate::player::Shot;
use crate::player::advanced_shots;
use crate::player::painted_shots;
use crate::player::player_wf;
use crate::player::resolve_hits;

verus! {

/// A key event from the input source, reduced to what the game recognizes.
#[derive(Clone, Copy, PartialEq, Eq, Debug)]
pub enum Key {
    Left,
    Right,
    Enter,
    Esc,
    Char(char),
    Other,
}

/// What one recognized key asks for.
#[derive(Clone, Copy, PartialEq, Eq, Structural, Debug)]
pub enum Command {
    MoveLeft,
    MoveRight,
    Fire,
    Quit,
}

/// The verdict after a tick.
#[derive(Clone, Copy, PartialEq, Eq, Structural, Debug)]
pub enum GameStatus {
    Running,
    Won,
    Lost,
}

/// The recognized key codes: the arrow keys move, space and enter fire,
/// escape and `q` quit; every other key is ignored.
pub open spec fn key_command_spec(k: Key) -> Option<Command> {
    match k {
        Key::Left => Some(Command::MoveLeft),
        Key::Right => Some(Command::MoveRight),
        Key::Enter => Some(Command::Fire),
        Key::Esc => Some(Command::Quit),
        Key::Char(c) => if c == ' ' {
            Some(Command::Fire)
        } else if c == 'q' {
            Some(Command::Quit)
        } else {
            None
        },
        Key::Other => None,
    }
}

/// Map one key event to a command; unrecognized keys map to nothing.
pub fn key_command(k: Key) -> (r: Option<Command>)
    ensures
        r == key_command_spec(k),
{
    match k {
        Key::Left => Some(Command::MoveLeft),
        Key::Right => Some(Command::MoveRight),
        Key::Enter => Some(Command::Fire),
        Key::Esc => Some(Command::Quit),
        Key::Char(c) => if c == ' ' {
            Some(Command::Fire)
        } else if c == 'q' {
            Some(Command::Quit)
        } else {
            None
        },
        Key::Other => None,
    }
}

/// What one tick reports back to the loop: the frame to ship to the
/// renderer, which audio cues are due, and the verdict.
pub struct TickResult {
    pub frame: Frame,
    /// The formation took an actual step: the movement cue is due.
    pub invaders_moved: bool,
    /// At least one invader was destroyed: the explosion cue is due.
    pub hit: bool,
    pub status: GameStatus,
}

/// The whole mutable game state: the player and the enemy formation, both
/// owned by the loop's thread alone.
pub struct Game {
    pub player: Player,
    pub invaders: Invaders,
}

impl Game {
    /// Both components hold their invariants.
    pub open spec fn wf(&self) -> bool {
        &&& player_wf(self.player@)
        &&& inv_wf(self.invaders@)
    }

    /// A fresh game: the player at its start position with no shot in
    /// flight, and the starting formation marching right at the starting
    /// cadence.
    pub fn new() -> (g: Game)
        ensures
            g.wf(),
            g.player@.x == crate::player::PLAYER_START_COL,
            g.player@.y == crate::player::PLAYER_ROW,
            g.player@.shots.len() == 0,
            g.invaders@.duration_ms == START_INTERVAL_MS,
            g.invaders@.elapsed_ms == 0,
            g.invaders@.direction == 1,
            forall|i: int|
                0 <= i < g.invaders@.army.len() ==> is_start_pos(
                    (#[trigger] g.invaders@.army[i]).x as int,
                    g.invaders@.army[i].y as int,
                ),
            forall|x: int, y: int| is_start_pos(x, y) ==> army_contains(g.invaders@.army, x, y),
            !reach_bottom_spec(g.invaders@.army),
    {
        Game { player: Player::new(), invaders: Invaders::new() }
    }

    /// Apply one command to the player. Returns whether a shot was actually
    /// fired, so that the loop can play the firing cue; quitting is the
    /// loop's business and changes nothing here.
    pub fn handle_command(&mut self, cmd: Command) -> (fired: bool)
        requires
            old(self).wf(),
        ensures
            final(self).wf(),
            final(self).invaders == old(self).invaders,
            final(self).player@.y == old(self).player@.y,
            (match cmd {
                Command::MoveLeft => !fired && final(self).player@.shots == old(self).player@.shots
                    && final(self).player@.x == (if old(self).player@.x > 0 {
                    old(self).player@.x - 1
                } else {
                    0int
                }),
                Command::MoveRight => !fired && final(self).player@.shots == old(self).player@.shots
                    && final(self).player@.x == (if old(self).player@.x < crate::NUM_COLS - 1 {
                    old(self).player@.x + 1
                } else {
                    old(self).player@.x
                }),
                Command::Fire => fired == (old(self).player@.shots.len() < MAX_SHOTS)
                    && final(self).player@.x == old(self).player@.x
                    && final(self).player@.shots == (if fired {
                    old(self).player@.shots.push(
                        Shot { x: old(self).player.x, y: old(self).player.y },
                    )
                } else {
                    old(self).player@.shots
                }),
                Command::Quit => !fired && final(self).player == old(self).player,
            }),
    {
        match cmd {
            Command::MoveLeft => {
                self.player.move_left();
                false
            },
            Command::MoveRight => {
                self.player.move_right();
                false
            },
            Command::Fire => self.player.shoot(),
            Command::Quit => false,
        }
    }

    /// One tick of the game, given the elapsed wall-clock milliseconds: the
    /// player's shots travel, the formation takes its step if its clock
    /// fires, collisions are resolved, the frame is rebuilt from empty and
    /// painted — player first, formation second — and the verdict is taken:
    /// won exactly when the army is empty, else lost exactly when the
    /// formation has reached the bottom threshold row.
    pub fn tick(&mut self, delta_ms: u64) -> (r: TickResult)
        requires
            old(self).wf(),
            !reach_bottom_spec(old(self).invaders@.army),
        ensures
            final(self).wf(),
            ({
                let pl = (PlayerView {
                    x: old(self).player@.x,
                    y: old(self).player@.y,
                    shots: advanced_shots(old(self).player@.shots),
                });
                let iv = inv_step(old(self).invaders@, delta_ms as int);
                let h = resolve_hits(pl.shots, iv.army);
                &&& final(self).player@ == (PlayerView { x: pl.x, y: pl.y, shots: h.shots })
                &&& final(self).invaders@ == (InvadersView {
                    army: h.army,
                    duration_ms: iv.duration_ms,
                    elapsed_ms: iv.elapsed_ms,
                    direction: iv.direction,
                })
                &&& r.invaders_moved == timer_fires(old(self).invaders@, delta_ms as int)
                &&& r.hit == h.any
                &&& r.status == (if h.army.len() == 0 {
                    GameStatus::Won
                } else if reach_bottom_spec(h.army) {
                    GameStatus::Lost
                } else {
                    GameStatus::Running
                })
                &&& frame_wf(r.frame@)
                &&& r.frame@ == painted_army(
                    painted_shots(
                        put_glyph(blank_grid(), pl.x, pl.y, PLAYER_GLYPH),
                        h.shots,
                        h.shots.len() as int,
                    ),
                    h.army,
                    invader_glyph(iv.duration_ms, iv.elapsed_ms),
                    h.army.len() as int,
                )
            }),
    {
        self.player.update(delta_ms);
        let moved = self.invaders.update(delta_ms);
        let hit = self.player.detect_hits(&mut self.invaders);
        let mut frame = new_frame();
        self.player.draw(&mut frame);
        self.invaders.draw(&mut frame);
        let status = if self.invaders.all_killed() {
            GameStatus::Won
        } else if self.invaders.reach_bottom() {
            GameStatus::Lost
        } else {
            GameStatus::Running
        };
        TickResult { frame, invaders_moved: moved, hit, status }
    }
}

} // verus!
