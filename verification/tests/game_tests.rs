use invaders::game::key_command;
use invaders::game::Command;
use invaders::game::Game;
use invaders::game::GameStatus;
use invaders::game::Key;
use invaders::invaders::Invader;
use invaders::invaders::Invaders;
use invaders::player::Player;
use invaders::player::Shot;
use invaders::timer::MoveTimer;
use invaders::NUM_COLS;
use invaders::NUM_ROWS;

#[test]
fn test_key_mapping() {
    assert_eq!(key_command(Key::Left), Some(Command::MoveLeft));
    assert_eq!(key_command(Key::Right), Some(Command::MoveRight));
    assert_eq!(key_command(Key::Enter), Some(Command::Fire));
    assert_eq!(key_command(Key::Char(' ')), Some(Command::Fire));
    assert_eq!(key_command(Key::Esc), Some(Command::Quit));
    assert_eq!(key_command(Key::Char('q')), Some(Command::Quit));
    assert_eq!(key_command(Key::Char('z')), None);
    assert_eq!(key_command(Key::Other), None);
}

#[test]
fn test_handle_command_moves_and_fires() {
    let mut g = Game::new();
    let x0 = g.player.x;
    assert!(!g.handle_command(Command::MoveLeft));
    assert_eq!(g.player.x, x0 - 1);
    assert!(!g.handle_command(Command::MoveRight));
    assert_eq!(g.player.x, x0);
    assert!(g.handle_command(Command::Fire));
    assert_eq!(g.player.shots, vec![Shot { x: x0, y: NUM_ROWS - 1 }]);
    assert!(!g.handle_command(Command::Quit));
    assert_eq!(g.player.shots.len(), 1);
}

#[test]
fn test_tick_keeps_running_and_paints() {
    let mut g = Game::new();
    let r = g.tick(10);
    assert_eq!(r.status, GameStatus::Running);
    assert!(!r.invaders_moved);
    assert!(!r.hit);
    // player on the bottom row, formation drawn with a full period remaining
    assert_eq!(r.frame.get(NUM_COLS / 2, NUM_ROWS - 1), 'A');
    assert_eq!(r.frame.get(2, 2), 'x');
    assert_eq!(r.frame.get(0, 0), ' ');
}

#[test]
fn test_tick_shot_travels_then_wins() {
    let mut g = Game {
        player: Player { x: 4, y: NUM_ROWS - 1, shots: vec![Shot { x: 4, y: 5 }] },
        invaders: Invaders {
            army: vec![Invader { x: 4, y: 4 }],
            move_timer: MoveTimer::new(2000),
            direction: 1,
        },
    };
    let r = g.tick(0);
    assert!(r.hit);
    assert!(!r.invaders_moved);
    assert_eq!(r.status, GameStatus::Won);
    assert!(g.player.shots.is_empty());
    assert!(g.invaders.army.is_empty());
}

#[test]
fn test_tick_descent_to_bottom_loses() {
    let mut g = Game {
        player: Player { x: 0, y: NUM_ROWS - 1, shots: Vec::new() },
        invaders: Invaders {
            army: vec![Invader { x: NUM_COLS - 1, y: NUM_ROWS - 2 }],
            move_timer: MoveTimer::new(250),
            direction: 1,
        },
    };
    let r = g.tick(250);
    assert!(r.invaders_moved);
    assert!(!r.hit);
    assert_eq!(r.status, GameStatus::Lost);
    assert_eq!(g.invaders.army[0].y, NUM_ROWS - 1);
    assert_eq!(g.invaders.direction, -1);
}

#[test]
fn test_tick_formation_step_reports_move_cue() {
    let mut g = Game {
        player: Player { x: 0, y: NUM_ROWS - 1, shots: Vec::new() },
        invaders: Invaders {
            army: vec![Invader { x: 10, y: 2 }],
            move_timer: MoveTimer::new(1000),
            direction: 1,
        },
    };
    let r = g.tick(1000);
    assert!(r.invaders_moved);
    assert_eq!(g.invaders.army[0].x, 11);
    assert_eq!(r.status, GameStatus::Running);
    // the shifted invader is painted at its new column
    assert_eq!(r.frame.get(11, 2), 'x');
    assert_eq!(r.frame.get(10, 2), ' ');
}

/// The last-write-wins rule of the fixed draw order: the formation is drawn
/// after the player, so an invader overlapping a shot's cell shows the
/// invader's glyph.
#[test]
fn test_draw_order_formation_over_shot() {
    let mut g = Game {
        player: Player { x: 0, y: NUM_ROWS - 1, shots: vec![Shot { x: 7, y: 8 }] },
        invaders: Invaders {
            army: vec![Invader { x: 7, y: 7 }],
            move_timer: MoveTimer::new(2000),
            direction: 1,
        },
    };
    let r = g.tick(0);
    // the shot advanced to (7, 7) before collision detection, removing the
    // invader there: both are gone from the frame
    assert!(r.hit);
    assert_eq!(r.frame.get(7, 7), ' ');
    // drawing by hand in the fixed order: the formation paints over a shot
    // sharing its cell
    let p = Player { x: 0, y: NUM_ROWS - 1, shots: vec![Shot { x: 7, y: 8 }] };
    let inv = Invaders {
        army: vec![Invader { x: 7, y: 8 }],
        move_timer: MoveTimer::new(2000),
        direction: 1,
    };
    let mut f = invaders::frame::new_frame();
    p.draw(&mut f);
    assert_eq!(f.get(7, 8), '|');
    inv.draw(&mut f);
    assert_eq!(f.get(7, 8), 'x');
}
