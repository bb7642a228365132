use invaders::frame::new_frame;
use invaders::invaders::Invader;
use invaders::invaders::Invaders;
use invaders::player::Player;
use invaders::player::Shot;
use invaders::player::MAX_SHOTS;
use invaders::timer::MoveTimer;
use invaders::NUM_COLS;
use invaders::NUM_ROWS;

fn player_at(x: usize, shots: Vec<Shot>) -> Player {
    Player { x, y: NUM_ROWS - 1, shots }
}

fn formation(army: Vec<Invader>) -> Invaders {
    Invaders { army, move_timer: MoveTimer::new(1000), direction: 1 }
}

#[test]
fn test_new_player_position() {
    let p = Player::new();
    assert_eq!(p.x, NUM_COLS / 2);
    assert_eq!(p.y, NUM_ROWS - 1);
    assert!(p.shots.is_empty());
}

/// From column 5, four moves left reach column 1, one more reaches the
/// boundary, and further moves leave the column unchanged — never below 0.
#[test]
fn test_move_left_clamps_at_boundary() {
    let mut p = player_at(5, Vec::new());
    for _ in 0..4 {
        p.move_left();
    }
    assert_eq!(p.x, 1);
    p.move_left();
    assert_eq!(p.x, 0);
    p.move_left();
    assert_eq!(p.x, 0);
}

#[test]
fn test_move_right_clamps_at_boundary() {
    let mut p = player_at(NUM_COLS - 2, Vec::new());
    p.move_right();
    assert_eq!(p.x, NUM_COLS - 1);
    p.move_right();
    assert_eq!(p.x, NUM_COLS - 1);
}

/// Firing succeeds only below the in-flight cap and adds a shot at the
/// player's position; at the cap nothing changes.
#[test]
fn test_shoot_gated_by_cap() {
    let mut p = player_at(7, Vec::new());
    assert!(p.shoot());
    assert!(p.shoot());
    assert_eq!(p.shots.len(), MAX_SHOTS);
    assert!(!p.shoot());
    assert_eq!(p.shots.len(), MAX_SHOTS);
    assert_eq!(p.shots[0], Shot { x: 7, y: NUM_ROWS - 1 });
    assert_eq!(p.shots[1], Shot { x: 7, y: NUM_ROWS - 1 });
}

/// Each tick every shot moves up one row; a shot moving past the top is
/// removed.
#[test]
fn test_update_advances_and_drops_shots() {
    let mut p = player_at(5, vec![Shot { x: 5, y: 1 }, Shot { x: 7, y: 0 }]);
    p.update(16);
    assert_eq!(p.shots, vec![Shot { x: 5, y: 0 }]);
    p.update(16);
    assert!(p.shots.is_empty());
}

/// One shot and one invader are removed per exact coordinate match.
#[test]
fn test_detect_hits_removes_matching_pair() {
    let mut p = player_at(4, vec![Shot { x: 4, y: 4 }, Shot { x: 9, y: 9 }]);
    let mut inv = formation(vec![Invader { x: 6, y: 6 }, Invader { x: 4, y: 4 }]);
    let hit = p.detect_hits(&mut inv);
    assert!(hit);
    assert_eq!(p.shots, vec![Shot { x: 9, y: 9 }]);
    assert_eq!(inv.army.len(), 1);
    assert_eq!(inv.army[0].x, 6);
    assert_eq!(inv.army[0].y, 6);
}

/// With no coordinate match, detection reports false and changes nothing.
#[test]
fn test_detect_hits_no_match() {
    let mut p = player_at(4, vec![Shot { x: 4, y: 4 }]);
    let mut inv = formation(vec![Invader { x: 4, y: 5 }, Invader { x: 5, y: 4 }]);
    let hit = p.detect_hits(&mut inv);
    assert!(!hit);
    assert_eq!(p.shots, vec![Shot { x: 4, y: 4 }]);
    assert_eq!(inv.army.len(), 2);
}

/// Two shots on one cell take out a single invader there: the second shot
/// stays in flight.
#[test]
fn test_detect_hits_one_invader_two_shots() {
    let mut p = player_at(4, vec![Shot { x: 4, y: 4 }, Shot { x: 4, y: 4 }]);
    let mut inv = formation(vec![Invader { x: 4, y: 4 }]);
    let hit = p.detect_hits(&mut inv);
    assert!(hit);
    assert_eq!(p.shots, vec![Shot { x: 4, y: 4 }]);
    assert!(inv.army.is_empty());
}

/// Counts stay balanced: as many shots as invaders are removed.
#[test]
fn test_detect_hits_balanced_counts() {
    let mut p = player_at(
        4,
        vec![Shot { x: 1, y: 1 }, Shot { x: 2, y: 2 }, Shot { x: 30, y: 15 }],
    );
    let mut inv = formation(vec![
        Invader { x: 2, y: 2 },
        Invader { x: 1, y: 1 },
        Invader { x: 8, y: 8 },
    ]);
    let hit = p.detect_hits(&mut inv);
    assert!(hit);
    assert_eq!(p.shots.len(), 1);
    assert_eq!(inv.army.len(), 1);
    assert_eq!(inv.army[0], Invader { x: 8, y: 8 });
}

#[test]
fn test_player_draw_paints_player_and_shots() {
    let p = player_at(6, vec![Shot { x: 6, y: 10 }]);
    let mut f = new_frame();
    p.draw(&mut f);
    assert_eq!(f.get(6, NUM_ROWS - 1), 'A');
    assert_eq!(f.get(6, 10), '|');
    assert_eq!(f.get(5, 10), ' ');
}
