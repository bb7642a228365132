use invaders::frame::new_frame;
use invaders::invaders::Invader;
use invaders::invaders::Invaders;
use invaders::timer::MoveTimer;
use invaders::NUM_COLS;
use invaders::NUM_ROWS;

fn formation(army: Vec<Invader>, duration_ms: u64, direction: i32) -> Invaders {
    Invaders { army, move_timer: MoveTimer::new(duration_ms), direction }
}

/// The starting formation holds exactly the positions with both coordinates
/// even, `1 < x < NUM_COLS - 2` and `0 < y < 9`, each once.
#[test]
fn test_initial_army_exact() {
    let inv = Invaders::new();
    for x in 0..NUM_COLS {
        for y in 0..NUM_ROWS {
            let expected = x > 1 && x < NUM_COLS - 2 && y > 0 && y < 9 && x % 2 == 0 && y % 2 == 0;
            let count = inv.army.iter().filter(|i| i.x == x && i.y == y).count();
            assert_eq!(count, if expected { 1 } else { 0 });
        }
    }
    // 18 even columns in (1, 38) times 4 even rows in (0, 9)
    assert_eq!(inv.army.len(), 72);
}

#[test]
fn test_update_before_cadence_changes_nothing() {
    let mut inv = Invaders::new();
    let before: Vec<(usize, usize)> = inv.army.iter().map(|i| (i.x, i.y)).collect();
    let moved = inv.update(100);
    assert!(!moved);
    let after: Vec<(usize, usize)> = inv.army.iter().map(|i| (i.x, i.y)).collect();
    assert_eq!(before, after);
    assert_eq!(inv.move_timer.elapsed_ms, 100);
    assert_eq!(inv.move_timer.duration_ms, 2000);
}

#[test]
fn test_update_shifts_right_away_from_edge() {
    let mut inv = Invaders::new();
    let before: Vec<(usize, usize)> = inv.army.iter().map(|i| (i.x, i.y)).collect();
    let moved = inv.update(2000);
    assert!(moved);
    for (n, i) in inv.army.iter().enumerate() {
        assert_eq!(i.x, before[n].0 + 1);
        assert_eq!(i.y, before[n].1);
    }
    // no descent, so the cadence is unchanged and the direction kept
    assert_eq!(inv.move_timer.duration_ms, 2000);
    assert_eq!(inv.move_timer.elapsed_ms, 0);
}

/// A flip happens exactly when the marching edge is reached, and it comes
/// with a descent and a speed-up on the same tick.
#[test]
fn test_descent_flip_at_right_edge() {
    let mut inv = formation(vec![Invader { x: NUM_COLS - 1, y: 3 }, Invader { x: 10, y: 3 }], 1000, 1);
    let moved = inv.update(1000);
    assert!(moved);
    assert_eq!(inv.direction, -1);
    assert_eq!(inv.army[0].x, NUM_COLS - 1);
    assert_eq!(inv.army[0].y, 4);
    assert_eq!(inv.army[1].x, 10);
    assert_eq!(inv.army[1].y, 4);
    assert_eq!(inv.move_timer.duration_ms, 750);
}

#[test]
fn test_descent_flip_at_left_edge() {
    let mut inv = formation(vec![Invader { x: 0, y: 2 }], 2000, -1);
    let moved = inv.update(2500);
    assert!(moved);
    assert_eq!(inv.direction, 1);
    assert_eq!(inv.army[0].x, 0);
    assert_eq!(inv.army[0].y, 3);
    assert_eq!(inv.move_timer.duration_ms, 1750);
}

#[test]
fn test_no_flip_away_from_marching_edge() {
    // marching left with an invader in the rightmost column: no flip there
    let mut inv = formation(vec![Invader { x: NUM_COLS - 1, y: 2 }], 1000, -1);
    let moved = inv.update(1000);
    assert!(moved);
    assert_eq!(inv.direction, -1);
    assert_eq!(inv.army[0].x, NUM_COLS - 2);
    assert_eq!(inv.army[0].y, 2);
}

/// The cadence duration never drops below its floor.
#[test]
fn test_cadence_floor() {
    let mut inv = formation(vec![Invader { x: 0, y: 2 }], 400, -1);
    inv.update(400);
    assert_eq!(inv.move_timer.duration_ms, 250);
    let mut inv = formation(vec![Invader { x: 0, y: 4 }], 250, -1);
    inv.update(250);
    assert_eq!(inv.move_timer.duration_ms, 250);
}

/// An empty army marching left counts as at the edge: its minimum column
/// defaults to zero.
#[test]
fn test_empty_army_left_march_flips() {
    let mut inv = formation(Vec::new(), 1000, -1);
    let moved = inv.update(1000);
    assert!(moved);
    assert_eq!(inv.direction, 1);
    assert_eq!(inv.move_timer.duration_ms, 750);
}

#[test]
fn test_empty_army_right_march_shifts_nothing() {
    let mut inv = formation(Vec::new(), 1000, 1);
    let moved = inv.update(1000);
    assert!(moved);
    assert_eq!(inv.direction, 1);
    assert_eq!(inv.move_timer.duration_ms, 1000);
}

/// `all_killed` is true exactly when the army is empty; `reach_bottom` is
/// true exactly when some invader sits on the bottom threshold row.
#[test]
fn test_all_killed_and_reach_bottom() {
    let empty = formation(Vec::new(), 1000, 1);
    assert!(empty.all_killed());
    assert!(!empty.reach_bottom());
    let low = formation(vec![Invader { x: 3, y: NUM_ROWS - 1 }], 1000, 1);
    assert!(!low.all_killed());
    assert!(low.reach_bottom());
    let high = formation(vec![Invader { x: 3, y: NUM_ROWS - 2 }], 1000, 1);
    assert!(!high.reach_bottom());
}

/// Invaders stay inside the grid over many ticks, whatever the deltas.
#[test]
fn test_positions_stay_in_bounds_over_many_ticks() {
    let mut inv = Invaders::new();
    let deltas = [3u64, 250, 1999, 2000, 7, 4000, 333, 250, 250, 1];
    'ticks: for n in 0..400 {
        if inv.reach_bottom() {
            break 'ticks;
        }
        inv.update(deltas[n % deltas.len()]);
        for i in inv.army.iter() {
            assert!(i.x < NUM_COLS);
            assert!(i.y < NUM_ROWS);
        }
        assert!(inv.move_timer.duration_ms >= 250);
    }
}

#[test]
fn test_draw_glyph_early_and_late() {
    let inv = formation(vec![Invader { x: 5, y: 5 }], 2000, 1);
    let mut f = new_frame();
    inv.draw(&mut f);
    // a full period remains: the early glyph
    assert_eq!(f.get(5, 5), 'x');
    let late = Invaders {
        army: vec![Invader { x: 5, y: 5 }],
        move_timer: MoveTimer { duration_ms: 2000, elapsed_ms: 1500 },
        direction: 1,
    };
    let mut f2 = new_frame();
    late.draw(&mut f2);
    assert_eq!(f2.get(5, 5), '+');
    assert_eq!(f2.get(5, 6), ' ');
}
