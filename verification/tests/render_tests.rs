use invaders::frame::new_frame;
use invaders::render::render_ops;
use invaders::render::PaintOp;
use invaders::NUM_COLS;
use invaders::NUM_ROWS;

/// A forced pass writes every cell of the grid, once each.
#[test]
fn test_force_writes_every_cell() {
    let blank = new_frame();
    let mut cur = new_frame();
    cur.set(3, 4, 'A');
    let ops = render_ops(&blank, &cur, true);
    assert_eq!(ops.len(), NUM_COLS * NUM_ROWS);
    let mut seen = vec![false; NUM_COLS * NUM_ROWS];
    for op in ops.iter() {
        assert!(op.x < NUM_COLS && op.y < NUM_ROWS);
        assert_eq!(op.glyph, cur.get(op.x, op.y));
        assert!(!seen[op.x * NUM_ROWS + op.y]);
        seen[op.x * NUM_ROWS + op.y] = true;
    }
    assert!(seen.iter().all(|s| *s));
}

/// An unforced pass over two identical frames writes nothing.
#[test]
fn test_identical_frames_write_nothing() {
    let mut last = new_frame();
    let mut cur = new_frame();
    last.set(3, 4, 'x');
    cur.set(3, 4, 'x');
    let ops = render_ops(&last, &cur, false);
    assert!(ops.is_empty());
}

/// A single differing cell produces exactly one write: that cell, with the
/// current frame's glyph.
#[test]
fn test_single_difference_single_write() {
    let last = new_frame();
    let mut cur = new_frame();
    cur.set(12, 7, '+');
    let ops = render_ops(&last, &cur, false);
    assert_eq!(ops.len(), 1);
    assert_eq!(ops[0], PaintOp { x: 12, y: 7, glyph: '+' });
}

/// Writes come in column-major scan order, and a cell blanked out is
/// rewritten with the empty glyph.
#[test]
fn test_diff_scan_order_and_blanking() {
    let mut last = new_frame();
    let mut cur = new_frame();
    last.set(5, 9, '|');
    cur.set(2, 3, 'A');
    cur.set(5, 11, 'x');
    let ops = render_ops(&last, &cur, false);
    assert_eq!(
        ops,
        vec![
            PaintOp { x: 2, y: 3, glyph: 'A' },
            PaintOp { x: 5, y: 9, glyph: ' ' },
            PaintOp { x: 5, y: 11, glyph: 'x' },
        ]
    );
}
