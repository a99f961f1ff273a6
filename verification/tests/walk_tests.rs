use mushy::direction::{turn, Direction};
use mushy::walk::{edge_step, GridPos, PetState, TerminalBounds};

fn bounds(right: u16, bottom: u16) -> TerminalBounds {
    TerminalBounds { term_cols: 80, term_rows: 24, left_col: 0, right_col: right, top_row: 0, bottom_row: bottom }
}

#[test]
fn turn_clockwise_cycle() {
    assert_eq!(turn(Direction::Right, true), Direction::Down);
    assert_eq!(turn(Direction::Down, true), Direction::Left);
    assert_eq!(turn(Direction::Left, true), Direction::Up);
    assert_eq!(turn(Direction::Up, true), Direction::Right);
}

#[test]
fn turn_counter_clockwise_cycle() {
    assert_eq!(turn(Direction::Right, false), Direction::Up);
    assert_eq!(turn(Direction::Up, false), Direction::Left);
    assert_eq!(turn(Direction::Left, false), Direction::Down);
    assert_eq!(turn(Direction::Down, false), Direction::Right);
}

#[test]
fn turns_cancel() {
    for d in [Direction::Right, Direction::Up, Direction::Left, Direction::Down] {
        assert_eq!(turn(turn(d, true), false), d);
        assert_eq!(turn(turn(turn(turn(d, false), false), false), false), d);
    }
}

#[test]
fn edge_of_right_clockwise_is_top() {
    let b = bounds(10, 5);
    let e = edge_step(Direction::Right, true, &b);
    assert!(e.moves_column);
    assert_eq!(e.pinned, 0);
    assert_eq!(e.end, 10);
    assert!(e.forward);
    assert_eq!(e.next_dir, Direction::Down);
}

#[test]
fn edge_of_up_counter_clockwise_is_right_side() {
    let b = bounds(10, 5);
    let e = edge_step(Direction::Up, false, &b);
    assert!(!e.moves_column);
    assert_eq!(e.pinned, 10);
    assert_eq!(e.end, 0);
    assert!(!e.forward);
    assert_eq!(e.next_dir, Direction::Left);
}

#[test]
fn advance_moves_then_turns() {
    let b = bounds(2, 1);
    let mut p = GridPos { col: 0, row: 0, dir: Direction::Right };
    p.advance_cell(&b, true);
    assert_eq!((p.col, p.row, p.dir), (1, 0, Direction::Right));
    p.advance_cell(&b, true);
    assert_eq!((p.col, p.row, p.dir), (2, 0, Direction::Right));
    p.advance_cell(&b, true);
    assert_eq!((p.col, p.row, p.dir), (2, 0, Direction::Down));
    p.advance_cell(&b, true);
    assert_eq!((p.col, p.row, p.dir), (2, 1, Direction::Down));
}

#[test]
fn advance_pins_row_to_edge() {
    let b = bounds(10, 5);
    let mut p = GridPos { col: 3, row: 4, dir: Direction::Right };
    p.advance_cell(&b, false);
    assert_eq!((p.col, p.row, p.dir), (4, 5, Direction::Right));
}

#[test]
fn advance_past_end_is_pulled_back() {
    // The terminal shrank: the pet is beyond the right edge.
    let b = bounds(10, 5);
    let mut p = GridPos { col: 30, row: 5, dir: Direction::Right };
    p.advance_cell(&b, false);
    assert_eq!((p.col, p.row, p.dir), (10, 5, Direction::Up));
}

#[test]
fn walk_is_a_loop_on_a_small_box() {
    let b = bounds(3, 2);
    for cw in [true, false] {
        let start_row = if cw { 0 } else { 2 };
        let mut p = GridPos { col: 0, row: start_row, dir: Direction::Right };
        let lap = 2 * 3 + 2 * 2 + 4;
        for i in 0..lap {
            p.advance_cell(&b, cw);
            let on_border = p.col == 0 || p.col == 3 || p.row == 0 || p.row == 2;
            assert!(on_border, "step {}", i);
            assert!(p.col <= 3 && p.row <= 2);
        }
        assert_eq!((p.col, p.row, p.dir), (0, start_row, Direction::Right));
    }
}

#[test]
fn fast_forward_takes_seed_modulo_perimeter_steps() {
    let b = bounds(3, 2);
    // perimeter = 3 * 2 + 2 * 2 = 10; 23 % 10 = 3 steps from (0, 0) clockwise.
    let mut s = PetState::new(7, 0, 4);
    let cell = s.fast_forward(&b, true, 23);
    assert_eq!(cell, (3, 0));
    assert_eq!(s.dir, Direction::Right);
    let mut s = PetState::new(7, 0, 4);
    let cell = s.fast_forward(&b, true, 4);
    assert_eq!(cell, (3, 0));
    assert_eq!(s.dir, Direction::Down);
}

#[test]
fn fast_forward_on_empty_box_stays() {
    let b = bounds(0, 0);
    let mut s = PetState::new(7, 0, 1);
    let cell = s.fast_forward(&b, false, 12345);
    assert_eq!(cell, (0, 0));
    assert_eq!(s.dir, Direction::Right);
}

#[test]
fn pet_state_new_spreads_frame_and_layer() {
    let s = PetState::new(1000, 2345, 4);
    assert_eq!(s.dir, Direction::Right);
    assert_eq!(s.frame_idx, 1);
    assert_eq!(s.pid, 1000);
    assert_eq!(s.current_id, 2000);
    assert_eq!(s.z_index, 1100);
}

#[test]
fn layers_differ_between_processes() {
    let a = PetState::new(1, 7, 4);
    let b = PetState::new(2, 7, 4);
    assert_ne!(a.z_index, b.z_index);
    assert_eq!(a.frame_idx, b.frame_idx);
}

#[test]
fn frame_index_and_ids_over_many_frames() {
    let n = 5usize;
    let seed = 13u32;
    let mut s = PetState::new(9, seed, n);
    for k in 0..23usize {
        assert_eq!(s.frame_idx, (seed as usize % n + k) % n);
        let transmitted = s.next_id();
        assert_eq!(transmitted, if k % 2 == 0 { 19 } else { 18 });
        assert_eq!(s.current_id, if k % 2 == 0 { 18 } else { 19 });
        s.finish_frame(n);
    }
    assert_eq!(s.z_index, 109);
    assert_eq!(s.dir, Direction::Right);
}

#[test]
fn image_ids_alternate_and_frames_wrap() {
    let mut s = PetState::new(5, 2, 3);
    assert_eq!(s.next_id(), 11);
    s.finish_frame(3);
    assert_eq!(s.current_id, 11);
    assert_eq!(s.frame_idx, 0);
    assert_eq!(s.next_id(), 10);
    s.finish_frame(3);
    assert_eq!(s.current_id, 10);
    assert_eq!(s.frame_idx, 1);
}

#[test]
fn bounds_initial_and_resize() {
    let mut b = TerminalBounds::initial(0, 0);
    assert_eq!((b.term_cols, b.term_rows, b.right_col, b.bottom_row), (80, 24, 80, 24));
    b.set_size(120, 40, 5, 3);
    assert_eq!((b.term_cols, b.term_rows, b.right_col, b.bottom_row), (120, 40, 115, 37));
    b.set_size(4, 2, 5, 3);
    assert_eq!((b.right_col, b.bottom_row), (0, 0));
    assert!(b.perimeter_fits());
    let big = TerminalBounds { term_cols: 65535, term_rows: 65535, left_col: 0, right_col: 40000, top_row: 0, bottom_row: 10 };
    assert!(!big.perimeter_fits());
}
