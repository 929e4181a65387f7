use snake_dqn::game::Game;
use snake_dqn::render::{draw_cell, fill_rect, render_frame, CELL_PX};

fn pixel(frame: &[u8], win_w: usize, x: usize, y: usize) -> [u8; 4] {
    let off: usize = (y * win_w + x) * 4;
    [frame[off], frame[off + 1], frame[off + 2], frame[off + 3]]
}

#[test]
fn fill_rect_paints_the_rectangle_and_nothing_else() {
    let mut frame: Vec<u8> = vec![0u8; 4 * 4 * 3];
    fill_rect(&mut frame, 4, 3, 1, 1, 2, 1, [9, 8, 7, 6]);
    let mut y: usize = 0;
    while y < 3 {
        let mut x: usize = 0;
        while x < 4 {
            let inside: bool = y == 1 && (x == 1 || x == 2);
            let want: [u8; 4] = if inside { [9, 8, 7, 6] } else { [0, 0, 0, 0] };
            assert_eq!(pixel(&frame, 4, x, y), want);
            x += 1;
        }
        y += 1;
    }
}

#[test]
fn fill_rect_is_cut_off_at_the_window() {
    let mut frame: Vec<u8> = vec![1u8; 4 * 4 * 3];
    fill_rect(&mut frame, 4, 3, 2, 1, 100, 100, [5, 5, 5, 5]);
    let mut y: usize = 0;
    while y < 3 {
        let mut x: usize = 0;
        while x < 4 {
            let inside: bool = y >= 1 && x >= 2;
            let want: [u8; 4] = if inside { [5, 5, 5, 5] } else { [1, 1, 1, 1] };
            assert_eq!(pixel(&frame, 4, x, y), want);
            x += 1;
        }
        y += 1;
    }
}

#[test]
fn fill_rect_outside_the_window_paints_nothing() {
    let mut frame: Vec<u8> = vec![1u8; 4 * 4 * 3];
    fill_rect(&mut frame, 4, 3, 4, 0, 1, 3, [5, 5, 5, 5]);
    fill_rect(&mut frame, 4, 3, 0, 3, 4, 1, [5, 5, 5, 5]);
    fill_rect(&mut frame, 4, 3, 1, 1, 0, 2, [5, 5, 5, 5]);
    fill_rect(&mut frame, 4, 3, 1, 1, 2, 0, [5, 5, 5, 5]);
    assert_eq!(frame, vec![1u8; 4 * 4 * 3]);
    let mut none: Vec<u8> = Vec::new();
    fill_rect(&mut none, 0, 0, 0, 0, 5, 5, [5, 5, 5, 5]);
    assert!(none.is_empty());
}

#[test]
fn fill_rect_leaves_bytes_behind_the_window() {
    let mut frame: Vec<u8> = vec![1u8; 4 * 2 * 2 + 3];
    fill_rect(&mut frame, 2, 2, 0, 0, 2, 2, [7, 7, 7, 7]);
    let mut want: Vec<u8> = vec![7u8; 16];
    want.extend_from_slice(&[1, 1, 1]);
    assert_eq!(frame, want);
}

#[test]
fn draw_cell_paints_one_cell() {
    let side: usize = CELL_PX as usize;
    let win: usize = 3 * side;
    let mut frame: Vec<u8> = vec![0u8; 4 * win * win];
    draw_cell(&mut frame, win as u32, win as u32, 1, 2, [1, 2, 3, 4]);
    assert_eq!(pixel(&frame, win, side, 2 * side), [1, 2, 3, 4]);
    assert_eq!(pixel(&frame, win, 2 * side - 1, 3 * side - 1), [1, 2, 3, 4]);
    assert_eq!(pixel(&frame, win, side - 1, 2 * side), [0, 0, 0, 0]);
    assert_eq!(pixel(&frame, win, side, 2 * side - 1), [0, 0, 0, 0]);
    assert_eq!(pixel(&frame, win, 2 * side, 2 * side), [0, 0, 0, 0]);
    let mut painted: usize = 0;
    let mut i: usize = 0;
    while i < win * win {
        if frame[4 * i] == 1 {
            painted += 1;
        }
        i += 1;
    }
    assert_eq!(painted, side * side);
}

#[test]
fn render_frame_draws_background_grid_food_and_snake() {
    let g = Game::new(5, 5);
    assert_eq!(g.food_pos(), (1, 0));
    assert_eq!(g.snake_segments(), vec![(1, 2), (2, 2), (3, 2)]);
    let side: usize = CELL_PX as usize;
    let win: usize = 5 * side;
    let mut frame: Vec<u8> = vec![0u8; 4 * win * win];
    render_frame(&mut frame, &g);
    let background: [u8; 4] = [18, 18, 22, 255];
    let grid: [u8; 4] = [30, 30, 36, 255];
    let food: [u8; 4] = [200, 60, 36, 255];
    let head: [u8; 4] = [80, 220, 120, 255];
    let body: [u8; 4] = [60, 180, 90, 255];
    // Grid lines on the first column and row of every cell.
    assert_eq!(pixel(&frame, win, 0, 0), grid);
    assert_eq!(pixel(&frame, win, 0, 5), grid);
    assert_eq!(pixel(&frame, win, 5, 0), grid);
    assert_eq!(pixel(&frame, win, 4 * side, 7), grid);
    assert_eq!(pixel(&frame, win, 7, 4 * side), grid);
    // Background inside an empty cell.
    assert_eq!(pixel(&frame, win, 1, 1), background);
    assert_eq!(pixel(&frame, win, win - 1, win - 1), background);
    // The food covers its whole cell, grid lines included.
    assert_eq!(pixel(&frame, win, side, 0), food);
    assert_eq!(pixel(&frame, win, side + 5, 5), food);
    assert_eq!(pixel(&frame, win, 2 * side - 1, side - 1), food);
    assert_eq!(pixel(&frame, win, 2 * side, 0), grid);
    // The snake: the head brighter than the rest.
    assert_eq!(pixel(&frame, win, 3 * side, 2 * side), head);
    assert_eq!(pixel(&frame, win, 4 * side - 1, 3 * side - 1), head);
    assert_eq!(pixel(&frame, win, 2 * side + 3, 2 * side + 3), body);
    assert_eq!(pixel(&frame, win, side, 2 * side), body);
    assert_eq!(pixel(&frame, win, 4 * side, 2 * side), grid);
    assert_eq!(pixel(&frame, win, side - 1, 2 * side + 1), background);
}

#[test]
fn render_frame_counts_of_each_colour() {
    let g = Game::new(5, 5);
    let side: usize = CELL_PX as usize;
    let win: usize = 5 * side;
    let mut frame: Vec<u8> = vec![7u8; 4 * win * win];
    render_frame(&mut frame, &g);
    let mut food: usize = 0;
    let mut head: usize = 0;
    let mut body: usize = 0;
    let mut grid: usize = 0;
    let mut back: usize = 0;
    let mut i: usize = 0;
    while i < win * win {
        let p: [u8; 4] = [frame[4 * i], frame[4 * i + 1], frame[4 * i + 2], frame[4 * i + 3]];
        if p == [200, 60, 36, 255] {
            food += 1;
        } else if p == [80, 220, 120, 255] {
            head += 1;
        } else if p == [60, 180, 90, 255] {
            body += 1;
        } else if p == [30, 30, 36, 255] {
            grid += 1;
        } else if p == [18, 18, 22, 255] {
            back += 1;
        }
        i += 1;
    }
    assert_eq!(food, side * side);
    assert_eq!(head, side * side);
    assert_eq!(body, 2 * side * side);
    // Every one of the 21 empty cells shows its two grid lines.
    assert_eq!(grid, 21 * (2 * side - 1));
    assert_eq!(back, 21 * (side - 1) * (side - 1));
    assert_eq!(food + head + body + grid + back, win * win);
}

#[test]
fn render_frame_cuts_off_a_head_beyond_the_right_edge() {
    let mut g = Game::new(24, 16);
    let mut i: u32 = 0;
    while i < 11 {
        g.step_ai(1);
        i += 1;
    }
    assert_eq!(g.snake_segments(), vec![(22, 8), (23, 8), (24, 8)]);
    let side: usize = CELL_PX as usize;
    let win_w: usize = 24 * side;
    let win_h: usize = 16 * side;
    let mut frame: Vec<u8> = vec![0u8; 4 * win_w * win_h];
    assert!(snake_dqn::render::can_draw(&g, frame.len()));
    render_frame(&mut frame, &g);
    let mut head: usize = 0;
    let mut body: usize = 0;
    let mut p: usize = 0;
    while p < win_w * win_h {
        if frame[4 * p] == 80 {
            head += 1;
        }
        if frame[4 * p] == 60 {
            body += 1;
        }
        p += 1;
    }
    assert_eq!(head, 0);
    assert_eq!(body, 2 * side * side);
}

#[test]
fn can_draw_refuses_a_short_frame_and_a_snake_left_of_the_board() {
    let g = Game::new(5, 5);
    let side: usize = CELL_PX as usize;
    let full: usize = 4 * (5 * side) * (5 * side);
    assert!(snake_dqn::render::can_draw(&g, full));
    assert!(snake_dqn::render::can_draw(&g, full + 1));
    assert!(!snake_dqn::render::can_draw(&g, full - 1));
    // On a board one cell wide the tail lies to the left of the board.
    let narrow = Game::new(1, 3);
    assert_eq!(narrow.snake_segments(), vec![(-1, 1), (0, 1), (1, 1)]);
    assert!(!snake_dqn::render::can_draw(&narrow, 4 * side * 3 * side));
}
