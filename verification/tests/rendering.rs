use torus_life::render::{EMPTY, FILLED, LINE_BREAK};
use torus_life::{Cell, Matrix};

fn filled(rows: usize, cols: usize) -> Matrix {
    let mut m = Matrix::new(rows, cols);
    for r in 0..rows {
        for c in 0..cols {
            m.set(r, c, Cell::Alive);
        }
    }
    m
}

#[test]
fn the_glyphs_are_the_two_block_characters() {
    assert_eq!(FILLED, '▓');
    assert_eq!(EMPTY, '░');
    assert_eq!(LINE_BREAK, '\n');
}

#[test]
fn a_dead_grid_renders_as_lines_of_empty_glyphs() {
    let m = Matrix::new(3, 4);
    assert_eq!(m.render(), "░░░░░░░░\n░░░░░░░░\n░░░░░░░░");
    let lines: Vec<String> = m.render().split('\n').map(String::from).collect();
    assert_eq!(lines.len(), 3);
    for line in lines {
        assert_eq!(line, "░░".repeat(4));
    }
}

#[test]
fn a_live_grid_renders_as_lines_of_filled_glyphs() {
    let m = filled(2, 5);
    assert_eq!(m.render(), "▓▓▓▓▓▓▓▓▓▓\n▓▓▓▓▓▓▓▓▓▓");
    let lines: Vec<String> = m.render().split('\n').map(String::from).collect();
    assert_eq!(lines.len(), 2);
    for line in lines {
        assert_eq!(line, "▓▓".repeat(5));
    }
}

#[test]
fn a_mixed_grid_renders_cell_by_cell() {
    let mut m = Matrix::new(3, 3);
    m.set(0, 0, Cell::Alive);
    m.set(1, 1, Cell::Alive);
    m.set(1, 2, Cell::Alive);
    m.set(2, 0, Cell::Alive);
    assert_eq!(m.render(), "▓▓░░░░\n░░▓▓▓▓\n▓▓░░░░");
}

#[test]
fn the_text_has_no_line_break_at_its_end() {
    let m = Matrix::new(2, 2);
    let text = m.render();
    assert!(!text.ends_with('\n'));
    assert_eq!(text.matches('\n').count(), 1);
    let one = Matrix::new(1, 3);
    assert_eq!(one.render(), "░░░░░░");
    assert_eq!(one.render().matches('\n').count(), 0);
}

#[test]
fn the_text_has_two_characters_for_each_cell() {
    for (rows, cols) in [(1usize, 1usize), (1, 7), (4, 1), (5, 6), (23, 40)] {
        let m = Matrix::new(rows, cols);
        let text = m.render();
        assert_eq!(text.chars().count(), rows * (2 * cols + 1) - 1);
        assert_eq!(text.chars().filter(|ch| *ch == '░').count(), 2 * rows * cols);
    }
}

#[test]
fn a_single_cell_renders_as_one_glyph() {
    let mut m = Matrix::new(1, 1);
    assert_eq!(m.render(), "░░");
    m.set(0, 0, Cell::Alive);
    assert_eq!(m.render(), "▓▓");
}

#[test]
fn rendering_changes_nothing() {
    let mut m = Matrix::new(2, 3);
    m.set(1, 0, Cell::Alive);
    let first = m.render();
    let second = m.render();
    assert_eq!(first, second);
    assert_eq!(first, "░░░░░░\n▓▓░░░░");
    assert_eq!(m.get(1, 0), Cell::Alive);
    assert_eq!(m.get(0, 0), Cell::Dead);
}

#[test]
fn the_next_generation_renders_from_the_new_cells() {
    let mut m = Matrix::new(5, 5);
    m.set(1, 1, Cell::Alive);
    m.set(1, 2, Cell::Alive);
    m.set(1, 3, Cell::Alive);
    assert_eq!(
        m.pulse().render(),
        "░░░░▓▓░░░░\n░░▓▓▓▓▓▓░░\n░░░░▓▓░░░░\n░░░░░░░░░░\n░░░░░░░░░░"
    );
}

#[test]
fn the_first_frame_clears_the_screen() {
    let mut m = Matrix::new(2, 2);
    m.set(0, 1, Cell::Alive);
    assert_eq!(m.frame(true), "\x1B[2J░░▓▓\n░░░░");
    assert_eq!(m.frame(true), format!("\x1B[2J{}", m.render()));
}

#[test]
fn a_later_frame_moves_the_cursor_home() {
    let mut m = Matrix::new(2, 2);
    m.set(1, 0, Cell::Alive);
    assert_eq!(m.frame(false), "\x1B[H░░░░\n▓▓░░");
    assert_eq!(m.frame(false), format!("\x1B[H{}", m.render()));
}

#[test]
fn a_tick_is_one_second() {
    assert_eq!(torus_life::screen::TICK_SECONDS, 1);
}
