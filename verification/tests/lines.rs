use termris::model::Model;

fn lines_model(w: u16, h: u16) -> Model {
    let mut m = Model::new(w, h);
    m.b.draw_box();
    m
}

fn lines_fill(m: &mut Model, r: u16, c: u8) {
    for x in 1..=m.b.w {
        m.b.draw_dot(x, r, 2, c);
    }
}

fn lines_row(m: &Model, r: u16) -> Vec<u8> {
    (1..=m.b.w).map(|x| m.b.get_dot(x, r)).collect()
}

#[test]
fn nothing_full_nothing_cleared() {
    let mut m = lines_model(10, 20);
    m.b.draw_dot(1, 1, 2, 3);
    m.b.draw_dot(10, 1, 2, 3);
    let before = m.b.fld.clone();
    assert_eq!(m.delete_line(), 0);
    assert_eq!(m.b.fld, before);
}

#[test]
fn full_row_takes_the_contents_of_the_row_above() {
    let mut m = lines_model(10, 20);
    lines_fill(&mut m, 1, 2);
    m.b.draw_dot(3, 2, 2, 5);
    m.b.draw_dot(7, 2, 2, 6);
    m.b.draw_dot(4, 3, 2, 7);
    let above = lines_row(&m, 2);
    let third = lines_row(&m, 3);
    assert_eq!(m.delete_line(), 1);
    assert_eq!(lines_row(&m, 1), above);
    assert_eq!(lines_row(&m, 2), third);
    assert_eq!(lines_row(&m, 3), vec![0; 10]);
    assert_eq!(m.b.get_dot(3, 1), 0x25);
    assert_eq!(m.b.get_dot(7, 1), 0x26);
    assert_eq!(m.b.get_dot(4, 2), 0x27);
}

#[test]
fn row_is_full_row_checks_playable_cells_only() {
    let mut m = Model::new(4, 4);
    lines_fill(&mut m, 2, 3);
    assert!(m.row_full(2));
    assert!(!m.row_full(1));
    m.b.draw_dot(4, 2, 0, 0);
    assert!(!m.row_full(2));
    m.b.fld[2][4] = 0x01;
    assert!(m.row_full(2));
}

#[test]
fn drop_row_shifts_everything_above_and_empties_the_top() {
    let mut m = lines_model(4, 2);
    for r in 1..7u16 {
        m.b.draw_dot(1, r, 2, r as u8);
    }
    m.drop_row(3);
    let col: Vec<u8> = (1..7u16).map(|r| m.b.get_dot(1, r)).collect();
    assert_eq!(col, vec![0x21, 0x22, 0x24, 0x25, 0x26, 0]);
    for r in 0..7u16 {
        assert_eq!(m.b.get_dot(0, r), 0x11);
        assert_eq!(m.b.get_dot(5, r), 0x11);
    }
    m.drop_row(6);
    m.drop_row(1);
    let col: Vec<u8> = (1..7u16).map(|r| m.b.get_dot(1, r)).collect();
    assert_eq!(col, vec![0x22, 0x24, 0x25, 0x26, 0, 0]);
}

#[test]
fn walls_and_bottom_stay_when_lines_clear() {
    let mut m = lines_model(10, 20);
    lines_fill(&mut m, 1, 2);
    lines_fill(&mut m, 2, 2);
    assert_eq!(m.delete_line(), 2);
    for r in 0..25u16 {
        assert_eq!(m.b.get_dot(0, r), 0x11);
        assert_eq!(m.b.get_dot(11, r), 0x11);
    }
    for c in 0..12u16 {
        assert_eq!(m.b.get_dot(c, 0), 0x11);
    }
    for r in 1..25u16 {
        assert_eq!(lines_row(&m, r), vec![0; 10]);
    }
}

#[test]
fn several_full_rows_clear_in_one_call() {
    let mut m = lines_model(6, 8);
    lines_fill(&mut m, 1, 2);
    m.b.draw_dot(1, 2, 2, 3);
    lines_fill(&mut m, 3, 4);
    lines_fill(&mut m, 4, 5);
    m.b.draw_dot(6, 5, 2, 6);
    assert_eq!(m.delete_line(), 3);
    assert_eq!(lines_row(&m, 1), vec![0x23, 0, 0, 0, 0, 0]);
    assert_eq!(lines_row(&m, 2), vec![0, 0, 0, 0, 0, 0x26]);
    for r in 3..13u16 {
        assert_eq!(lines_row(&m, r), vec![0; 6]);
    }
}

#[test]
fn a_full_row_in_the_headroom_stays_until_it_comes_down() {
    let mut m = lines_model(4, 3);
    lines_fill(&mut m, 4, 7);
    lines_fill(&mut m, 5, 8);
    assert_eq!(m.delete_line(), 0);
    assert_eq!(lines_row(&m, 4), vec![0x27; 4]);
    lines_fill(&mut m, 2, 3);
    m.b.draw_dot(1, 3, 2, 9);
    assert_eq!(m.delete_line(), 3);
    assert_eq!(lines_row(&m, 1), vec![0; 4]);
    assert_eq!(lines_row(&m, 2), vec![0x29, 0, 0, 0]);
    for r in 3..8u16 {
        assert_eq!(lines_row(&m, r), vec![0; 4]);
    }
}

#[test]
fn a_full_row_that_stays_in_the_headroom_is_kept() {
    let mut m = lines_model(4, 3);
    lines_fill(&mut m, 1, 3);
    m.b.draw_dot(1, 4, 2, 9);
    lines_fill(&mut m, 5, 8);
    assert_eq!(m.delete_line(), 1);
    assert_eq!(lines_row(&m, 3), vec![0x29, 0, 0, 0]);
    assert_eq!(lines_row(&m, 4), vec![0x28; 4]);
    assert_eq!(lines_row(&m, 5), vec![0; 4]);
}

#[test]
fn the_topmost_playable_row_is_cleared_too() {
    let mut m = lines_model(4, 6);
    lines_fill(&mut m, 6, 2);
    m.b.draw_dot(2, 7, 2, 5);
    assert_eq!(m.delete_line(), 1);
    assert_eq!(lines_row(&m, 6), vec![0, 0x25, 0, 0]);
    assert_eq!(lines_row(&m, 7), vec![0; 4]);
}

#[test]
fn a_field_full_to_the_top_clears_and_ends() {
    let mut m = lines_model(3, 2);
    for r in 1..7u16 {
        lines_fill(&mut m, r, 4);
    }
    assert_eq!(m.delete_line(), 6);
    for r in 1..7u16 {
        assert_eq!(lines_row(&m, r), vec![0; 3]);
    }
}

#[test]
fn a_cell_counts_as_filled_by_any_nonzero_byte() {
    let mut m = lines_model(3, 3);
    m.b.fld[1][1] = 0x01;
    m.b.fld[1][2] = 0x2f;
    m.b.fld[1][3] = 0x80;
    m.b.draw_dot(2, 2, 2, 2);
    assert_eq!(m.delete_line(), 1);
    assert_eq!(lines_row(&m, 1), vec![0, 0x22, 0]);
}

#[test]
fn a_field_without_rows_clears_nothing() {
    let mut m = lines_model(3, 0);
    lines_fill(&mut m, 1, 2);
    assert_eq!(m.delete_line(), 0);
    assert_eq!(lines_row(&m, 1), vec![0x22; 3]);
}

#[test]
fn over_raises_the_color_of_piece_cells_only() {
    let mut m = lines_model(4, 4);
    m.b.draw_dot(1, 1, 2, 3);
    m.b.draw_dot(2, 1, 2, 8);
    m.b.fld[2][2] = 0x30;
    m.b.fld[2][3] = 0x4a;
    m.b.fld[3][3] = 0x0a;
    m.over();
    assert_eq!(m.b.get_dot(1, 1), 0x2f);
    assert_eq!(m.b.get_dot(2, 1), 0x2f);
    assert_eq!(m.b.get_dot(2, 2), 0x3f);
    assert_eq!(m.b.get_dot(3, 2), 0x4a);
    assert_eq!(m.b.get_dot(3, 3), 0x0a);
    assert_eq!(m.b.get_dot(0, 0), 0x11);
    assert_eq!(m.b.get_dot(5, 8), 0x11);
    assert_eq!(m.b.get_dot(4, 4), 0);
    let once = m.b.fld.clone();
    m.over();
    assert_eq!(m.b.fld, once);
}
