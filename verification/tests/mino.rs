use termris::model::mino::{Mino, Pos};

fn mino_offsets(m: &Mino) -> Vec<(i16, i16)> {
    m.pos.iter().map(|p| (p.x, p.y)).collect()
}

#[test]
fn pos_new_keeps_its_parts() {
    let p = Pos::new(-3, 7);
    assert_eq!((p.x, p.y), (-3, 7));
    assert_eq!(p, Pos { x: -3, y: 7 });
}

#[test]
fn mino_new_reads_pairs_as_x_then_y() {
    let m = Mino::new(4, [[1, 2], [3, 4], [-5, -6]]);
    assert_eq!(m.rotate, 4);
    assert_eq!(mino_offsets(&m), vec![(1, 2), (3, 4), (-5, -6)]);
}

#[test]
fn catalog_holds_the_placeholder_and_seven_shapes() {
    let v = Mino::gen_minos();
    assert_eq!(v.len(), 8);
    let want: [(u8, [(i16, i16); 3]); 8] = [
        (1, [(0, 0), (0, 0), (0, 0)]),
        (2, [(0, -1), (0, 1), (0, 2)]),
        (4, [(0, -1), (0, 1), (1, 1)]),
        (4, [(0, -1), (0, 1), (-1, 1)]),
        (2, [(0, -1), (1, 0), (1, 1)]),
        (2, [(0, -1), (-1, 0), (-1, 1)]),
        (1, [(0, 1), (1, 0), (1, 1)]),
        (4, [(0, -1), (1, 0), (-1, 0)]),
    ];
    for (m, (period, offsets)) in v.iter().zip(want.iter()) {
        assert_eq!(m.rotate, *period);
        assert_eq!(mino_offsets(m), offsets.to_vec());
    }
}

#[test]
fn quarter_turn_takes_dx_dy_to_dy_minus_dx() {
    let v = Mino::gen_minos();
    let l = &v[2];
    assert_eq!(l.rotate_offset(2, 0), (1, 1));
    assert_eq!(l.rotate_offset(2, 1), (1, -1));
    assert_eq!(l.rotate_offset(2, 2), (-1, -1));
    assert_eq!(l.rotate_offset(2, 3), (-1, 1));
    assert_eq!(l.rotate_offset(2, 4), (1, 1));
    assert_eq!(l.rotate_offset(0, 1), (-1, 0));
    assert_eq!(l.rotate_offset(1, 1), (1, 0));
}

#[test]
fn straight_shape_has_two_orientations() {
    let v = Mino::gen_minos();
    let i = &v[1];
    assert_eq!(i.rotate_offset(2, 0), (0, 2));
    assert_eq!(i.rotate_offset(2, 1), (2, 0));
    assert_eq!(i.rotate_offset(2, 2), (0, 2));
    assert_eq!(i.rotate_offset(2, 3), (2, 0));
    assert_eq!(i.rotate_offset(0, 1), (-1, 0));
    assert_eq!(i.rotate_offset(0, 255), (-1, 0));
}

#[test]
fn square_never_turns() {
    let v = Mino::gen_minos();
    let q = &v[6];
    for count in 0..=255u8 {
        assert_eq!(q.rotate_offset(0, count), (0, 1));
        assert_eq!(q.rotate_offset(1, count), (1, 0));
        assert_eq!(q.rotate_offset(2, count), (1, 1));
    }
}

#[test]
fn turning_by_the_period_brings_every_offset_back() {
    let v = Mino::gen_minos();
    for m in v.iter() {
        for i in 0..3usize {
            for count in 0..=(255 - m.rotate) {
                assert_eq!(m.rotate_offset(i, count + m.rotate), m.rotate_offset(i, count));
            }
        }
    }
}

#[test]
fn rotation_counter_may_wrap() {
    let v = Mino::gen_minos();
    for m in v.iter() {
        for i in 0..3usize {
            assert_eq!(m.rotate_offset(i, 255u8.wrapping_add(1)), m.rotate_offset(i, 0));
            assert_eq!(m.rotate_offset(i, 255), m.rotate_offset(i, 255 % m.rotate));
        }
    }
}

#[test]
fn offsets_stay_within_two_cells() {
    let v = Mino::gen_minos();
    for m in v.iter() {
        for i in 0..3usize {
            for count in 0..8u8 {
                let (dx, dy) = m.rotate_offset(i, count);
                assert!((-1..=2).contains(&dx) && (-1..=2).contains(&dy));
            }
        }
    }
}

#[test]
fn a_shape_of_ones_own_turns_too() {
    let m = Mino::new(4, [[3, -7], [0, 0], [32767, -32767]]);
    assert_eq!(m.rotate_offset(0, 1), (-7, -3));
    assert_eq!(m.rotate_offset(0, 2), (-3, 7));
    assert_eq!(m.rotate_offset(0, 3), (7, 3));
    assert_eq!(m.rotate_offset(2, 2), (-32767, 32767));
}

#[test]
fn catalog_tables_agree_with_the_catalog() {
    let v = Mino::gen_minos();
    for (typ, m) in v.iter().enumerate() {
        assert_eq!(Mino::period_of(typ as u8), m.rotate);
        for i in 0..3usize {
            assert_eq!(Mino::offset_of(typ as u8, i), (m.pos[i].x, m.pos[i].y));
        }
        for other in 0..8u8 {
            assert_eq!(m.has_shape(other), other as usize == typ);
        }
    }
    assert_eq!(Mino::period_of(8), 4);
    assert_eq!(Mino::offset_of(8, 0), (0, 0));
    assert_eq!(Mino::offset_of(1, 2), (0, 2));
    assert_eq!(Mino::offset_of(7, 2), (-1, 0));
}

#[test]
fn a_shape_with_other_offsets_is_not_of_the_catalog() {
    let m = Mino::new(4, [[0, -1], [1, 0], [-1, 1]]);
    for typ in 0..8u8 {
        assert!(!m.has_shape(typ));
    }
    let mut t = Mino::new(4, [[0, -1], [1, 0], [-1, 0]]);
    assert!(t.has_shape(7));
    t.pos.push(Pos::new(0, 0));
    assert!(!t.has_shape(7));
}
