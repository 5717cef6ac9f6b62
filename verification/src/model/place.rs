//! Placement: the cells of a piece, whether it fits, and what writing or
//! erasing it does to the grid.

use vstd::prelude::*;

use crate::model::board::{
    EMPTY, WALL, boxed, color, fenced, inside, kind, on_border, pack, rect, same_shape, with_cell,
};
use crate::model::mino::{lemma_turn_cases, offset, period, rotate_offset};
use crate::stat::Stat;

verus! {

/// The `i`-th cell of the piece `s`: the pivot for `i == 0`, then the three
/// turned offsets added to it.
pub open spec fn cell_of(s: Stat, i: int) -> (int, int) {
    if i == 0 {
        (s.x as int, s.y as int)
    } else {
        let d = rotate_offset(s.typ as int, i - 1, s.rotate as int);
        (s.x + d.0, s.y + d.1)
    }
}

/// The cell that a piece of shape `typ` leaves on the grid: a piece cell
/// with the shape index plus one as its color.
pub open spec fn mark(typ: u8) -> u8 {
    pack(2, (typ + 1) as u8)
}

/// The cell `p` lies on the grid `g` and is empty.
pub open spec fn free(g: Seq<Seq<u8>>, p: (int, int)) -> bool {
    inside(g, p.0, p.1) && kind(g[p.1][p.0]) == 0
}

/// All four cells of the piece `s` lie on the grid `g`.
pub open spec fn on_grid(g: Seq<Seq<u8>>, s: Stat) -> bool {
    &&& inside(g, cell_of(s, 0).0, cell_of(s, 0).1)
    &&& inside(g, cell_of(s, 1).0, cell_of(s, 1).1)
    &&& inside(g, cell_of(s, 2).0, cell_of(s, 2).1)
    &&& inside(g, cell_of(s, 3).0, cell_of(s, 3).1)
}

/// The piece `s` can be placed on `g`: none of its four cells is off the
/// grid or occupied.
pub open spec fn fits(g: Seq<Seq<u8>>, s: Stat) -> bool {
    &&& free(g, cell_of(s, 0))
    &&& free(g, cell_of(s, 1))
    &&& free(g, cell_of(s, 2))
    &&& free(g, cell_of(s, 3))
}

/// The cell `p` lies on the grid `g` and holds `v`.
pub open spec fn holds(g: Seq<Seq<u8>>, p: (int, int), v: u8) -> bool {
    inside(g, p.0, p.1) && g[p.1][p.0] == v
}

/// The piece `s` stands on `g`: each of its four cells holds its mark.
pub open spec fn placed(g: Seq<Seq<u8>>, s: Stat) -> bool {
    &&& holds(g, cell_of(s, 0), mark(s.typ))
    &&& holds(g, cell_of(s, 1), mark(s.typ))
    &&& holds(g, cell_of(s, 2), mark(s.typ))
    &&& holds(g, cell_of(s, 3), mark(s.typ))
}

/// `(x, y)` is one of the first `n` cells of the piece `s`.
pub open spec fn covers_upto(s: Stat, n: nat, x: int, y: int) -> bool {
    ||| n > 0 && cell_of(s, 0) == (x, y)
    ||| n > 1 && cell_of(s, 1) == (x, y)
    ||| n > 2 && cell_of(s, 2) == (x, y)
    ||| n > 3 && cell_of(s, 3) == (x, y)
}

/// `(x, y)` is one of the four cells of the piece `s`.
pub open spec fn covers(s: Stat, x: int, y: int) -> bool {
    covers_upto(s, 4, x, y)
}

/// The grid `g` with the first `n` cells of the piece `s` overwritten by `v`.
pub open spec fn stamp_upto(g: Seq<Seq<u8>>, s: Stat, v: u8, n: nat) -> Seq<Seq<u8>>
    decreases n,
{
    if n == 0 {
        g
    } else {
        let p = cell_of(s, n - 1);
        with_cell(stamp_upto(g, s, v, (n - 1) as nat), p.0, p.1, v)
    }
}

/// The grid `g` with all four cells of the piece `s` overwritten by `v`.
pub open spec fn stamp(g: Seq<Seq<u8>>, s: Stat, v: u8) -> Seq<Seq<u8>> {
    stamp_upto(g, s, v, 4)
}

/// What a placement call does to the grid `g`, and what it answers: action 2
/// erases the four cells; any other action writes the piece if it fits and
/// leaves the grid alone if it does not.
pub open spec fn put(g: Seq<Seq<u8>>, s: Stat, action: u16) -> (Seq<Seq<u8>>, u16) {
    if action == 2 {
        (stamp(g, s, EMPTY), 1)
    } else if fits(g, s) {
        (stamp(g, s, mark(s.typ)), 1)
    } else {
        (g, 0)
    }
}

/// Stamping cells that lie on the grid keeps its shape, sets those cells and
/// no others.
pub proof fn lemma_stamp_upto(g: Seq<Seq<u8>>, s: Stat, v: u8, n: nat)
    requires
        n <= 4,
        on_grid(g, s),
    ensures
        same_shape(g, stamp_upto(g, s, v, n)),
        forall|x: int, y: int|
            inside(g, x, y) ==> #[trigger] stamp_upto(g, s, v, n)[y][x] == (if covers_upto(s, n, x, y) {
                v
            } else {
                g[y][x]
            }),
    decreases n,
{
    if n > 0 {
        lemma_stamp_upto(g, s, v, (n - 1) as nat);
    }
}

/// Stamping a piece that lies on the grid keeps the shape of the grid,
/// sets the four cells of the piece and no others.
pub proof fn lemma_stamp(g: Seq<Seq<u8>>, s: Stat, v: u8)
    requires
        on_grid(g, s),
    ensures
        same_shape(g, stamp(g, s, v)),
        on_grid(stamp(g, s, v), s),
        forall|x: int, y: int|
            inside(g, x, y) ==> #[trigger] stamp(g, s, v)[y][x] == (if covers(s, x, y) {
                v
            } else {
                g[y][x]
            }),
{
    lemma_stamp_upto(g, s, v, 4);
}

/// What the mark of a shape, the wall and the empty cell hold.
pub proof fn lemma_mark(typ: u8)
    requires
        typ < 8,
    ensures
        kind(mark(typ)) == 2,
        color(mark(typ)) == typ + 1,
        mark(typ) != WALL,
        mark(typ) != EMPTY,
        kind(EMPTY) == 0,
        kind(WALL) == 1,
{
    let c: u8 = (typ + 1) as u8;
    assert(c < 16 ==> ((2u8 << 4) | c) >> 4 == 2) by (bit_vector);
    assert(c < 16 ==> ((2u8 << 4) | c) & 0x0f == c) by (bit_vector);
    assert(((2u8 << 4) | c) != 0x11) by (bit_vector);
    assert(((2u8 << 4) | c) != 0x00) by (bit_vector);
    assert(0x00u8 >> 4 == 0) by (bit_vector);
    assert(0x11u8 >> 4 == 1) by (bit_vector);
}

/// The four cells of one of the seven shapes are four different cells.
pub proof fn lemma_cells_distinct(s: Stat)
    requires
        1 <= s.typ < 8,
    ensures
        forall|i: int, j: int| 0 <= i < j < 4 ==> cell_of(s, i) != cell_of(s, j),
{
    let typ = s.typ as int;
    let n = s.rotate as int % period(typ);
    assert(0 <= n < period(typ));
    lemma_turn_cases(offset(typ, 0));
    lemma_turn_cases(offset(typ, 1));
    lemma_turn_cases(offset(typ, 2));
}

/// Erasing a piece that stands on the grid and placing it again at the same
/// transform gives the grid back, cell for cell.
pub proof fn lemma_erase_restore(g: Seq<Seq<u8>>, s: Stat, action: u16)
    requires
        s.typ < 8,
        placed(g, s),
        action != 2,
    ensures
        fits(put(g, s, 2).0, s),
        put(put(g, s, 2).0, s, action) == (g, 1u16),
{
    let lifted = stamp(g, s, EMPTY);
    lemma_mark(s.typ);
    lemma_stamp(g, s, EMPTY);
    lemma_stamp(lifted, s, mark(s.typ));
    assert(fits(lifted, s));
    assert(stamp(lifted, s, mark(s.typ)) =~~= g);
}

/// A placement call writes all four cells of the piece or none: either the
/// grid is as it was and the answer is 0, or the answer is 1, the four
/// cells of the piece are four different cells that now hold the value
/// written, and every other cell is as it was.
pub proof fn lemma_all_or_nothing(g: Seq<Seq<u8>>, s: Stat, action: u16)
    requires
        1 <= s.typ < 8,
        action == 2 ==> on_grid(g, s),
    ensures
        ({
            let after = put(g, s, action).0;
            let v = if action == 2 { EMPTY } else { mark(s.typ) };
            ||| put(g, s, action).1 == 0 && after == g
            ||| {
                &&& put(g, s, action).1 == 1
                &&& same_shape(g, after)
                &&& forall|i: int, j: int| 0 <= i < j < 4 ==> cell_of(s, i) != cell_of(s, j)
                &&& forall|i: int| 0 <= i < 4 ==> holds(after, #[trigger] cell_of(s, i), v)
                &&& forall|x: int, y: int|
                    inside(g, x, y) && !covers(s, x, y) ==> #[trigger] after[y][x] == g[y][x]
            }
        }),
{
    lemma_cells_distinct(s);
    if action == 2 || fits(g, s) {
        let v = if action == 2 { EMPTY } else { mark(s.typ) };
        lemma_stamp(g, s, v);
    }
}

/// A piece that stands on a walled grid has its pivot inside the border.
pub proof fn lemma_pivot_inside(g: Seq<Seq<u8>>, s: Stat, mw: int, mh: int)
    requires
        rect(g, mw, mh),
        boxed(g),
        s.typ < 8,
        placed(g, s),
    ensures
        1 <= s.x < mw - 1,
        1 <= s.y < mh,
{
    lemma_mark(s.typ);
    let x = s.x as int;
    let y = s.y as int;
    assert(cell_of(s, 0) == (x, y));
    assert(inside(g, x, y));
    assert(g[y][x] == mark(s.typ));
    if on_border(g, x, y) {
        assert(g[y][x] == WALL);
    }
}

/// Erasing a piece that stands on a fenced grid leaves the fence standing.
pub proof fn lemma_erase_keeps_fence(g: Seq<Seq<u8>>, s: Stat)
    requires
        fenced(g),
        s.typ < 8,
        placed(g, s),
    ensures
        fenced(stamp(g, s, EMPTY)),
        same_shape(g, stamp(g, s, EMPTY)),
{
    lemma_mark(s.typ);
    lemma_stamp(g, s, EMPTY);
    let g2 = stamp(g, s, EMPTY);
    assert forall|x: int, y: int| inside(g2, x, y) && on_border(g2, x, y) implies #[trigger] g2[y][x]
        == WALL by {
        assert(inside(g, x, y));
        assert(g[y][x] == WALL);
    }
    assert forall|x: int, y: int| inside(g2, x, y) && !on_border(g2, x, y) implies kind(
        #[trigger] g2[y][x],
    ) != 1 by {
        assert(inside(g, x, y));
        assert(kind(g[y][x]) != 1);
    }
}

/// A piece whose pivot would come to lie on the border does not fit, so the
/// live piece that was asked to go there stays where it is.
pub proof fn lemma_border_blocks(g: Seq<Seq<u8>>, s: Stat, n: Stat)
    requires
        fenced(g),
        s.typ < 8,
        placed(g, s),
        inside(g, n.x as int, n.y as int),
        on_border(g, n.x as int, n.y as int),
    ensures
        !fits(stamp(g, s, EMPTY), n),
{
    lemma_erase_keeps_fence(g, s);
    let lifted = stamp(g, s, EMPTY);
    assert(kind(WALL) != 0) by (bit_vector);
    assert(cell_of(n, 0) == (n.x as int, n.y as int));
    assert(lifted[n.y as int][n.x as int] == WALL);
}

/// A piece that was placed stands on the grid.
pub proof fn lemma_put_places(g: Seq<Seq<u8>>, s: Stat, action: u16)
    requires
        fits(g, s),
        action != 2,
    ensures
        placed(put(g, s, action).0, s),
{
    lemma_stamp(g, s, mark(s.typ));
}

/// A placement that tests before it writes leaves the fence standing.
pub proof fn lemma_put_keeps_fence(g: Seq<Seq<u8>>, s: Stat, action: u16)
    requires
        fenced(g),
        action != 2,
    ensures
        fenced(put(g, s, action).0),
        same_shape(g, put(g, s, action).0),
{
    if fits(g, s) {
        let v = mark(s.typ);
        let g2 = stamp(g, s, v);
        lemma_stamp(g, s, v);
        assert(kind(WALL) != 0) by (bit_vector);
        assert(kind(v) != 1) by {
            let c: u8 = (s.typ + 1) as u8;
            assert(((2u8 << 4) | c) >> 4 != 1) by (bit_vector);
        }
        assert forall|x: int, y: int| inside(g2, x, y) && on_border(g2, x, y) implies #[trigger] g2[y][x]
            == WALL by {
            assert(inside(g, x, y));
            assert(g[y][x] == WALL);
        }
        assert forall|x: int, y: int| inside(g2, x, y) && !on_border(g2, x, y) implies kind(
            #[trigger] g2[y][x],
        ) != 1 by {
            assert(inside(g, x, y));
            assert(kind(g[y][x]) != 1);
        }
    }
}

} // verus!
