//! The steps of a session, as functions from grid and live piece to grid
//! and live piece.

use vstd::prelude::*;

use crate::model::board::{
    EMPTY, WALL, cleared, fenced, inside, kind, on_border, rect, same_shape, walled,
};
use crate::model::lines::settled;
use crate::model::mino::lemma_reach;
use crate::model::place::{cell_of, fits, free, mark, stamp};
use crate::stat::Stat;

verus! {

/// The transform of a piece that enters a field of `w` by `h` playable
/// cells: the middle column, the first row of the headroom.
pub open spec fn spawn_stat(w: u16, h: u16, rotate: u8, typ: u8) -> Stat {
    Stat { x: w / 2, y: (h + 1) as u16, rotate, typ }
}

/// The piece `s` one row lower.
pub open spec fn lowered(s: Stat) -> Stat {
    Stat { y: (s.y - 1) as u16, ..s }
}

/// Where key `k` asks the piece `s` to go: 1 one column to the left, 2 one
/// column to the right, 3 one quarter turn on; any other key nowhere.
pub open spec fn key_target(s: Stat, k: u8) -> Stat {
    if k == 1 {
        Stat { x: (s.x - 1) as u16, ..s }
    } else if k == 2 {
        Stat { x: (s.x + 1) as u16, ..s }
    } else if k == 3 {
        Stat { rotate: ((s.rotate + 1) % 256) as u8, ..s }
    } else {
        s
    }
}

/// The grid and the live piece after the piece `s` was asked to become `n`:
/// with `s` lifted off the grid, `n` is placed if it fits; if it does not,
/// grid and piece are as they were.
pub open spec fn shift(g: Seq<Seq<u8>>, s: Stat, n: Stat) -> (Seq<Seq<u8>>, Stat) {
    let lifted = stamp(g, s, EMPTY);
    if fits(lifted, n) {
        (stamp(lifted, n, mark(n.typ)), n)
    } else {
        (g, s)
    }
}

/// A piece cell with its color raised to 15, the mark of a lost game; any
/// other cell as it is.
pub open spec fn glow(cell: u8) -> u8 {
    if cell & 0x20 != 0 {
        cell | 0x0f
    } else {
        cell
    }
}

/// The grid `g` with every piece cell highlighted.
pub open spec fn highlighted(g: Seq<Seq<u8>>) -> Seq<Seq<u8>> {
    Seq::new(g.len(), |y: int| Seq::new(g[y].len(), |x: int| glow(g[y][x])))
}

/// The grid after the piece `next` tried to enter it, and the answer: 2 and
/// the piece placed if it fits, 1 and every piece cell highlighted if the
/// entry is blocked.
pub open spec fn enter(g: Seq<Seq<u8>>, next: Stat) -> (Seq<Seq<u8>>, u16) {
    if fits(g, next) {
        (stamp(g, next, mark(next.typ)), 2)
    } else {
        (highlighted(g), 1)
    }
}

/// A gravity tick on the grid `g` with the live piece `s`, on a field `h`
/// rows high, when `next` is the piece that enters should `s` lock. If `s`
/// fits one row lower it falls, and the answer is 0. If not, it stays where
/// it is for good, lines are cleared and `next` tries to enter.
pub open spec fn tick(g: Seq<Seq<u8>>, s: Stat, next: Stat, h: int) -> (Seq<Seq<u8>>, Stat, u16) {
    if fits(stamp(g, s, EMPTY), lowered(s)) {
        (shift(g, s, lowered(s)).0, lowered(s), 0)
    } else {
        (enter(settled(g, h), next).0, next, enter(settled(g, h), next).1)
    }
}

/// On a freshly walled, empty field at least four cells wide and one row
/// high, every shape fits at the entry, however it is turned.
pub proof fn lemma_spawn_fits(g: Seq<Seq<u8>>, w: u16, h: u16, rotate: u8, typ: u8)
    requires
        rect(g, w + 2, h + 5),
        4 <= w,
        1 <= h,
        h + 5 <= u16::MAX,
        typ < 8,
    ensures
        fits(walled(cleared(g)), spawn_stat(w, h, rotate, typ)),
{
    let s = spawn_stat(w, h, rotate, typ);
    let f = walled(cleared(g));
    lemma_reach(typ as int, 0, rotate as int);
    lemma_reach(typ as int, 1, rotate as int);
    lemma_reach(typ as int, 2, rotate as int);
    assert(s.x == w / 2 && s.y == h + 1);
    assert(kind(EMPTY) == 0) by (bit_vector);
    assert forall|i: int| 0 <= i < 4 implies free(f, #[trigger] cell_of(s, i)) by {
        let p = cell_of(s, i);
        assert(1 <= p.0 <= w && h <= p.1 <= h + 3);
        assert(f[p.1][p.0] == EMPTY);
    }
}

/// The highlight of a lost game leaves the fence standing.
pub proof fn lemma_highlight_keeps_fence(g: Seq<Seq<u8>>)
    requires
        fenced(g),
    ensures
        fenced(highlighted(g)),
        same_shape(g, highlighted(g)),
{
    let b = highlighted(g);
    assert(glow(WALL) == WALL) by {
        assert(0x11u8 & 0x20 == 0) by (bit_vector);
    }
    assert forall|c: u8| kind(#[trigger] glow(c)) == kind(c) by {
        assert((c | 0x0f) >> 4 == c >> 4) by (bit_vector);
    }
    assert forall|x: int, y: int| inside(b, x, y) && on_border(b, x, y) implies #[trigger] b[y][x]
        == WALL by {
        assert(g[y][x] == WALL);
    }
    assert forall|x: int, y: int| inside(b, x, y) && !on_border(b, x, y) implies kind(
        #[trigger] b[y][x],
    ) != 1 by {
        assert(kind(g[y][x]) != 1);
        assert(b[y][x] == glow(g[y][x]));
    }
}

} // verus!
