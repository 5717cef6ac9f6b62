//! The game: the grid, the shape catalog and the steps that move one live
//! piece at a time.

use vstd::prelude::*;

pub mod board;
pub mod lines;
pub mod mino;
pub mod place;
pub mod step;

use rand::Rng;

use crate::model::board::{
    Board, EMPTY, cleared, empty_grid, fenced, inside, lemma_fresh_is_fenced, pack, same_shape, walled,
};
use crate::model::lines::{
    blank, cleared_lines, full, inner, interior, lemma_settle_done, lemma_settle_push,
    lemma_settled_keeps_fence, lemma_with_interior, lemma_without_row, rows_of_width, same_frame,
    settle, settled, without_row,
};
use crate::model::mino::{Mino, lemma_shape_wf, offset};
use crate::model::place::{
    cell_of, fits, free, holds, lemma_erase_keeps_fence, lemma_erase_restore, lemma_pivot_inside,
    lemma_put_keeps_fence, lemma_put_places, lemma_stamp_upto, mark, on_grid, placed, put, stamp,
    stamp_upto,
};
use crate::model::step::{
    enter, glow, highlighted, key_target, lemma_highlight_keeps_fence, lemma_spawn_fits, shift,
    spawn_stat, tick,
};
use crate::stat::Stat;

verus! {

/// Draws a number with `rand::thread_rng().gen_range(0..n)`. The generator
/// is seeded by the system, so nothing is said of the number but that it
/// lies in the range. The call panics on an empty range, which `requires`
/// leaves out; it also panics where the system has no seed to give, which
/// no argument decides.
#[verifier::external_body]
fn gen_below(n: u32) -> (r: u32)
    requires
        0 < n,
    ensures
        r < n,
{
    rand::thread_rng().gen_range(0..n)
}

/// The state of a game: the shape catalog, the fall flag and the grid.
pub struct Model {
    /// the shape catalog
    pub minos: Vec<Mino>,
    /// whether a drop was asked for since the last lock
    pub f: u32,
    /// the grid
    pub b: Board,
}

impl Model {
    /// The grid has its size and the catalog holds the eight shapes.
    pub open spec fn wf(&self) -> bool {
        &&& self.b.wf()
        &&& self.minos@.len() == 8
        &&& forall|typ: int| 0 <= typ < 8 ==> (#[trigger] self.minos@[typ]).is_shape(typ)
    }

    /// A session is under way: the fence stands and the piece `s`, one of
    /// the seven shapes, is on the grid.
    pub open spec fn live(&self, s: Stat) -> bool {
        &&& self.wf()
        &&& fenced(self.b@)
        &&& 1 <= s.typ < 8
        &&& placed(self.b@, s)
    }

    /// Whether the grid has its size and the catalog holds the eight shapes.
    pub fn is_wf(&self) -> (b: bool)
        ensures
            b == self.wf(),
    {
        if !self.b.is_wf() || self.minos.len() != 8 {
            return false;
        }
        let mut typ: u8 = 0;
        while typ < 8
            invariant
                typ <= 8,
                self.minos@.len() == 8,
                forall|t: int| 0 <= t < typ ==> (#[trigger] self.minos@[t]).is_shape(t),
            decreases 8 - typ,
        {
            if !self.minos[typ as usize].has_shape(typ) {
                return false;
            }
            typ += 1;
        }
        true
    }

    /// Whether a session is under way with the live piece `s`.
    pub fn is_live(&self, s: &Stat) -> (b: bool)
        ensures
            b == self.live(*s),
    {
        if !self.is_wf() || s.typ < 1 || s.typ >= 8 {
            return false;
        }
        if !self.b.is_fenced() {
            return false;
        }
        let v: u8 = 0x20 | (s.typ + 1);
        assert(v == mark(s.typ)) by {
            let c: u8 = (s.typ + 1) as u8;
            assert(0x20u8 | c == (2u8 << 4) | c) by (bit_vector);
        }
        let mut i: usize = 0;
        while i < 4
            invariant
                i <= 4,
                self.wf(),
                s.typ < 8,
                v == mark(s.typ),
                forall|j: int| 0 <= j < i ==> holds(self.b@, #[trigger] cell_of(*s, j), v),
            decreases 4 - i,
        {
            let p: (i32, i32) = self.cell(s, i);
            if p.0 < 0 || p.0 >= self.b.mw as i32 || p.1 < 0 || p.1 >= self.b.mh as i32 {
                assert(!holds(self.b@, cell_of(*s, i as int), v));
                return false;
            }
            if self.b.get_dot(p.0 as u16, p.1 as u16) != v {
                assert(!holds(self.b@, cell_of(*s, i as int), v));
                return false;
            }
            i += 1;
        }
        true
    }

    /// A new game on an empty field of `w` by `h` playable cells.
    pub fn new(w: u16, h: u16) -> (m: Self)
        requires
            w + 2 <= u16::MAX,
            h + 5 <= u16::MAX,
        ensures
            m.wf(),
            m.f == 0,
            m.b.w == w,
            m.b.h == h,
            m.b@ == empty_grid(w + 2, h + 5),
    {
        Model { minos: Mino::gen_minos(), f: 0, b: Board::new(w, h) }
    }

    /// The `i`-th cell of the piece `s`, which may lie off the grid.
    pub fn cell(&self, s: &Stat, i: usize) -> (p: (i32, i32))
        requires
            self.wf(),
            s.typ < 8,
            i < 4,
        ensures
            (p.0 as int, p.1 as int) == cell_of(*s, i as int),
    {
        if i == 0 {
            (s.x as i32, s.y as i32)
        } else {
            let m: &Mino = &self.minos[s.typ as usize];
            proof {
                lemma_shape_wf(*m, s.typ as int);
                assert(m.at(i - 1) == offset(s.typ as int, i - 1));
            }
            let d: (i16, i16) = m.rotate_offset(i - 1, s.rotate);
            (s.x as i32 + d.0 as i32, s.y as i32 + d.1 as i32)
        }
    }

    /// Whether the piece `s` can be placed: all four cells are looked at, and
    /// none is written.
    pub fn test_mino(&self, s: &Stat) -> (ok: bool)
        requires
            self.wf(),
            s.typ < 8,
        ensures
            ok == fits(self.b@, *s),
    {
        let mut i: usize = 0;
        while i < 4
            invariant
                i <= 4,
                self.wf(),
                s.typ < 8,
                forall|j: int| 0 <= j < i ==> free(self.b@, #[trigger] cell_of(*s, j)),
            decreases 4 - i,
        {
            let p: (i32, i32) = self.cell(s, i);
            if p.0 < 0 || p.0 >= self.b.mw as i32 || p.1 < 0 || p.1 >= self.b.mh as i32 {
                assert(!free(self.b@, cell_of(*s, i as int)));
                return false;
            }
            let c: u8 = self.b.get_dot(p.0 as u16, p.1 as u16);
            assert((c & 0xf0 != 0) == (c >> 4 != 0)) by (bit_vector);
            if c & 0xf0 != 0 {
                assert(!free(self.b@, cell_of(*s, i as int)));
                return false;
            }
            i += 1;
        }
        true
    }

    /// The placement engine. Action 2 erases the four cells of the piece
    /// `s`. Any other action first tests all four cells and, if none is
    /// blocked, writes the piece; if one is blocked the grid is left as it
    /// was. Answers 1 when the grid was written and 0 when it was not.
    pub fn put_mino(&mut self, s: &Stat, action: u16) -> (ok: u16)
        requires
            old(self).wf(),
            s.typ < 8,
            action == 2 ==> on_grid(old(self).b@, *s),
        ensures
            final(self).wf(),
            (final(self).b@, ok) == put(old(self).b@, *s, action),
            action != 2 && fenced(old(self).b@) ==> fenced(final(self).b@),
            final(self).b.w == old(self).b.w,
            final(self).b.h == old(self).b.h,
            final(self).minos == old(self).minos,
            final(self).f == old(self).f,
    {
        proof {
            if action != 2 && fenced(self.b@) {
                lemma_put_keeps_fence(self.b@, *s, action);
            }
        }
        if action != 2 && !self.test_mino(s) {
            return 0;
        }
        let t: u8 = if action == 2 { 0 } else { 2 };
        let c: u8 = if action == 2 { 0 } else { 1 + s.typ };
        let ghost v: u8 = if action == 2 { EMPTY } else { mark(s.typ) };
        proof {
            assert(pack(0, 0) == EMPTY) by (bit_vector);
        }
        let mut i: usize = 0;
        while i < 4
            invariant
                i <= 4,
                self.wf(),
                s.typ < 8,
                on_grid(old(self).b@, *s),
                v == pack(t, c),
                self.b@ == stamp_upto(old(self).b@, *s, v, i as nat),
                self.b.w == old(self).b.w,
                self.b.h == old(self).b.h,
                self.minos == old(self).minos,
                self.f == old(self).f,
            decreases 4 - i,
        {
            let p: (i32, i32) = self.cell(s, i);
            proof {
                lemma_stamp_upto(old(self).b@, *s, v, i as nat);
                let q = cell_of(*s, i as int);
                assert(inside(old(self).b@, q.0, q.1));
            }
            self.b.draw_dot(p.0 as u16, p.1 as u16, t, c);
            i += 1;
            proof {
                lemma_stamp_upto(old(self).b@, *s, v, i as nat);
            }
        }
        1
    }

    /// Erases the four cells of the piece `s`.
    pub fn delete_mino(&mut self, s: &Stat) -> (ok: u16)
        requires
            old(self).wf(),
            s.typ < 8,
            on_grid(old(self).b@, *s),
        ensures
            final(self).wf(),
            ok == 1,
            final(self).b@ == stamp(old(self).b@, *s, EMPTY),
            final(self).b.w == old(self).b.w,
            final(self).b.h == old(self).b.h,
            final(self).minos == old(self).minos,
            final(self).f == old(self).f,
    {
        self.put_mino(s, 2)
    }

    /// The draw `n` brought below `m`: its remainder.
    pub fn reduce(n: u32, m: u8) -> (r: u8)
        requires
            0 < m,
        ensures
            r == n % (m as u32),
    {
        (n % m as u32) as u8
    }

    /// A random number below `m`: a draw below `65536 * m`, reduced.
    pub fn i_rand(m: u8) -> (r: u8)
        requires
            0 < m,
        ensures
            r < m,
    {
        Self::reduce(gen_below(m as u32 * 65536), m)
    }

    /// The piece of shape `typ`, turned `rotate` times, at the place where
    /// pieces enter.
    pub fn spawn(&self, rotate: u8, typ: u8) -> (s: Stat)
        requires
            self.wf(),
        ensures
            s == spawn_stat(self.b.w, self.b.h, rotate, typ),
    {
        Stat { x: self.b.w / 2, y: self.b.h + 1, rotate, typ }
    }

    /// A piece at the place where pieces enter, with a random shape out of
    /// the seven and a random turn out of four.
    pub fn new_mino(&mut self) -> (s: Stat)
        requires
            old(self).wf(),
        ensures
            *final(self) == *old(self),
            s.rotate < 4,
            1 <= s.typ < 8,
            s == spawn_stat(old(self).b.w, old(self).b.h, s.rotate, s.typ),
    {
        let rotate: u8 = Self::i_rand(4);
        let typ: u8 = Self::i_rand(self.minos.len() as u8 - 1) + 1;
        self.spawn(rotate, typ)
    }

    /// Starts a game with a given first piece: empties the grid, paints the
    /// border and places the piece of shape `typ`, turned `rotate` times, at
    /// the entry.
    pub fn init_board_with(&mut self, s: &mut Stat, rotate: u8, typ: u8)
        requires
            old(self).wf(),
            typ < 8,
        ensures
            final(self).wf(),
            *final(s) == spawn_stat(old(self).b.w, old(self).b.h, rotate, typ),
            final(self).b@ == put(walled(cleared(old(self).b@)), *final(s), 0).0,
            fenced(final(self).b@),
            old(self).b.w >= 4 && old(self).b.h >= 1 && typ >= 1 ==> final(self).live(*final(s)),
            final(self).b.w == old(self).b.w,
            final(self).b.h == old(self).b.h,
            final(self).minos == old(self).minos,
            final(self).f == old(self).f,
    {
        self.b.clear_board();
        self.b.draw_box();
        *s = self.spawn(rotate, typ);
        proof {
            lemma_fresh_is_fenced(old(self).b@);
            lemma_put_keeps_fence(self.b@, *s, 0);
            if self.b.w >= 4 && self.b.h >= 1 {
                lemma_spawn_fits(old(self).b@, self.b.w, self.b.h, rotate, typ);
                lemma_put_places(self.b@, *s, 0);
            }
        }
        self.put_mino(s, 0);
    }

    /// Starts a game: empties the grid, paints the border and places a
    /// random first piece at the entry.
    pub fn init_board(&mut self, s: &mut Stat)
        requires
            old(self).wf(),
        ensures
            final(self).wf(),
            final(s).rotate < 4,
            1 <= final(s).typ < 8,
            *final(s) == spawn_stat(old(self).b.w, old(self).b.h, final(s).rotate, final(s).typ),
            final(self).b@ == put(walled(cleared(old(self).b@)), *final(s), 0).0,
            fenced(final(self).b@),
            old(self).b.w >= 4 && old(self).b.h >= 1 ==> final(self).live(*final(s)),
            final(self).b.w == old(self).b.w,
            final(self).b.h == old(self).b.h,
            final(self).minos == old(self).minos,
            final(self).f == old(self).f,
    {
        let n: Stat = self.new_mino();
        self.init_board_with(s, n.rotate, n.typ);
    }

    /// Marks a lost game: every piece cell gets color 15.
    pub fn over(&mut self)
        ensures
            final(self).b@ == highlighted(old(self).b@),
            fenced(old(self).b@) ==> fenced(final(self).b@),
            final(self).b.w == old(self).b.w,
            final(self).b.h == old(self).b.h,
            final(self).b.mw == old(self).b.mw,
            final(self).b.mh == old(self).b.mh,
            final(self).minos == old(self).minos,
            final(self).f == old(self).f,
    {
        let rows: usize = self.b.fld.len();
        let mut r: usize = 0;
        while r < rows
            invariant
                r <= rows,
                rows == self.b.fld@.len(),
                same_shape(old(self).b@, self.b@),
                self.b.w == old(self).b.w,
                self.b.h == old(self).b.h,
                self.b.mw == old(self).b.mw,
                self.b.mh == old(self).b.mh,
                self.minos == old(self).minos,
                self.f == old(self).f,
                forall|y: int, x: int|
                    0 <= y < rows && 0 <= x < self.b@[y].len() ==> #[trigger] self.b@[y][x] == (if y < r {
                        glow(old(self).b@[y][x])
                    } else {
                        old(self).b@[y][x]
                    }),
            decreases rows - r,
        {
            let cols: usize = self.b.fld[r].len();
            let mut c: usize = 0;
            while c < cols
                invariant
                    r < rows,
                    c <= cols,
                    rows == self.b.fld@.len(),
                    cols == self.b@[r as int].len(),
                    same_shape(old(self).b@, self.b@),
                    self.b.w == old(self).b.w,
                    self.b.h == old(self).b.h,
                    self.b.mw == old(self).b.mw,
                    self.b.mh == old(self).b.mh,
                    self.minos == old(self).minos,
                    self.f == old(self).f,
                    forall|y: int, x: int|
                        0 <= y < rows && 0 <= x < self.b@[y].len() ==> #[trigger] self.b@[y][x] == (if y < r
                            || (y == r && x < c) {
                            glow(old(self).b@[y][x])
                        } else {
                            old(self).b@[y][x]
                        }),
                decreases cols - c,
            {
                let v: u8 = self.b.fld[r][c];
                if v & 0x20 != 0 {
                    self.b.fld[r][c] = v | 0x0f;
                }
                c += 1;
            }
            r += 1;
        }
        assert(self.b@ =~~= highlighted(old(self).b@));
        proof {
            if fenced(old(self).b@) {
                lemma_highlight_keeps_fence(old(self).b@);
            }
        }
    }

    /// Whether no playable cell of row `r` is empty.
    pub fn row_full(&self, r: u16) -> (b: bool)
        requires
            self.wf(),
            r < self.b.mh,
        ensures
            b == full(inner(self.b@[r as int])),
    {
        let w: u16 = self.b.w;
        let mut c: u16 = 1;
        while c <= w
            invariant
                1 <= c <= w + 1,
                self.wf(),
                w == self.b.w,
                r < self.b.mh,
                forall|x: int| 1 <= x < c ==> #[trigger] self.b@[r as int][x] != EMPTY,
            decreases w + 1 - c,
        {
            if self.b.get_dot(c, r) == 0 {
                assert(inner(self.b@[r as int])[c - 1] == EMPTY);
                return false;
            }
            c += 1;
        }
        assert forall|x: int| 0 <= x < inner(self.b@[r as int]).len() implies #[trigger] inner(
            self.b@[r as int],
        )[x] != EMPTY by {
            assert(self.b@[r as int][x + 1] != EMPTY);
        }
        true
    }

    /// Takes the playable part of row `r` out of the grid: every row from
    /// `r` up takes the cells of the row above it, and the top row is emptied.
    pub fn drop_row(&mut self, r: u16)
        requires
            old(self).wf(),
            1 <= r < old(self).b.mh,
        ensures
            final(self).wf(),
            final(self).b@ == without_row(old(self).b@, r as int),
            final(self).b.w == old(self).b.w,
            final(self).b.h == old(self).b.h,
            final(self).minos == old(self).minos,
            final(self).f == old(self).f,
    {
        let w: u16 = self.b.w;
        let top: u16 = self.b.mh - 1;
        let mut j: u16 = r;
        while j < top
            invariant
                r <= j <= top,
                old(self).wf(),
                self.wf(),
                w == self.b.w,
                top == self.b.mh - 1,
                self.b.w == old(self).b.w,
                self.b.h == old(self).b.h,
                self.minos == old(self).minos,
                self.f == old(self).f,
                forall|x: int, y: int|
                    0 <= y <= top && 0 <= x < w + 2 ==> #[trigger] self.b@[y][x] == (if r <= y < j && 1 <= x
                        <= w {
                        old(self).b@[y + 1][x]
                    } else {
                        old(self).b@[y][x]
                    }),
            decreases top - j,
        {
            let mut i: u16 = 1;
            while i <= w
                invariant
                    1 <= i <= w + 1,
                    r <= j < top,
                    old(self).wf(),
                    self.wf(),
                    w == self.b.w,
                    top == self.b.mh - 1,
                    self.b.w == old(self).b.w,
                    self.b.h == old(self).b.h,
                    self.minos == old(self).minos,
                    self.f == old(self).f,
                    forall|x: int, y: int|
                        0 <= y <= top && 0 <= x < w + 2 ==> #[trigger] self.b@[y][x] == (if 1 <= x <= w && (r
                            <= y < j || (y == j && x < i)) {
                            old(self).b@[y + 1][x]
                        } else {
                            old(self).b@[y][x]
                        }),
                decreases w + 1 - i,
            {
                self.b.draw_dot_copy(i, j, i, j + 1);
                i += 1;
            }
            j += 1;
        }
        let mut i: u16 = 1;
        while i <= w
            invariant
                1 <= i <= w + 1,
                old(self).wf(),
                self.wf(),
                w == self.b.w,
                top == self.b.mh - 1,
                r <= top,
                self.b.w == old(self).b.w,
                self.b.h == old(self).b.h,
                self.minos == old(self).minos,
                self.f == old(self).f,
                forall|x: int, y: int|
                    0 <= y <= top && 0 <= x < w + 2 ==> #[trigger] self.b@[y][x] == (if 1 <= x <= w && r
                        <= y < top {
                        old(self).b@[y + 1][x]
                    } else if y == top && 1 <= x < i {
                        EMPTY
                    } else {
                        old(self).b@[y][x]
                    }),
            decreases w + 1 - i,
        {
            proof {
                assert(pack(0, 0) == EMPTY) by (bit_vector);
            }
            self.b.draw_dot(i, top, 0, 0);
            i += 1;
        }
        assert(self.b@ =~~= without_row(old(self).b@, r as int));
    }

    /// Line clearing. Each playable row, from the lowest up, is looked at
    /// until it is not full: while it is full it is taken out, the rows
    /// above come down by one and the top row becomes empty. Answers the
    /// number of rows taken out.
    pub fn delete_line(&mut self) -> (n: u16)
        requires
            old(self).wf(),
            old(self).b.w >= 1,
        ensures
            final(self).wf(),
            final(self).b@ == settled(old(self).b@, old(self).b.h as int),
            n == cleared_lines(interior(old(self).b@), 0, old(self).b.h as int),
            fenced(old(self).b@) ==> fenced(final(self).b@),
            final(self).b.w == old(self).b.w,
            final(self).b.h == old(self).b.h,
            final(self).minos == old(self).minos,
            final(self).f == old(self).f,
    {
        let h: u16 = self.b.h;
        let ghost w: nat = self.b.w as nat;
        let ghost len: int = self.b.mh - 1;
        let ghost start = interior(old(self).b@);
        let mut n: u16 = 0;
        let mut r: u16 = 1;
        proof {
            assert(interior(self.b@).subrange(0, 0) + settle(interior(self.b@).subrange(0, len), 0, h as int)
                =~= settle(start, 0, h as int)) by {
                assert(start.subrange(0, len) =~= start);
            }
            assert(start.subrange(0, len) =~= start);
        }
        while r <= h
            invariant
                1 <= r <= h + 1,
                old(self).wf(),
                self.wf(),
                w >= 1,
                w == self.b.w,
                h == self.b.h,
                len == self.b.mh - 1,
                start == interior(old(self).b@),
                self.b.w == old(self).b.w,
                self.b.h == old(self).b.h,
                self.minos == old(self).minos,
                self.f == old(self).f,
                same_frame(old(self).b@, self.b@),
                n <= len,
                forall|i: int| len - n <= i < len ==> #[trigger] interior(self.b@)[i] == blank(w),
                interior(self.b@).subrange(0, r - 1) + settle(
                    interior(self.b@).subrange(r - 1, len),
                    r - 1,
                    h as int,
                ) == settle(start, 0, h as int),
                n + cleared_lines(interior(self.b@).subrange(r - 1, len), r - 1, h as int)
                    == cleared_lines(start, 0, h as int),
            decreases h + 1 - r,
        {
            while self.row_full(r)
                invariant
                    1 <= r <= h,
                    old(self).wf(),
                    self.wf(),
                    w >= 1,
                    w == self.b.w,
                    h == self.b.h,
                    len == self.b.mh - 1,
                    start == interior(old(self).b@),
                    self.b.w == old(self).b.w,
                    self.b.h == old(self).b.h,
                    self.minos == old(self).minos,
                    self.f == old(self).f,
                    same_frame(old(self).b@, self.b@),
                    n <= len,
                    forall|i: int| len - n <= i < len ==> #[trigger] interior(self.b@)[i] == blank(w),
                    interior(self.b@).subrange(0, r - 1) + settle(
                        interior(self.b@).subrange(r - 1, len),
                        r - 1,
                        h as int,
                    ) == settle(start, 0, h as int),
                    n + cleared_lines(interior(self.b@).subrange(r - 1, len), r - 1, h as int)
                        == cleared_lines(start, 0, h as int),
                decreases len - n,
            {
                let ghost before = self.b@;
                let ghost rows = interior(before);
                let ghost tail = rows.subrange(r - 1, len);
                proof {
                    assert(rows[r - 1] == inner(before[r as int]));
                    assert(tail[0] == rows[r - 1]);
                    // a full row is not one of the empty rows at the top
                    if r - 1 >= len - n {
                        assert(rows[r - 1] == blank(w));
                        assert(blank(w)[0] == EMPTY);
                    }
                    assert(r - 1 < len - n);
                    lemma_without_row(before, r as int, self.b.mw as int, self.b.mh as int);
                }
                self.drop_row(r);
                n += 1;
                proof {
                    let after = interior(self.b@);
                    assert(after == rows.remove(r - 1).push(blank(w)));
                    assert(after.subrange(0, r - 1) =~= rows.subrange(0, r - 1));
                    assert(after.subrange(r - 1, len) =~= tail.drop_first().push(blank(w)));
                    assert(rows_of_width(tail.drop_first(), w));
                    lemma_settle_push(tail.drop_first(), r - 1, h as int, w);
                    assert(tail[0].len() == w);
                }
            }
            proof {
                let rows = interior(self.b@);
                let tail = rows.subrange(r - 1, len);
                assert(tail[0] == rows[r - 1]);
                assert(rows[r - 1] == inner(self.b@[r as int]));
                assert(tail.drop_first() =~= rows.subrange(r as int, len));
                assert(rows.subrange(0, r as int) =~= rows.subrange(0, r - 1) + seq![rows[r - 1]]);
                assert(rows.subrange(0, r as int) + settle(rows.subrange(r as int, len), r as int, h as int)
                    =~= rows.subrange(0, r - 1) + (seq![rows[r - 1]] + settle(
                    rows.subrange(r as int, len),
                    r as int,
                    h as int,
                )));
            }
            r += 1;
        }
        proof {
            let rows = interior(self.b@);
            lemma_settle_done(rows.subrange(h as int, len), h as int, h as int);
            assert(rows.subrange(0, h as int) + rows.subrange(h as int, len) =~= rows);
            lemma_with_interior(old(self).b@, self.b@);
            if fenced(old(self).b@) {
                lemma_settled_keeps_fence(
                    old(self).b@,
                    h as int,
                    self.b.mw as int,
                    self.b.mh as int,
                );
            }
        }
        n
    }

    /// Asks the live piece `s` to become `n`, a piece of the same shape:
    /// `s` is erased and `n` is tried. If `n` fits it is placed and becomes
    /// the live piece; if not, `s` is placed again where it was. Answers
    /// whether the piece changed.
    pub fn shift_mino(&mut self, s: &mut Stat, n: Stat) -> (moved: bool)
        requires
            old(self).live(*old(s)),
            n.typ == old(s).typ,
        ensures
            final(self).live(*final(s)),
            moved == fits(stamp(old(self).b@, *old(s), EMPTY), n),
            (final(self).b@, *final(s)) == shift(old(self).b@, *old(s), n),
            final(self).b.w == old(self).b.w,
            final(self).b.h == old(self).b.h,
            final(self).minos == old(self).minos,
            final(self).f == old(self).f,
    {
        proof {
            lemma_erase_keeps_fence(self.b@, *s);
            lemma_erase_restore(self.b@, *s, 0);
            let lifted = stamp(self.b@, *s, EMPTY);
            lemma_put_keeps_fence(lifted, n, 0);
            if fits(lifted, n) {
                lemma_put_places(lifted, n, 0);
            }
        }
        self.delete_mino(s);
        if self.put_mino(&n, 0) != 0 {
            *s = n;
            true
        } else {
            self.put_mino(s, 0);
            false
        }
    }

    /// Locks the grid as it stands and lets the piece `next` enter: lines
    /// are cleared, `next` becomes the live piece and is placed if it fits.
    /// Answers 2, with the fall flag reset, when it was placed; answers 1,
    /// with every piece cell highlighted, when the entry was blocked and the
    /// game is lost.
    pub fn lock_mino(&mut self, s: &mut Stat, next: Stat) -> (ret: u16)
        requires
            old(self).wf(),
            fenced(old(self).b@),
            old(self).b.w >= 1,
            1 <= next.typ < 8,
        ensures
            final(self).wf(),
            fenced(final(self).b@),
            *final(s) == next,
            (final(self).b@, ret) == enter(settled(old(self).b@, old(self).b.h as int), next),
            ret == 2 ==> final(self).live(next) && final(self).f == 0,
            ret != 2 ==> final(self).f == old(self).f,
            final(self).b.w == old(self).b.w,
            final(self).b.h == old(self).b.h,
            final(self).minos == old(self).minos,
    {
        proof {
            let g1 = settled(self.b@, self.b.h as int);
            lemma_settled_keeps_fence(self.b@, self.b.h as int, self.b.mw as int, self.b.mh as int);
            lemma_highlight_keeps_fence(g1);
            lemma_put_keeps_fence(g1, next, 0);
            if fits(g1, next) {
                lemma_put_places(g1, next, 0);
            }
        }
        self.delete_line();
        *s = next;
        if self.put_mino(s, 0) == 0 {
            self.over();
            return 1;
        }
        self.f = 0;
        2
    }

    /// A gravity tick with a given next piece. The live piece `s` falls by
    /// one row if it fits there, and the answer is 0. If it does not, it
    /// locks: lines are cleared and the piece of shape `typ`, turned
    /// `rotate` times, enters as the new live piece. The answer is then 2,
    /// or 1 when the entry is blocked and the game is lost.
    pub fn down_mino_with(&mut self, s: &mut Stat, rotate: u8, typ: u8) -> (ret: u16)
        requires
            old(self).live(*old(s)),
            1 <= typ < 8,
        ensures
            final(self).wf(),
            fenced(final(self).b@),
            (final(self).b@, *final(s), ret) == tick(
                old(self).b@,
                *old(s),
                spawn_stat(old(self).b.w, old(self).b.h, rotate, typ),
                old(self).b.h as int,
            ),
            ret != 1 ==> final(self).live(*final(s)),
            final(self).f == (if ret == 2 { 0 } else { old(self).f }),
            final(self).b.w == old(self).b.w,
            final(self).b.h == old(self).b.h,
            final(self).minos == old(self).minos,
    {
        proof {
            lemma_pivot_inside(self.b@, *s, self.b.mw as int, self.b.mh as int);
        }
        let n: Stat = Stat { x: s.x, y: s.y - 1, rotate: s.rotate, typ: s.typ };
        if self.shift_mino(s, n) {
            return 0;
        }
        let next: Stat = self.spawn(rotate, typ);
        self.lock_mino(s, next)
    }

    /// A gravity tick. The live piece `s` falls by one row if it fits
    /// there, and the answer is 0. If it does not, it locks: lines are
    /// cleared and a random piece enters as the new live piece. The answer
    /// is then 2, or 1 when the entry is blocked and the game is lost.
    pub fn down_mino(&mut self, s: &mut Stat) -> (ret: u16)
        requires
            old(self).live(*old(s)),
        ensures
            final(self).wf(),
            fenced(final(self).b@),
            exists|rotate: u8, typ: u8|
                rotate < 4 && 1 <= typ < 8 && (final(self).b@, *final(s), ret) == #[trigger] tick(
                    old(self).b@,
                    *old(s),
                    spawn_stat(old(self).b.w, old(self).b.h, rotate, typ),
                    old(self).b.h as int,
                ),
            ret != 1 ==> final(self).live(*final(s)),
            final(self).f == (if ret == 2 { 0 } else { old(self).f }),
            final(self).b.w == old(self).b.w,
            final(self).b.h == old(self).b.h,
            final(self).minos == old(self).minos,
    {
        proof {
            lemma_pivot_inside(self.b@, *s, self.b.mw as int, self.b.mh as int);
        }
        let n: Stat = Stat { x: s.x, y: s.y - 1, rotate: s.rotate, typ: s.typ };
        if self.shift_mino(s, n) {
            assert((self.b@, *s, 0u16) == tick(
                old(self).b@,
                *old(s),
                spawn_stat(old(self).b.w, old(self).b.h, 0, 1),
                old(self).b.h as int,
            ));
            return 0;
        }
        let next: Stat = self.new_mino();
        let ret: u16 = self.lock_mino(s, next);
        assert((self.b@, *s, ret) == tick(
            old(self).b@,
            *old(s),
            spawn_stat(old(self).b.w, old(self).b.h, next.rotate, next.typ),
            old(self).b.h as int,
        ));
        ret
    }

    /// One key of the session. Key 1 asks the live piece one column to the
    /// left, key 2 one column to the right, key 3 one quarter turn on: the
    /// piece goes there if it fits and stays if it does not. Keys 0 and 4
    /// ask for a drop: the fall flag is set and the answer is 1. Every
    /// other answer is 0, and any other key changes nothing.
    pub fn proc_key(&mut self, s: &mut Stat, k: u8) -> (ret: u16)
        requires
            old(self).live(*old(s)),
        ensures
            final(self).live(*final(s)),
            1 <= final(s).x <= final(self).b.w,
            1 <= final(s).y,
            ret == (if k == 0 || k == 4 { 1u16 } else { 0u16 }),
            final(self).f == (if k == 0 || k == 4 { 1 } else { old(self).f }),
            (final(self).b@, *final(s)) == (if 1 <= k <= 3 {
                shift(old(self).b@, *old(s), key_target(*old(s), k))
            } else {
                (old(self).b@, *old(s))
            }),
            final(self).b.w == old(self).b.w,
            final(self).b.h == old(self).b.h,
            final(self).minos == old(self).minos,
    {
        proof {
            lemma_pivot_inside(self.b@, *s, self.b.mw as int, self.b.mh as int);
        }
        let mut ret: u16 = 0;
        if k == 0 || k == 4 {
            ret = 1;
        } else if k == 1 {
            let n: Stat = Stat { x: s.x - 1, y: s.y, rotate: s.rotate, typ: s.typ };
            self.shift_mino(s, n);
        } else if k == 2 {
            let n: Stat = Stat { x: s.x + 1, y: s.y, rotate: s.rotate, typ: s.typ };
            self.shift_mino(s, n);
        } else if k == 3 {
            let n: Stat = Stat { x: s.x, y: s.y, rotate: s.rotate.wrapping_add(1), typ: s.typ };
            self.shift_mino(s, n);
        }
        if ret == 1 {
            self.f = 1;
        }
        proof {
            lemma_pivot_inside(self.b@, *s, self.b.mw as int, self.b.mh as int);
        }
        ret
    }
}

} // verus!
