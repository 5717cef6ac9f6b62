//! The grid of cells with its wall border.

use vstd::prelude::*;

use crate::packet::Packet;

verus! {

/// The kind nibble of a cell: 0 is empty, 1 a wall, 2 a piece.
pub open spec fn kind(cell: u8) -> u8 {
    cell >> 4
}

/// The color nibble of a cell, an index into the palette.
pub open spec fn color(cell: u8) -> u8 {
    cell & 0x0f
}

/// The cell that holds kind `f` and color `c`.
pub open spec fn pack(f: u8, c: u8) -> u8 {
    (f << 4) | c
}

/// The empty cell.
pub const EMPTY: u8 = 0x00;

/// The wall cell: a wall by kind, with the first color after black.
pub const WALL: u8 = 0x11;

/// Whether `(x, y)` names a cell of the grid `g`.
pub open spec fn inside(g: Seq<Seq<u8>>, x: int, y: int) -> bool {
    0 <= y < g.len() && 0 <= x < g[y].len()
}

/// The grid `g` with the cell `(x, y)` replaced by `v`.
pub open spec fn with_cell(g: Seq<Seq<u8>>, x: int, y: int, v: u8) -> Seq<Seq<u8>> {
    g.update(y, g[y].update(x, v))
}

/// The grid of `mh` rows of `mw` empty cells.
pub open spec fn empty_grid(mw: int, mh: int) -> Seq<Seq<u8>> {
    Seq::new(mh as nat, |y: int| Seq::new(mw as nat, |x: int| EMPTY))
}

/// The grid `g` with every cell emptied.
pub open spec fn cleared(g: Seq<Seq<u8>>) -> Seq<Seq<u8>> {
    Seq::new(g.len(), |y: int| Seq::new(g[y].len(), |x: int| EMPTY))
}

/// Whether `(x, y)` lies on the border of `g`: the bottom row, the first
/// column or the last column.
pub open spec fn on_border(g: Seq<Seq<u8>>, x: int, y: int) -> bool {
    y == 0 || x == 0 || x == g[y].len() - 1
}

/// The grid `g` with the border painted as wall and the rest untouched.
pub open spec fn walled(g: Seq<Seq<u8>>) -> Seq<Seq<u8>> {
    Seq::new(
        g.len(),
        |y: int| Seq::new(g[y].len(), |x: int| if on_border(g, x, y) { WALL } else { g[y][x] }),
    )
}

/// Every border cell of `g` is a wall.
pub open spec fn boxed(g: Seq<Seq<u8>>) -> bool {
    forall|x: int, y: int| inside(g, x, y) && on_border(g, x, y) ==> #[trigger] g[y][x] == WALL
}

/// No cell inside the border of `g` is a wall.
pub open spec fn open_inside(g: Seq<Seq<u8>>) -> bool {
    forall|x: int, y: int| inside(g, x, y) && !on_border(g, x, y) ==> kind(#[trigger] g[y][x]) != 1
}

/// The border of `g` is wall and nothing else is.
pub open spec fn fenced(g: Seq<Seq<u8>>) -> bool {
    boxed(g) && open_inside(g)
}

/// Two grids have the same number of rows and the same row lengths.
pub open spec fn same_shape(a: Seq<Seq<u8>>, b: Seq<Seq<u8>>) -> bool {
    &&& a.len() == b.len()
    &&& forall|y: int| 0 <= y < a.len() ==> (#[trigger] a[y]).len() == b[y].len()
}

/// A grid of `mh` rows of `mw` cells each.
pub open spec fn rect(g: Seq<Seq<u8>>, mw: int, mh: int) -> bool {
    &&& g.len() == mh
    &&& forall|y: int| 0 <= y < mh ==> (#[trigger] g[y]).len() == mw
}

/// A freshly walled, empty grid has its walls on the border and nowhere else.
pub proof fn lemma_fresh_is_fenced(g: Seq<Seq<u8>>)
    ensures
        fenced(walled(cleared(g))),
        same_shape(g, walled(cleared(g))),
{
    assert(kind(EMPTY) == 0) by (bit_vector);
}

/// Splitting a cell into its nibbles and packing them again gives the cell.
pub proof fn lemma_pack_nibbles(cell: u8)
    ensures
        pack(kind(cell), color(cell)) == cell,
        pack((cell & 0xf0) >> 4, cell & 0x0f) == cell,
        kind(cell) < 16,
        color(cell) < 16,
{
    assert((((cell >> 4) << 4) | (cell & 0x0f)) == cell) by (bit_vector);
    assert(((((cell & 0xf0) >> 4) << 4) | (cell & 0x0f)) == cell) by (bit_vector);
    assert(cell >> 4 < 16) by (bit_vector);
    assert(cell & 0x0f < 16) by (bit_vector);
}

/// A cell packed from two nibbles gives them back.
pub proof fn lemma_nibbles_pack(f: u8, c: u8)
    requires
        f < 16,
        c < 16,
    ensures
        kind(pack(f, c)) == f,
        color(pack(f, c)) == c,
{
    assert(f < 16 && c < 16 ==> ((f << 4) | c) >> 4 == f) by (bit_vector);
    assert(f < 16 && c < 16 ==> ((f << 4) | c) & 0x0f == c) by (bit_vector);
}

/// Painting the border twice is painting it once.
pub proof fn lemma_walled_idempotent(g: Seq<Seq<u8>>)
    ensures
        walled(walled(g)) == walled(g),
        boxed(walled(g)),
{
    assert(walled(walled(g)) =~~= walled(g));
}

/// In row-major order every cell of a lower row comes before the rows above.
pub proof fn lemma_row_major(rr: int, cc: int, r: int, mw: int)
    requires
        0 <= rr < r,
        0 <= cc < mw,
    ensures
        rr * mw + cc < r * mw,
{
    assert((rr + 1) * mw <= r * mw) by (nonlinear_arith)
        requires
            rr + 1 <= r,
            0 <= mw,
    ;
    assert((rr + 1) * mw == rr * mw + mw) by (nonlinear_arith);
}

/// The playing field: `w` by `h` playable cells inside a physical buffer of
/// `mw = w + 2` columns and `mh = h + 5` rows.
pub struct Board {
    /// playable width
    pub w: u16,
    /// playable height
    pub h: u16,
    /// physical width
    pub mw: u16,
    /// physical height
    pub mh: u16,
    /// the cells, row by row from the bottom
    pub fld: Vec<Vec<u8>>,
}

impl View for Board {
    type V = Seq<Seq<u8>>;

    open spec fn view(&self) -> Seq<Seq<u8>> {
        Seq::new(self.fld@.len(), |y: int| self.fld@[y]@)
    }
}

impl Board {
    /// The buffer has the size that the playable size asks for.
    pub open spec fn wf(&self) -> bool {
        &&& self.mw == self.w + 2
        &&& self.mh == self.h + 5
        &&& self@.len() == self.mh
        &&& forall|y: int| 0 <= y < self.mh ==> (#[trigger] self@[y]).len() == self.mw
    }

    /// Whether the buffer has the size that the playable size asks for.
    pub fn is_wf(&self) -> (b: bool)
        ensures
            b == self.wf(),
    {
        if self.mw as u32 != self.w as u32 + 2 || self.mh as u32 != self.h as u32 + 5 {
            return false;
        }
        if self.fld.len() != self.mh as usize {
            return false;
        }
        let mut r: usize = 0;
        while r < self.mh as usize
            invariant
                r <= self.mh,
                self.fld@.len() == self.mh,
                forall|y: int| 0 <= y < r ==> (#[trigger] self@[y]).len() == self.mw,
            decreases self.mh - r,
        {
            if self.fld[r].len() != self.mw as usize {
                assert(self@[r as int].len() != self.mw);
                return false;
            }
            r += 1;
        }
        true
    }

    /// Whether the border is wall and nothing else is.
    pub fn is_fenced(&self) -> (b: bool)
        requires
            self.wf(),
        ensures
            b == fenced(self@),
    {
        let mut r: u16 = 0;
        while r < self.mh
            invariant
                r <= self.mh,
                self.wf(),
                forall|x: int, y: int|
                    0 <= y < r && 0 <= x < self.mw ==> (if on_border(self@, x, y) {
                        #[trigger] self@[y][x] == WALL
                    } else {
                        kind(self@[y][x]) != 1
                    }),
            decreases self.mh - r,
        {
            let mut c: u16 = 0;
            while c < self.mw
                invariant
                    r < self.mh,
                    c <= self.mw,
                    self.wf(),
                    forall|x: int, y: int|
                        (0 <= y < r && 0 <= x < self.mw) || (y == r && 0 <= x < c) ==> (if on_border(
                            self@,
                            x,
                            y,
                        ) {
                            #[trigger] self@[y][x] == WALL
                        } else {
                            kind(self@[y][x]) != 1
                        }),
                decreases self.mw - c,
            {
                let v: u8 = self.get_dot(c, r);
                if r == 0 || c == 0 || c == self.mw - 1 {
                    if v != WALL {
                        assert(inside(self@, c as int, r as int) && on_border(self@, c as int, r as int));
                        return false;
                    }
                } else {
                    assert((v >> 4 == 1) == (v & 0xf0 == 0x10)) by (bit_vector);
                    if v & 0xf0 == 0x10 {
                        assert(inside(self@, c as int, r as int) && !on_border(self@, c as int, r as int));
                        return false;
                    }
                }
                c += 1;
            }
            r += 1;
        }
        true
    }

    /// An empty field of `w` by `h` playable cells.
    pub fn new(w: u16, h: u16) -> (b: Self)
        requires
            w + 2 <= u16::MAX,
            h + 5 <= u16::MAX,
        ensures
            b.wf(),
            b.w == w,
            b.h == h,
            b@ == empty_grid(w + 2, h + 5),
    {
        let mw: u16 = w + 2;
        let mh: u16 = h + 5;
        let mut fld: Vec<Vec<u8>> = Vec::new();
        let mut r: u16 = 0;
        while r < mh
            invariant
                r <= mh,
                fld@.len() == r,
                forall|y: int| 0 <= y < r ==> (#[trigger] fld@[y])@ == Seq::new(mw as nat, |x: int| EMPTY),
            decreases mh - r,
        {
            let mut row: Vec<u8> = Vec::new();
            let mut c: u16 = 0;
            while c < mw
                invariant
                    c <= mw,
                    row@.len() == c,
                    forall|x: int| 0 <= x < c ==> #[trigger] row@[x] == EMPTY,
                decreases mw - c,
            {
                row.push(EMPTY);
                c += 1;
            }
            assert(row@ =~= Seq::new(mw as nat, |x: int| EMPTY));
            fld.push(row);
            r += 1;
        }
        let b = Board { w, h, mw, mh, fld };
        assert(b@ =~~= empty_grid(w + 2, h + 5));
        b
    }

    /// Empties every cell.
    pub fn clear_board(&mut self)
        ensures
            final(self)@ == cleared(old(self)@),
            final(self).w == old(self).w,
            final(self).h == old(self).h,
            final(self).mw == old(self).mw,
            final(self).mh == old(self).mh,
    {
        let rows: usize = self.fld.len();
        let mut r: usize = 0;
        while r < rows
            invariant
                r <= rows,
                rows == self.fld@.len(),
                self.fld@.len() == old(self).fld@.len(),
                self.w == old(self).w,
                self.h == old(self).h,
                self.mw == old(self).mw,
                self.mh == old(self).mh,
                forall|y: int| 0 <= y < rows ==> (#[trigger] self.fld@[y])@.len() == old(self).fld@[y]@.len(),
                forall|y: int, x: int| 0 <= y < r && 0 <= x < self.fld@[y]@.len() ==> #[trigger] self.fld@[y]@[x] == EMPTY,
            decreases rows - r,
        {
            let cols: usize = self.fld[r].len();
            let mut c: usize = 0;
            while c < cols
                invariant
                    r < rows,
                    c <= cols,
                    rows == self.fld@.len(),
                    cols == self.fld@[r as int]@.len(),
                    self.fld@.len() == old(self).fld@.len(),
                    self.w == old(self).w,
                    self.h == old(self).h,
                    self.mw == old(self).mw,
                    self.mh == old(self).mh,
                    forall|y: int| 0 <= y < rows ==> (#[trigger] self.fld@[y])@.len() == old(self).fld@[y]@.len(),
                    forall|y: int, x: int| 0 <= y < r && 0 <= x < self.fld@[y]@.len() ==> #[trigger] self.fld@[y]@[x] == EMPTY,
                    forall|x: int| 0 <= x < c ==> #[trigger] self.fld@[r as int]@[x] == EMPTY,
                decreases cols - c,
            {
                self.fld[r][c] = EMPTY;
                c += 1;
            }
            r += 1;
        }
        assert(self@ =~~= cleared(old(self)@));
    }

    /// The write request that shows the cell at column `c` of row `r`: two
    /// terminal columns per cell, the top row of the buffer on terminal row
    /// 2, and the colors at twice the color nibble and one above.
    pub open spec fn packet_at<'a>(&self, c: int, r: int, msg: &'a String) -> Packet<'a> {
        Packet {
            x: (2 + c * 2) as u16,
            y: (2 + self.mh - 1 - r) as u16,
            st: 3,
            bgc: (color(self@[r][c]) * 2) as u16,
            fgc: (color(self@[r][c]) * 2 + 1) as u16,
            msg,
        }
    }

    /// The write request that shows the cell at column `c` of row `r` with
    /// the text `msg`. Its color indices lie below 32.
    pub fn cell_packet<'a>(&self, c: u16, r: u16, msg: &'a String) -> (p: Packet<'a>)
        requires
            self.wf(),
            c < self.mw,
            r < self.mh,
            2 * self.mw <= u16::MAX,
            self.mh + 2 <= u16::MAX,
        ensures
            p == self.packet_at(c as int, r as int, msg),
            p.fgc == p.bgc + 1,
            p.fgc < 32,
    {
        let x: u16 = 2 + c * 2;
        let y: u16 = 2 + self.mh - 1 - r;
        let cell: u8 = self.get_dot(c, r);
        assert(cell & 0x0f < 16) by (bit_vector);
        let bgc: u16 = (cell & 0x0f) as u16 * 2;
        let fgc: u16 = bgc + 1;
        Packet { x, y, st: 3, bgc, fgc, msg }
    }

    /// The write requests of a full refresh, one for each cell of the
    /// buffer, row by row from the bottom row and within a row from the
    /// first column, each with the text `msg`.
    pub fn display_board<'a>(&self, msg: &'a String) -> (v: Vec<Packet<'a>>)
        requires
            self.wf(),
            2 * self.mw <= u16::MAX,
            self.mh + 2 <= u16::MAX,
        ensures
            v@.len() == self.mh * self.mw,
            forall|r: int, c: int|
                0 <= r < self.mh && 0 <= c < self.mw ==> v@[r * self.mw + c] == #[trigger] self.packet_at(
                    c,
                    r,
                    msg,
                ),
    {
        let mw: u16 = self.mw;
        let mh: u16 = self.mh;
        let mut v: Vec<Packet<'a>> = Vec::new();
        let mut r: u16 = 0;
        while r < mh
            invariant
                r <= mh,
                self.wf(),
                mw == self.mw,
                mh == self.mh,
                2 * self.mw <= u16::MAX,
                self.mh + 2 <= u16::MAX,
                v@.len() == r * mw,
                forall|rr: int, cc: int|
                    0 <= rr < r && 0 <= cc < mw ==> v@[rr * mw + cc] == #[trigger] self.packet_at(cc, rr, msg),
            decreases mh - r,
        {
            let mut c: u16 = 0;
            while c < mw
                invariant
                    r < mh,
                    c <= mw,
                    self.wf(),
                    mw == self.mw,
                    mh == self.mh,
                    2 * self.mw <= u16::MAX,
                    self.mh + 2 <= u16::MAX,
                    v@.len() == r * mw + c,
                    forall|rr: int, cc: int|
                        0 <= rr < r && 0 <= cc < mw ==> v@[rr * mw + cc] == #[trigger] self.packet_at(
                            cc,
                            rr,
                            msg,
                        ),
                    forall|cc: int| 0 <= cc < c ==> v@[r * mw + cc] == #[trigger] self.packet_at(cc, r as int, msg),
                decreases mw - c,
            {
                let p: Packet<'a> = self.cell_packet(c, r, msg);
                let ghost before = v@;
                v.push(p);
                proof {
                    assert forall|rr: int, cc: int| 0 <= rr < r && 0 <= cc < mw implies v@[rr * mw + cc]
                        == #[trigger] self.packet_at(cc, rr, msg) by {
                        lemma_row_major(rr, cc, r as int, mw as int);
                        assert(before[rr * mw + cc] == self.packet_at(cc, rr, msg));
                    }
                }
                c += 1;
            }
            proof {
                assert((r + 1) * mw == r * mw + mw) by (nonlinear_arith);
            }
            r += 1;
        }
        v
    }

    /// The cell at column `x` of row `y`.
    pub fn get_dot(&self, x: u16, y: u16) -> (cell: u8)
        requires
            inside(self@, x as int, y as int),
        ensures
            cell == self@[y as int][x as int],
    {
        self.fld[y as usize][x as usize]
    }

    /// Overwrites the cell at column `x` of row `y` with kind `f` and color `c`.
    pub fn draw_dot(&mut self, x: u16, y: u16, f: u8, c: u8)
        requires
            inside(old(self)@, x as int, y as int),
        ensures
            final(self)@ == with_cell(old(self)@, x as int, y as int, pack(f, c)),
            final(self).w == old(self).w,
            final(self).h == old(self).h,
            final(self).mw == old(self).mw,
            final(self).mh == old(self).mh,
    {
        self.fld[y as usize][x as usize] = (f << 4) | c;
        assert(self@ =~~= with_cell(old(self)@, x as int, y as int, pack(f, c)));
    }

    /// Paints the border: the first and the last column, and the bottom row.
    pub fn draw_box(&mut self)
        requires
            old(self).wf(),
        ensures
            final(self).wf(),
            final(self)@ == walled(old(self)@),
            boxed(final(self)@),
            final(self).w == old(self).w,
            final(self).h == old(self).h,
    {
        let mw: u16 = self.mw;
        let mh: u16 = self.mh;
        let mut r: u16 = 0;
        while r < mh
            invariant
                r <= mh,
                self.wf(),
                mw == self.mw,
                mh == self.mh,
                self.w == old(self).w,
                self.h == old(self).h,
                forall|x: int, y: int|
                    0 <= y < mh && 0 <= x < mw ==> #[trigger] self@[y][x] == (if y < r && (x == 0 || x == mw
                        - 1) {
                        WALL
                    } else {
                        old(self)@[y][x]
                    }),
            decreases mh - r,
        {
            self.draw_dot(0, r, 1, 1);
            self.draw_dot(mw - 1, r, 1, 1);
            assert(pack(1, 1) == WALL) by (bit_vector);
            r += 1;
        }
        let mut c: u16 = 0;
        while c < mw
            invariant
                c <= mw,
                self.wf(),
                mw == self.mw,
                mh == self.mh,
                self.w == old(self).w,
                self.h == old(self).h,
                forall|x: int, y: int|
                    0 <= y < mh && 0 <= x < mw ==> #[trigger] self@[y][x] == (if x == 0 || x == mw - 1 || (y
                        == 0 && x < c) {
                        WALL
                    } else {
                        old(self)@[y][x]
                    }),
            decreases mw - c,
        {
            self.draw_dot(c, 0, 1, 1);
            assert(pack(1, 1) == WALL) by (bit_vector);
            c += 1;
        }
        assert(self@ =~~= walled(old(self)@));
    }

    /// Copies the cell at `(srcx, srcy)` onto the cell at `(dstx, dsty)`.
    pub fn draw_dot_copy(&mut self, dstx: u16, dsty: u16, srcx: u16, srcy: u16)
        requires
            inside(old(self)@, dstx as int, dsty as int),
            inside(old(self)@, srcx as int, srcy as int),
        ensures
            final(self)@ == with_cell(
                old(self)@,
                dstx as int,
                dsty as int,
                old(self)@[srcy as int][srcx as int],
            ),
            final(self).w == old(self).w,
            final(self).h == old(self).h,
            final(self).mw == old(self).mw,
            final(self).mh == old(self).mh,
    {
        let p: u8 = self.get_dot(srcx, srcy);
        proof {
            lemma_pack_nibbles(p);
        }
        self.draw_dot(dstx, dsty, (p & 0xf0) >> 4, p & 0x0f);
    }
}

} // verus!
