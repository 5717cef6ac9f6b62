//! Line clearing: which rows are full, and what the grid holds once they
//! are taken out.

use vstd::prelude::*;

use crate::model::board::{EMPTY, WALL, fenced, inside, kind, on_border, rect, same_shape};

verus! {

/// The playable part of a physical row: all but its first and its last cell.
pub open spec fn inner(row: Seq<u8>) -> Seq<u8> {
    row.subrange(1, row.len() - 1)
}

/// The playable part of every row of `g` above the bottom wall, from the
/// lowest row up.
pub open spec fn interior(g: Seq<Seq<u8>>) -> Seq<Seq<u8>> {
    Seq::new((g.len() - 1) as nat, |i: int| inner(g[i + 1]))
}

/// The grid `g` with the rows `rows` in place of its interior; the bottom
/// row and the first and last columns are those of `g`.
pub open spec fn with_interior(g: Seq<Seq<u8>>, rows: Seq<Seq<u8>>) -> Seq<Seq<u8>> {
    Seq::new(
        g.len(),
        |y: int|
            Seq::new(
                g[y].len(),
                |x: int|
                    if 1 <= y && 1 <= x < g[y].len() - 1 {
                        rows[y - 1][x - 1]
                    } else {
                        g[y][x]
                    },
            ),
    )
}

/// No cell of the row is empty.
pub open spec fn full(row: Seq<u8>) -> bool {
    forall|x: int| 0 <= x < row.len() ==> #[trigger] row[x] != EMPTY
}

/// A row of `w` empty cells.
pub open spec fn blank(w: nat) -> Seq<u8> {
    Seq::new(w, |x: int| EMPTY)
}

/// The rows `rows` after line clearing, when `kept` rows already lie below
/// them and the playable area is `h` rows high. A full row that would come
/// to lie in the playable area disappears: the rows above it come down by
/// one and an empty row enters at the top. Every other row stays, in order.
pub open spec fn settle(rows: Seq<Seq<u8>>, kept: int, h: int) -> Seq<Seq<u8>>
    decreases rows.len(),
{
    if rows.len() == 0 {
        rows
    } else if kept < h && full(rows[0]) {
        settle(rows.drop_first(), kept, h).push(blank(rows[0].len()))
    } else {
        seq![rows[0]] + settle(rows.drop_first(), kept + 1, h)
    }
}

/// How many rows line clearing removes from `rows`.
pub open spec fn cleared_lines(rows: Seq<Seq<u8>>, kept: int, h: int) -> nat
    decreases rows.len(),
{
    if rows.len() == 0 {
        0
    } else if kept < h && full(rows[0]) {
        1 + cleared_lines(rows.drop_first(), kept, h)
    } else {
        cleared_lines(rows.drop_first(), kept + 1, h)
    }
}

/// The grid `g` after line clearing on a field `h` rows high.
pub open spec fn settled(g: Seq<Seq<u8>>, h: int) -> Seq<Seq<u8>> {
    with_interior(g, settle(interior(g), 0, h))
}

/// The grid `g` without the playable part of row `r`: from row `r` up each
/// playable cell takes what the cell above it held, and the top row becomes
/// empty.
pub open spec fn without_row(g: Seq<Seq<u8>>, r: int) -> Seq<Seq<u8>> {
    Seq::new(
        g.len(),
        |y: int|
            Seq::new(
                g[y].len(),
                |x: int|
                    if r <= y && 1 <= x < g[y].len() - 1 {
                        if y + 1 < g.len() {
                            g[y + 1][x]
                        } else {
                            EMPTY
                        }
                    } else {
                        g[y][x]
                    },
            ),
    )
}

/// Every row has `w` cells.
pub open spec fn rows_of_width(rows: Seq<Seq<u8>>, w: nat) -> bool {
    forall|i: int| 0 <= i < rows.len() ==> (#[trigger] rows[i]).len() == w
}

/// Two grids of one shape that agree on the bottom row and on the first and
/// last columns.
pub open spec fn same_frame(a: Seq<Seq<u8>>, b: Seq<Seq<u8>>) -> bool {
    &&& same_shape(a, b)
    &&& forall|x: int, y: int|
        inside(a, x, y) && !(1 <= y && 1 <= x < a[y].len() - 1) ==> #[trigger] b[y][x] == a[y][x]
}

/// Line clearing keeps the number of rows.
pub proof fn lemma_settle_len(rows: Seq<Seq<u8>>, kept: int, h: int)
    ensures
        settle(rows, kept, h).len() == rows.len(),
    decreases rows.len(),
{
    if rows.len() > 0 {
        if kept < h && full(rows[0]) {
            lemma_settle_len(rows.drop_first(), kept, h);
        } else {
            lemma_settle_len(rows.drop_first(), kept + 1, h);
        }
    }
}

/// Line clearing keeps the width of the rows and removes no more rows than
/// there are.
pub proof fn lemma_settle_shape(rows: Seq<Seq<u8>>, kept: int, h: int, w: nat)
    requires
        rows_of_width(rows, w),
    ensures
        settle(rows, kept, h).len() == rows.len(),
        rows_of_width(settle(rows, kept, h), w),
        cleared_lines(rows, kept, h) <= rows.len(),
    decreases rows.len(),
{
    if rows.len() > 0 {
        if kept < h && full(rows[0]) {
            lemma_settle_shape(rows.drop_first(), kept, h, w);
        } else {
            lemma_settle_shape(rows.drop_first(), kept + 1, h, w);
        }
    }
}

/// Above the playable area nothing is cleared.
pub proof fn lemma_settle_done(rows: Seq<Seq<u8>>, kept: int, h: int)
    requires
        kept >= h,
    ensures
        settle(rows, kept, h) == rows,
        cleared_lines(rows, kept, h) == 0,
    decreases rows.len(),
{
    if rows.len() > 0 {
        lemma_settle_done(rows.drop_first(), kept + 1, h);
        assert(seq![rows[0]] + rows.drop_first() =~= rows);
    }
}

/// An empty row on top of the rows is still on top after line clearing.
pub proof fn lemma_settle_push(rows: Seq<Seq<u8>>, kept: int, h: int, w: nat)
    requires
        rows_of_width(rows, w),
        w >= 1,
    ensures
        settle(rows.push(blank(w)), kept, h) == settle(rows, kept, h).push(blank(w)),
        cleared_lines(rows.push(blank(w)), kept, h) == cleared_lines(rows, kept, h),
    decreases rows.len(),
{
    let e = blank(w);
    let more = rows.push(e);
    assert(!full(e)) by {
        assert(e[0] == EMPTY);
    }
    if rows.len() == 0 {
        assert(more.drop_first() =~= rows);
        assert(more[0] == e);
        assert(settle(more.drop_first(), kept + 1, h) =~= rows);
        assert(seq![e] + rows =~= rows.push(e));
        assert(cleared_lines(rows, kept + 1, h) == 0);
        assert(cleared_lines(rows, kept, h) == 0);
        assert(cleared_lines(more, kept, h) == cleared_lines(more.drop_first(), kept + 1, h));
    } else {
        let rest = rows.drop_first();
        assert(more.drop_first() =~= rest.push(e));
        assert(more[0] == rows[0]);
        if kept < h && full(rows[0]) {
            lemma_settle_push(rest, kept, h, w);
            assert(blank(rows[0].len()) == e);
        } else {
            lemma_settle_push(rest, kept + 1, h, w);
            assert(seq![rows[0]] + settle(rest, kept + 1, h).push(e) =~= (seq![rows[0]] + settle(
                rest,
                kept + 1,
                h,
            )).push(e));
        }
    }
}

/// Taking row `r` out of the grid takes it out of the interior and puts an
/// empty row on top; the frame stays.
pub proof fn lemma_without_row(g: Seq<Seq<u8>>, r: int, mw: int, mh: int)
    requires
        rect(g, mw, mh),
        mw >= 2,
        1 <= r < mh,
    ensures
        rect(without_row(g, r), mw, mh),
        same_frame(g, without_row(g, r)),
        interior(without_row(g, r)) == interior(g).remove(r - 1).push(blank((mw - 2) as nat)),
{
    let g2 = without_row(g, r);
    let a = interior(g2);
    let b = interior(g).remove(r - 1).push(blank((mw - 2) as nat));
    assert(a.len() == b.len());
    assert forall|i: int| 0 <= i < a.len() implies a[i] =~= b[i] by {
        assert(g2[i + 1].len() == mw);
        if i + 1 < r {
            assert(b[i] == inner(g[i + 1]));
        } else if i + 2 < mh {
            assert(b[i] == inner(g[i + 2]));
        } else {
        }
    }
    assert(a =~= b);
}

/// A grid is its own frame filled with its own interior.
pub proof fn lemma_with_interior(g: Seq<Seq<u8>>, g2: Seq<Seq<u8>>)
    requires
        same_frame(g, g2),
        g.len() >= 1,
    ensures
        g2 == with_interior(g, interior(g2)),
{
    assert(g2 =~~= with_interior(g, interior(g2)));
}

/// Rows below the lowest full row stay; the row that follows the lowest
/// full row takes its place when it is itself not full.
pub proof fn lemma_settle_below(rows: Seq<Seq<u8>>, kept: int, h: int, i: int)
    requires
        0 <= i,
        kept + i < h,
        i + 1 < rows.len(),
        forall|j: int| 0 <= j < i ==> !full(#[trigger] rows[j]),
        full(rows[i]),
        !full(rows[i + 1]),
    ensures
        settle(rows, kept, h).len() == rows.len(),
        settle(rows, kept, h)[i] == rows[i + 1],
        forall|j: int| 0 <= j < i ==> #[trigger] settle(rows, kept, h)[j] == rows[j],
    decreases i,
{
    let rest = rows.drop_first();
    lemma_settle_len(rows, kept, h);
    if i == 0 {
        lemma_settle_len(rest, kept, h);
        lemma_settle_len(rest.drop_first(), kept + 1, h);
        assert(rest[0] == rows[1]);
        assert(settle(rest, kept, h) == seq![rest[0]] + settle(rest.drop_first(), kept + 1, h));
    } else {
        assert(!full(rows[0]));
        assert forall|j: int| 0 <= j < i - 1 implies !full(#[trigger] rest[j]) by {
            assert(rest[j] == rows[j + 1]);
        }
        assert(rest[i - 1] == rows[i]);
        assert(rest[i] == rows[i + 1]);
        lemma_settle_below(rest, kept + 1, h, i - 1);
        let out = settle(rows, kept, h);
        assert(out == seq![rows[0]] + settle(rest, kept + 1, h));
        assert forall|j: int| 0 <= j < i implies #[trigger] out[j] == rows[j] by {
            if j > 0 {
                assert(out[j] == settle(rest, kept + 1, h)[j - 1]);
                assert(rest[j - 1] == rows[j]);
            }
        }
        assert(out[i] == settle(rest, kept + 1, h)[i - 1]);
    }
}

/// When the lowest full playable row has a row above it that is not full,
/// line clearing leaves in its place what that row above held.
pub proof fn lemma_cleared_row(rows: Seq<Seq<u8>>, i: int, h: int)
    requires
        0 <= i < h,
        i + 1 < rows.len(),
        forall|j: int| 0 <= j < i ==> !full(#[trigger] rows[j]),
        full(rows[i]),
        !full(rows[i + 1]),
    ensures
        settle(rows, 0, h)[i] == rows[i + 1],
        forall|j: int| 0 <= j < i ==> #[trigger] settle(rows, 0, h)[j] == rows[j],
{
    lemma_settle_below(rows, 0, h, i);
}

/// No cell of the row is a wall.
pub open spec fn open_row(row: Seq<u8>) -> bool {
    forall|x: int| 0 <= x < row.len() ==> kind(#[trigger] row[x]) != 1
}

/// Line clearing brings no wall into rows that hold none.
pub proof fn lemma_settle_open(rows: Seq<Seq<u8>>, kept: int, h: int)
    requires
        forall|i: int| 0 <= i < rows.len() ==> open_row(#[trigger] rows[i]),
    ensures
        settle(rows, kept, h).len() == rows.len(),
        forall|i: int| 0 <= i < rows.len() ==> open_row(#[trigger] settle(rows, kept, h)[i]),
    decreases rows.len(),
{
    if rows.len() > 0 {
        let rest = rows.drop_first();
        assert forall|i: int| 0 <= i < rest.len() implies open_row(#[trigger] rest[i]) by {
            assert(rest[i] == rows[i + 1]);
        }
        assert(kind(EMPTY) == 0) by (bit_vector);
        if kept < h && full(rows[0]) {
            lemma_settle_open(rest, kept, h);
            assert(open_row(blank(rows[0].len())));
        } else {
            lemma_settle_open(rest, kept + 1, h);
            assert(open_row(rows[0]));
        }
    }
}

/// Line clearing leaves the fence standing.
pub proof fn lemma_settled_keeps_fence(g: Seq<Seq<u8>>, h: int, mw: int, mh: int)
    requires
        rect(g, mw, mh),
        mw >= 2,
        mh >= 1,
        fenced(g),
    ensures
        fenced(settled(g, h)),
        rect(settled(g, h), mw, mh),
        same_shape(g, settled(g, h)),
{
    let rows = interior(g);
    let out = settle(rows, 0, h);
    let g2 = settled(g, h);
    assert forall|i: int| 0 <= i < rows.len() implies open_row(#[trigger] rows[i]) by {
        assert forall|x: int| 0 <= x < rows[i].len() implies kind(#[trigger] rows[i][x]) != 1 by {
            assert(rows[i][x] == g[i + 1][x + 1]);
            assert(inside(g, x + 1, i + 1) && !on_border(g, x + 1, i + 1));
        }
    }
    assert(rows_of_width(rows, (mw - 2) as nat));
    lemma_settle_open(rows, 0, h);
    lemma_settle_shape(rows, 0, h, (mw - 2) as nat);
    assert forall|x: int, y: int| inside(g2, x, y) && on_border(g2, x, y) implies #[trigger] g2[y][x]
        == WALL by {
        assert(g[y][x] == WALL);
    }
    assert forall|x: int, y: int| inside(g2, x, y) && !on_border(g2, x, y) implies kind(
        #[trigger] g2[y][x],
    ) != 1 by {
        assert(g2[y][x] == out[y - 1][x - 1]);
        assert(open_row(out[y - 1]));
    }
}

} // verus!
