//! The piece shapes and their rotation.

use vstd::prelude::*;

verus! {

/// An offset from the pivot of a piece.
#[derive(Clone, Copy, Debug, PartialEq, Eq)]
pub struct Pos {
    /// columns to the right of the pivot
    pub x: i16,
    /// rows above the pivot
    pub y: i16,
}

impl Pos {
    /// The offset `(x, y)`.
    pub fn new(x: i16, y: i16) -> (p: Self)
        ensures
            p.x == x,
            p.y == y,
    {
        Pos { x, y }
    }
}

/// How many quarter turns bring shape `typ` back to where it began.
pub open spec fn period(typ: int) -> int {
    if typ == 0 || typ == 6 {
        1
    } else if typ == 1 || typ == 4 || typ == 5 {
        2
    } else {
        4
    }
}

/// The `i`-th of the three cells that shape `typ` has beside its pivot,
/// before any turn. Shape 0 is the placeholder that is never spawned.
pub open spec fn offset(typ: int, i: int) -> (int, int) {
    if typ == 1 {
        if i == 0 { (0, -1) } else if i == 1 { (0, 1) } else { (0, 2) }
    } else if typ == 2 {
        if i == 0 { (0, -1) } else if i == 1 { (0, 1) } else { (1, 1) }
    } else if typ == 3 {
        if i == 0 { (0, -1) } else if i == 1 { (0, 1) } else { (-1, 1) }
    } else if typ == 4 {
        if i == 0 { (0, -1) } else if i == 1 { (1, 0) } else { (1, 1) }
    } else if typ == 5 {
        if i == 0 { (0, -1) } else if i == 1 { (-1, 0) } else { (-1, 1) }
    } else if typ == 6 {
        if i == 0 { (0, 1) } else if i == 1 { (1, 0) } else { (1, 1) }
    } else if typ == 7 {
        if i == 0 { (0, -1) } else if i == 1 { (1, 0) } else { (-1, 0) }
    } else {
        (0, 0)
    }
}

/// The offset `p` after `n` quarter turns, each taking `(dx, dy)` to `(dy, -dx)`.
pub open spec fn turn(p: (int, int), n: nat) -> (int, int)
    decreases n,
{
    if n == 0 {
        p
    } else {
        turn((p.1, -p.0), (n - 1) as nat)
    }
}

/// The `i`-th offset of shape `typ` when the rotation counter stands at
/// `count`: the counter is taken modulo the period of the shape.
pub open spec fn rotate_offset(typ: int, i: int, count: int) -> (int, int) {
    turn(offset(typ, i), (count % period(typ)) as nat)
}

/// The first four quarter turns written out; the fourth is the identity.
pub proof fn lemma_turn_cases(p: (int, int))
    ensures
        turn(p, 0) == p,
        turn(p, 1) == (p.1, -p.0),
        turn(p, 2) == (-p.0, -p.1),
        turn(p, 3) == (-p.1, p.0),
        turn(p, 4) == p,
{
    reveal_with_fuel(turn, 5);
}

/// Turning a shape as many times as its period says brings every offset back.
pub proof fn lemma_rotation_closure(typ: int, i: int, count: int)
    requires
        0 <= count,
    ensures
        rotate_offset(typ, i, count + period(typ)) == rotate_offset(typ, i, count),
{
    let p = period(typ);
    assert((count + p) % p == count % p) by {
        if p == 1 {
        } else if p == 2 {
        } else {
            assert(p == 4);
        }
    }
}

/// A rotation counter that wraps at 256 turns the shape as one that does not.
pub proof fn lemma_rotation_wraps(typ: int, i: int, count: int)
    requires
        0 <= count,
    ensures
        rotate_offset(typ, i, count % 256) == rotate_offset(typ, i, count),
{
    let p = period(typ);
    assert((count % 256) % p == count % p) by {
        if p == 1 {
        } else if p == 2 {
        } else {
            assert(p == 4);
        }
    }
}

/// Every offset of every shape, however turned, stays within two cells of
/// the pivot; only the straight shape reaches the second cell, upward or to
/// the right.
pub proof fn lemma_reach(typ: int, i: int, count: int)
    requires
        0 <= i < 3,
        0 <= count,
    ensures
        -1 <= rotate_offset(typ, i, count).0 <= 2,
        -1 <= rotate_offset(typ, i, count).1 <= 2,
{
    let p = period(typ);
    let n = count % p;
    assert(0 <= n < p);
    lemma_turn_cases(offset(typ, i));
}

/// One piece shape: its rotation period and the three cells beside the pivot.
pub struct Mino {
    /// rotation period
    pub rotate: u8,
    /// the three offsets from the pivot
    pub pos: Vec<Pos>,
}

impl Mino {
    /// The shape can be turned: its period is 1, 2 or 4, it has three
    /// offsets, and each can be negated.
    pub open spec fn wf(&self) -> bool {
        &&& (self.rotate == 1 || self.rotate == 2 || self.rotate == 4)
        &&& self.pos@.len() == 3
        &&& forall|i: int| 0 <= i < 3 ==> i16::MIN < (#[trigger] self.pos@[i]).x
        &&& forall|i: int| 0 <= i < 3 ==> i16::MIN < (#[trigger] self.pos@[i]).y
    }

    /// The `i`-th offset as a pair of integers.
    pub open spec fn at(&self, i: int) -> (int, int) {
        (self.pos@[i].x as int, self.pos@[i].y as int)
    }

    /// This is shape `typ` of the catalog.
    pub open spec fn is_shape(&self, typ: int) -> bool {
        &&& self.rotate == period(typ)
        &&& self.pos@.len() == 3
        &&& forall|i: int| 0 <= i < 3 ==> self.at(i) == #[trigger] offset(typ, i)
    }

    /// A shape with period `rotate` and the offsets `p`, each given as `[x, y]`.
    pub fn new(rotate: u8, p: [[i16; 2]; 3]) -> (m: Self)
        ensures
            m.rotate == rotate,
            m.pos@.len() == 3,
            forall|i: int| 0 <= i < 3 ==> m.at(i) == (p@[i]@[0] as int, p@[i]@[1] as int),
    {
        let mut pos: Vec<Pos> = Vec::new();
        let mut i: usize = 0;
        while i < 3
            invariant
                i <= 3,
                pos@.len() == i,
                forall|j: int| 0 <= j < i ==> (#[trigger] pos@[j]).x == p@[j]@[0] && pos@[j].y == p@[j]@[1],
            decreases 3 - i,
        {
            pos.push(Pos { x: p[i][0], y: p[i][1] });
            i += 1;
        }
        Mino { rotate, pos }
    }

    /// The catalog: the placeholder at index 0, then the seven shapes.
    pub fn gen_minos() -> (v: Vec<Mino>)
        ensures
            v@.len() == 8,
            forall|typ: int| 0 <= typ < 8 ==> (#[trigger] v@[typ]).is_shape(typ),
    {
        let mut v: Vec<Mino> = Vec::new();
        v.push(Mino::new(1, [[0, 0], [0, 0], [0, 0]]));
        v.push(Mino::new(2, [[0, -1], [0, 1], [0, 2]]));
        v.push(Mino::new(4, [[0, -1], [0, 1], [1, 1]]));
        v.push(Mino::new(4, [[0, -1], [0, 1], [-1, 1]]));
        v.push(Mino::new(2, [[0, -1], [1, 0], [1, 1]]));
        v.push(Mino::new(2, [[0, -1], [-1, 0], [-1, 1]]));
        v.push(Mino::new(1, [[0, 1], [1, 0], [1, 1]]));
        v.push(Mino::new(4, [[0, -1], [1, 0], [-1, 0]]));
        v
    }

    /// The period of shape `typ` of the catalog.
    pub fn period_of(typ: u8) -> (p: u8)
        ensures
            p == period(typ as int),
    {
        if typ == 0 || typ == 6 {
            1
        } else if typ == 1 || typ == 4 || typ == 5 {
            2
        } else {
            4
        }
    }

    /// The `i`-th offset of shape `typ` of the catalog, before any turn.
    pub fn offset_of(typ: u8, i: usize) -> (d: (i16, i16))
        ensures
            (d.0 as int, d.1 as int) == offset(typ as int, i as int),
    {
        if typ == 1 {
            if i == 0 { (0, -1) } else if i == 1 { (0, 1) } else { (0, 2) }
        } else if typ == 2 {
            if i == 0 { (0, -1) } else if i == 1 { (0, 1) } else { (1, 1) }
        } else if typ == 3 {
            if i == 0 { (0, -1) } else if i == 1 { (0, 1) } else { (-1, 1) }
        } else if typ == 4 {
            if i == 0 { (0, -1) } else if i == 1 { (1, 0) } else { (1, 1) }
        } else if typ == 5 {
            if i == 0 { (0, -1) } else if i == 1 { (-1, 0) } else { (-1, 1) }
        } else if typ == 6 {
            if i == 0 { (0, 1) } else if i == 1 { (1, 0) } else { (1, 1) }
        } else if typ == 7 {
            if i == 0 { (0, -1) } else if i == 1 { (1, 0) } else { (-1, 0) }
        } else {
            (0, 0)
        }
    }

    /// Whether this is shape `typ` of the catalog.
    pub fn has_shape(&self, typ: u8) -> (b: bool)
        ensures
            b == self.is_shape(typ as int),
    {
        if self.rotate != Self::period_of(typ) || self.pos.len() != 3 {
            return false;
        }
        let mut i: usize = 0;
        while i < 3
            invariant
                i <= 3,
                self.pos@.len() == 3,
                self.rotate == period(typ as int),
                forall|j: int| 0 <= j < i ==> self.at(j) == #[trigger] offset(typ as int, j),
            decreases 3 - i,
        {
            let d: (i16, i16) = Self::offset_of(typ, i);
            if self.pos[i].x != d.0 || self.pos[i].y != d.1 {
                assert(self.at(i as int) != offset(typ as int, i as int));
                return false;
            }
            i += 1;
        }
        true
    }

    /// The `i`-th offset after the quarter turns that the counter `count`
    /// stands for.
    pub fn rotate_offset(&self, i: usize, count: u8) -> (d: (i16, i16))
        requires
            self.wf(),
            i < 3,
        ensures
            (d.0 as int, d.1 as int) == turn(self.at(i as int), (count % self.rotate) as nat),
    {
        let q: &Pos = &self.pos[i];
        let r: u8 = count % self.rotate;
        proof {
            lemma_turn_cases(self.at(i as int));
        }
        if r == 0 {
            (q.x, q.y)
        } else if r == 1 {
            (q.y, -q.x)
        } else if r == 2 {
            (-q.x, -q.y)
        } else {
            (-q.y, q.x)
        }
    }
}

/// A shape of the catalog can be turned.
pub proof fn lemma_shape_wf(m: Mino, typ: int)
    requires
        0 <= typ < 8,
        m.is_shape(typ),
    ensures
        m.wf(),
{
    assert forall|i: int| 0 <= i < 3 implies i16::MIN < (#[trigger] m.pos@[i]).x && i16::MIN
        < m.pos@[i].y by {
        assert(m.at(i) == offset(typ, i));
    }
}

} // verus!
