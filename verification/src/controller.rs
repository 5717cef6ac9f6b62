//! The session as its surroundings drive it: keys, gravity ticks, and what
//! the surrounding loop is to do next.

use vstd::prelude::*;

use crate::model::Model;
use crate::model::board::{cleared, fenced, walled};
use crate::model::place::put;
use crate::model::step::{key_target, shift, spawn_stat, tick};
use crate::packet::Packet;
use crate::stat::Stat;

verus! {

/// A key, as far as the game tells keys apart.
#[derive(Clone, Copy, Debug, PartialEq, Eq)]
pub enum Key {
    /// the left arrow
    Left,
    /// the right arrow
    Right,
    /// the up arrow
    Up,
    /// the down arrow
    Down,
    /// the escape key
    Esc,
    /// a key that stands for a character
    Char(char),
    /// any other key
    Other,
}

/// A key event: the key, whether it went down, and whether Alt alone or
/// Control alone was held with it.
#[derive(Clone, Copy, Debug, PartialEq, Eq)]
pub struct KeyPress {
    /// the key went down; it was not released or repeated
    pub pressed: bool,
    /// the key
    pub code: Key,
    /// the modifiers held were exactly Alt
    pub alt: bool,
    /// the modifiers held were exactly Control
    pub control: bool,
}

/// What the loop around the session does after an event.
#[derive(Clone, Copy, Debug, PartialEq, Eq)]
pub enum Next {
    /// leave the loop
    Stop,
    /// go on
    Go,
    /// go on, and count the fall interval from now
    Restart,
    /// go on, and set the start of the running fall interval back by one
    /// interval, so that the next timeout brings a gravity tick
    Rewind,
}

/// The number under which the session knows the key: 1 for left or `h`,
/// 2 for right or `l`, 3 for up or `k`, 4 for down or `j`, 0 for space.
pub open spec fn key_number(code: Key) -> Option<u8> {
    match code {
        Key::Left => Some(1u8),
        Key::Right => Some(2u8),
        Key::Up => Some(3u8),
        Key::Down => Some(4u8),
        Key::Char(c) => if c == 'h' {
            Some(1u8)
        } else if c == 'l' {
            Some(2u8)
        } else if c == 'k' {
            Some(3u8)
        } else if c == 'j' {
            Some(4u8)
        } else if c == ' ' {
            Some(0u8)
        } else {
            None
        },
        _ => None,
    }
}

/// The key event asks to leave the game: `q`, escape, Control with `c` or
/// Alt with `x`, going down.
pub open spec fn quits(k: KeyPress) -> bool {
    k.pressed && match k.code {
        Key::Esc => true,
        Key::Char(c) => c == 'q' || c == '\x1b' || (c == 'x' && k.alt) || (c == 'c' && k.control),
        _ => false,
    }
}

/// The session after the key event `k`, as grid and live piece.
pub open spec fn after_key(g: Seq<Seq<u8>>, s: Stat, k: KeyPress) -> (Seq<Seq<u8>>, Stat) {
    if k.pressed && key_number(k.code) is Some && 1 <= key_number(k.code)->0 <= 3 {
        shift(g, s, key_target(s, key_number(k.code)->0))
    } else {
        (g, s)
    }
}

/// The key event asks for a drop: down, `j` or space, going down.
pub open spec fn drops(k: KeyPress) -> bool {
    k.pressed && (key_number(k.code) == Some(0u8) || key_number(k.code) == Some(4u8))
}

/// A fall interval has passed: the time since it began is known and is no
/// shorter than the interval.
pub open spec fn due(elapsed: Option<u128>, interval: u128) -> bool {
    elapsed is Some && elapsed->0 >= interval
}

/// A session: the game and its live piece.
pub struct Controller {
    /// the game
    pub m: Model,
    /// the live piece
    pub current: Stat,
}

impl Controller {
    /// A session is under way: the fence stands and the live piece is on
    /// the grid.
    pub open spec fn live(&self) -> bool {
        self.m.live(self.current)
    }

    /// `new` is what a gravity tick answering `ret` makes of `self`, for
    /// some piece that may enter.
    pub open spec fn ticks_to(&self, new: Controller, ret: u16) -> bool {
        &&& exists|rotate: u8, typ: u8|
            rotate < 4 && 1 <= typ < 8 && (new.m.b@, new.current, ret) == #[trigger] tick(
                self.m.b@,
                self.current,
                spawn_stat(self.m.b.w, self.m.b.h, rotate, typ),
                self.m.b.h as int,
            )
        &&& new.m.f == (if ret == 2 { 0 } else { self.m.f })
        &&& new.m.b.w == self.m.b.w
        &&& new.m.b.h == self.m.b.h
        &&& new.m.minos == self.m.minos
    }

    /// Whether a session is under way.
    pub fn is_live(&self) -> (b: bool)
        ensures
            b == self.live(),
    {
        self.m.is_live(&self.current)
    }

    /// A session around the game `m`, not yet begun.
    pub fn new(m: Model) -> (c: Self)
        ensures
            c.m == m,
            c.current == (Stat { x: 0, y: 0, rotate: 0, typ: 0 }),
    {
        Controller { m, current: Stat::new(0, 0, 0, 0) }
    }

    /// Begins the game: an empty walled grid and a random first piece at the
    /// entry, which stands there if it fits.
    pub fn init(&mut self)
        requires
            old(self).m.wf(),
        ensures
            final(self).m.wf(),
            fenced(final(self).m.b@),
            final(self).current.rotate < 4,
            1 <= final(self).current.typ < 8,
            final(self).current == spawn_stat(
                old(self).m.b.w,
                old(self).m.b.h,
                final(self).current.rotate,
                final(self).current.typ,
            ),
            final(self).m.b@ == put(walled(cleared(old(self).m.b@)), final(self).current, 0).0,
            old(self).m.b.w >= 4 && old(self).m.b.h >= 1 ==> final(self).live(),
            final(self).m.b.w == old(self).m.b.w,
            final(self).m.b.h == old(self).m.b.h,
            final(self).m.minos == old(self).m.minos,
            final(self).m.f == old(self).m.f,
    {
        self.m.init_board(&mut self.current);
    }

    /// The write requests that draw the grid as it stands, one for each
    /// cell, each with the text `msg`.
    pub fn refresh<'a>(&self, msg: &'a String) -> (v: Vec<Packet<'a>>)
        requires
            self.m.b.wf(),
            2 * self.m.b.mw <= u16::MAX,
            self.m.b.mh + 2 <= u16::MAX,
        ensures
            v@.len() == self.m.b.mh * self.m.b.mw,
            forall|r: int, c: int|
                0 <= r < self.m.b.mh && 0 <= c < self.m.b.mw ==> v@[r * self.m.b.mw + c]
                    == #[trigger] self.m.b.packet_at(c, r, msg),
    {
        self.m.b.display_board(msg)
    }

    /// The write requests that draw the grid a last time when the game is
    /// left: those of a refresh.
    pub fn fin<'a>(&self, msg: &'a String) -> (v: Vec<Packet<'a>>)
        requires
            self.m.b.wf(),
            2 * self.m.b.mw <= u16::MAX,
            self.m.b.mh + 2 <= u16::MAX,
        ensures
            v@.len() == self.m.b.mh * self.m.b.mw,
            forall|r: int, c: int|
                0 <= r < self.m.b.mh && 0 <= c < self.m.b.mw ==> v@[r * self.m.b.mw + c]
                    == #[trigger] self.m.b.packet_at(c, r, msg),
    {
        self.refresh(msg)
    }

    /// A gravity tick. Answers whether the game goes on: `false` when the
    /// piece locked and the next one could not enter.
    pub fn proc_idle(&mut self) -> (go: bool)
        requires
            old(self).live(),
        ensures
            final(self).m.wf(),
            fenced(final(self).m.b@),
            exists|ret: u16| old(self).ticks_to(*final(self), ret) && go == (ret != 1),
            go ==> final(self).live(),
    {
        let ret: u16 = self.m.down_mino(&mut self.current);
        proof {
            assert(0u16 & 0x01 == 0) by (bit_vector);
            assert(1u16 & 0x01 == 1) by (bit_vector);
            assert(2u16 & 0x01 == 0) by (bit_vector);
            assert(old(self).ticks_to(*self, ret));
        }
        ret & 0x01 == 0
    }

    /// The number under which the session knows the key, if it knows it.
    pub fn number(code: Key) -> (n: Option<u8>)
        ensures
            n == key_number(code),
    {
        match code {
            Key::Left => Some(1),
            Key::Right => Some(2),
            Key::Up => Some(3),
            Key::Down => Some(4),
            Key::Char(c) => {
                if c == 'h' {
                    Some(1)
                } else if c == 'l' {
                    Some(2)
                } else if c == 'k' {
                    Some(3)
                } else if c == 'j' {
                    Some(4)
                } else if c == ' ' {
                    Some(0)
                } else {
                    None
                }
            },
            _ => None,
        }
    }

    /// One key event. A key that goes down and that the session knows is
    /// handed to it: left, right and up move or turn the piece if it fits.
    /// Answers `true` only for a key that asks for a drop.
    pub fn key(&mut self, k: KeyPress) -> (handled: bool)
        requires
            old(self).live(),
        ensures
            final(self).live(),
            handled == drops(k),
            (final(self).m.b@, final(self).current) == after_key(old(self).m.b@, old(self).current, k),
            final(self).m.f == (if drops(k) { 1 } else { old(self).m.f }),
            final(self).m.b.w == old(self).m.b.w,
            final(self).m.b.h == old(self).m.b.h,
            final(self).m.minos == old(self).m.minos,
    {
        if !k.pressed {
            return false;
        }
        match Self::number(k.code) {
            Some(n) => self.m.proc_key(&mut self.current, n) != 0,
            None => false,
        }
    }

    /// The delay that the fall flag asks for: 1 when it is clear, 21 when a
    /// drop was asked for.
    pub fn speed(&self) -> (v: u32)
        requires
            self.m.f * 20 + 1 <= u32::MAX,
        ensures
            v == self.m.f * 20 + 1,
    {
        self.m.f * 20 + 1
    }

    /// Whether the key event asks to leave the game.
    pub fn is_quit(k: &KeyPress) -> (q: bool)
        ensures
            q == quits(*k),
    {
        if !k.pressed {
            return false;
        }
        match k.code {
            Key::Esc => true,
            Key::Char(c) => c == 'q' || c == '\x1b' || (c == 'x' && k.alt) || (c == 'c' && k.control),
            _ => false,
        }
    }

    /// A key event in the loop around the session. A key that asks to leave
    /// stops the loop and leaves the session alone. Any other key goes to
    /// the session; after one that asks for a drop the fall interval is
    /// rewound.
    pub fn on_key(&mut self, k: KeyPress) -> (next: Next)
        requires
            old(self).live(),
        ensures
            final(self).live(),
            quits(k) ==> next is Stop && *final(self) == *old(self),
            !quits(k) ==> {
                &&& (next is Rewind) == drops(k)
                &&& (next is Go) == !drops(k)
                &&& (final(self).m.b@, final(self).current) == after_key(
                    old(self).m.b@,
                    old(self).current,
                    k,
                )
                &&& final(self).m.f == (if drops(k) { 1 } else { old(self).m.f })
                &&& final(self).m.b.w == old(self).m.b.w
                &&& final(self).m.b.h == old(self).m.b.h
                &&& final(self).m.minos == old(self).m.minos
            },
    {
        if Self::is_quit(&k) {
            return Next::Stop;
        }
        if self.key(k) {
            Next::Rewind
        } else {
            Next::Go
        }
    }

    /// A timeout in the loop around the session, `elapsed` after the fall
    /// interval began, if that is known. When the interval has passed a
    /// gravity tick is made: the loop stops if the game is lost and counts
    /// the next interval from now if it is not. Before that nothing happens.
    pub fn on_timeout(&mut self, elapsed: Option<u128>, interval: u128) -> (next: Next)
        requires
            old(self).live(),
        ensures
            final(self).m.wf(),
            fenced(final(self).m.b@),
            !due(elapsed, interval) ==> next is Go && *final(self) == *old(self),
            due(elapsed, interval) ==> (next is Stop || next is Restart) && exists|ret: u16|
                old(self).ticks_to(*final(self), ret) && (next is Stop) == (ret == 1),
            !(next is Stop) ==> final(self).live(),
    {
        match elapsed {
            Some(n) => {
                if n >= interval {
                    if self.proc_idle() {
                        Next::Restart
                    } else {
                        Next::Stop
                    }
                } else {
                    Next::Go
                }
            },
            None => Next::Go,
        }
    }
}

} // verus!
