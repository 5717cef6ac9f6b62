//! The write request that the renderer takes.

use vstd::prelude::*;

verus! {

/// One write request: a text at a terminal position, with a style and the
/// palette indices of its background and foreground colors.
pub struct Packet<'a> {
    /// terminal column
    pub x: u16,
    /// terminal row
    pub y: u16,
    /// style bits
    pub st: u16,
    /// palette index of the background color
    pub bgc: u16,
    /// palette index of the foreground color
    pub fgc: u16,
    /// the text
    pub msg: &'a String,
}

impl<'a> Packet<'a> {
    /// The five numbers of the request: column, row, style, background and
    /// foreground.
    pub fn to_vec(&self) -> (v: Vec<u16>)
        ensures
            v@ == seq![self.x, self.y, self.st, self.bgc, self.fgc],
    {
        let mut v: Vec<u16> = Vec::new();
        v.push(self.x);
        v.push(self.y);
        v.push(self.st);
        v.push(self.bgc);
        v.push(self.fgc);
        assert(v@ =~= seq![self.x, self.y, self.st, self.bgc, self.fgc]);
        v
    }

    /// The text as UTF-8 bytes.
    pub fn as_bytes(&self) -> (b: &[u8])
        ensures
            b@ == vstd::utf8::encode_utf8(self.msg@),
    {
        self.msg.as_str().as_bytes()
    }

    /// The text.
    pub fn as_str(&self) -> (t: &str)
        ensures
            t@ == self.msg@,
    {
        self.msg.as_str()
    }
}

} // verus!
