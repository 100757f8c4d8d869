use crate::error::IoErrorKind;
use vstd::prelude::*;

verus! {

/// A random-access byte source: the bytes of one file, held in memory, and a
/// cursor. The cursor may stand past the end; reading there fails.
pub struct ByteSource {
    data: Vec<u8>,
    pos: u64,
}

impl ByteSource {
    /// The bytes of the source.
    pub closed spec fn bytes(&self) -> Seq<u8> {
        self.data@
    }

    /// Where the cursor stands, counted from the first byte.
    pub closed spec fn position(&self) -> u64 {
        self.pos
    }

    /// A source over `data`, with the cursor on the first byte.
    pub fn new(data: Vec<u8>) -> (s: ByteSource)
        ensures
            s.bytes() == data@,
            s.position() == 0,
    {
        ByteSource { data, pos: 0 }
    }

    /// Gives the bytes back.
    pub fn into_inner(self) -> (data: Vec<u8>)
        ensures
            data@ == self.bytes(),
    {
        self.data
    }

    /// All bytes of the source, wherever the cursor stands.
    pub fn as_slice(&self) -> (s: &[u8])
        ensures
            s@ == self.bytes(),
            s@.len() <= usize::MAX,
    {
        let s = self.data.as_slice();
        assert(s@.len() == s.len());
        s
    }

    /// Where the cursor stands.
    pub fn tell(&self) -> (pos: u64)
        ensures
            pos == self.position(),
    {
        self.pos
    }

    /// Moves the cursor to `pos`. This never fails: a cursor past the end
    /// shows in the next read.
    pub fn seek(&mut self, pos: u64)
        ensures
            final(self).bytes() == old(self).bytes(),
            final(self).position() == pos,
        no_unwind
    {
        self.pos = pos;
    }

    /// Claims the next `n` bytes: on success the cursor moves past them and
    /// the result is the index of the first of them. Where fewer than `n`
    /// bytes are left, nothing moves and the read fails as a short read.
    pub fn advance(&mut self, n: usize) -> (r: Result<usize, IoErrorKind>)
        ensures
            final(self).bytes() == old(self).bytes(),
            old(self).bytes().len() <= usize::MAX,
            match r {
                Ok(start) => {
                    &&& old(self).position() + n <= old(self).bytes().len()
                    &&& start == old(self).position()
                    &&& final(self).position() == old(self).position() + n
                },
                Err(e) => {
                    &&& old(self).position() + n > old(self).bytes().len()
                    &&& e == IoErrorKind::UnexpectedEof
                    &&& final(self).position() == old(self).position()
                },
            },
        no_unwind
    {
        let len = self.data.len();
        if self.pos <= len as u64 && n <= len - self.pos as usize {
            let start = self.pos as usize;
            self.pos = self.pos + n as u64;
            Ok(start)
        } else {
            Err(IoErrorKind::UnexpectedEof)
        }
    }
}

} // verus!
