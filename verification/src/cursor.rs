//! A forward-only reader over an immutable byte buffer.
//!
//! Every decoder of the crate consumes its input through [`ByteCursor`], so
//! truncated buffers surface uniformly as [`XrainError::Truncated`].

use vstd::prelude::*;

use crate::errors::XrainError;

verus! {

/// The 16-bit big-endian value stored in two consecutive bytes.
pub open spec fn be16(b0: u8, b1: u8) -> u16 {
    (b0 * 256 + b1) as u16
}

/// The 32-bit big-endian value stored in four consecutive bytes.
pub open spec fn be32(b0: u8, b1: u8, b2: u8, b3: u8) -> u32 {
    (b0 * 0x100_0000 + b1 * 0x1_0000 + b2 * 0x100 + b3) as u32
}

/// Shorthand for the truncation error raised when `needed` bytes were
/// requested and only `available` remained.
pub open spec fn truncated(needed: int, available: int) -> XrainError {
    XrainError::Truncated { needed: needed as usize, available: available as usize }
}

/// A minimal forward-only reader: a borrowed buffer and a position.
///
/// `take` and the fixed-width readers advance the position; nothing ever
/// moves it backwards, and a failed read leaves the cursor unchanged.
pub struct ByteCursor<'a> {
    buf: &'a [u8],
    pos: usize,
}

impl<'a> ByteCursor<'a> {
    /// The whole underlying buffer, which never changes.
    pub closed spec fn bytes(self) -> Seq<u8> {
        self.buf@
    }

    /// The current read position.
    pub closed spec fn position(self) -> int {
        self.pos as int
    }

    /// The position never runs past the end of the buffer.
    pub open spec fn wf(self) -> bool {
        0 <= self.position() <= self.bytes().len()
    }

    /// How many bytes are left to read.
    pub open spec fn remaining_spec(self) -> int {
        self.bytes().len() - self.position()
    }

    /// A cursor standing at the start of `buf`.
    pub fn new(buf: &'a [u8]) -> (c: Self)
        ensures
            c.wf(),
            c.bytes() == buf@,
            c.position() == 0,
    {
        ByteCursor { buf, pos: 0 }
    }

    /// The number of bytes that remain.
    pub fn remaining(&self) -> (n: usize)
        requires
            self.wf(),
        ensures
            n == self.remaining_spec(),
    {
        self.buf.len() - self.pos
    }

    /// Reads one byte and advances.
    pub fn read_u8(&mut self) -> (r: Result<u8, XrainError>)
        requires
            old(self).wf(),
        ensures
            final(self).wf(),
            final(self).bytes() == old(self).bytes(),
            match r {
                Ok(b) => {
                    &&& old(self).remaining_spec() >= 1
                    &&& b == old(self).bytes()[old(self).position()]
                    &&& final(self).position() == old(self).position() + 1
                },
                Err(e) => {
                    &&& old(self).remaining_spec() < 1
                    &&& e == truncated(1, old(self).remaining_spec())
                    &&& *final(self) == *old(self)
                },
            },
    {
        if self.buf.len() - self.pos >= 1 {
            let b = self.buf[self.pos];
            self.pos = self.pos + 1;
            Ok(b)
        } else {
            Err(XrainError::Truncated { needed: 1, available: 0 })
        }
    }

    /// Reads a big-endian 16-bit word and advances by two bytes.
    pub fn read_u16_be(&mut self) -> (r: Result<u16, XrainError>)
        requires
            old(self).wf(),
        ensures
            final(self).wf(),
            final(self).bytes() == old(self).bytes(),
            match r {
                Ok(w) => {
                    &&& old(self).remaining_spec() >= 2
                    &&& w == be16(
                        old(self).bytes()[old(self).position()],
                        old(self).bytes()[old(self).position() + 1],
                    )
                    &&& final(self).position() == old(self).position() + 2
                },
                Err(e) => {
                    &&& old(self).remaining_spec() < 2
                    &&& e == truncated(2, old(self).remaining_spec())
                    &&& *final(self) == *old(self)
                },
            },
    {
        if self.buf.len() - self.pos >= 2 {
            let b0 = self.buf[self.pos];
            let b1 = self.buf[self.pos + 1];
            self.pos = self.pos + 2;
            Ok((b0 as u16) * 256 + (b1 as u16))
        } else {
            Err(XrainError::Truncated { needed: 2, available: self.buf.len() - self.pos })
        }
    }

    /// Reads a big-endian 32-bit word and advances by four bytes.
    pub fn read_u32_be(&mut self) -> (r: Result<u32, XrainError>)
        requires
            old(self).wf(),
        ensures
            final(self).wf(),
            final(self).bytes() == old(self).bytes(),
            match r {
                Ok(w) => {
                    &&& old(self).remaining_spec() >= 4
                    &&& w == be32(
                        old(self).bytes()[old(self).position()],
                        old(self).bytes()[old(self).position() + 1],
                        old(self).bytes()[old(self).position() + 2],
                        old(self).bytes()[old(self).position() + 3],
                    )
                    &&& final(self).position() == old(self).position() + 4
                },
                Err(e) => {
                    &&& old(self).remaining_spec() < 4
                    &&& e == truncated(4, old(self).remaining_spec())
                    &&& *final(self) == *old(self)
                },
            },
    {
        if self.buf.len() - self.pos >= 4 {
            let b0 = self.buf[self.pos];
            let b1 = self.buf[self.pos + 1];
            let b2 = self.buf[self.pos + 2];
            let b3 = self.buf[self.pos + 3];
            self.pos = self.pos + 4;
            Ok((b0 as u32) * 0x100_0000 + (b1 as u32) * 0x1_0000 + (b2 as u32) * 0x100
                + (b3 as u32))
        } else {
            Err(XrainError::Truncated { needed: 4, available: self.buf.len() - self.pos })
        }
    }

    /// Copies out the next `n` bytes and advances past them.
    pub fn take(&mut self, n: usize) -> (r: Result<Vec<u8>, XrainError>)
        requires
            old(self).wf(),
        ensures
            final(self).wf(),
            final(self).bytes() == old(self).bytes(),
            match r {
                Ok(v) => {
                    &&& old(self).remaining_spec() >= n
                    &&& v@ == old(self).bytes().subrange(
                        old(self).position(),
                        old(self).position() + n,
                    )
                    &&& final(self).position() == old(self).position() + n
                },
                Err(e) => {
                    &&& old(self).remaining_spec() < n
                    &&& e == truncated(n as int, old(self).remaining_spec())
                    &&& *final(self) == *old(self)
                },
            },
    {
        if self.buf.len() - self.pos >= n {
            let ghost snap = *self;
            let mut v: Vec<u8> = Vec::new();
            let mut i: usize = 0;
            proof {
                assert(v@ =~= snap.bytes().subrange(snap.position(), snap.position() + 0));
            }
            while i < n
                invariant
                    *self == snap,
                    snap.wf(),
                    snap.bytes().len() <= usize::MAX,
                    i <= n,
                    snap.remaining_spec() >= n,
                    v@ == snap.bytes().subrange(snap.position(), snap.position() + i),
                decreases n - i,
            {
                v.push(self.buf[self.pos + i]);
                i = i + 1;
                proof {
                    assert(v@ =~= snap.bytes().subrange(
                        snap.position(),
                        snap.position() + i,
                    ));
                }
            }
            self.pos = self.pos + n;
            Ok(v)
        } else {
            Err(XrainError::Truncated { needed: n, available: self.buf.len() - self.pos })
        }
    }

    /// Advances past the next `n` bytes without looking at them.
    pub fn skip(&mut self, n: usize) -> (r: Result<(), XrainError>)
        requires
            old(self).wf(),
        ensures
            final(self).wf(),
            final(self).bytes() == old(self).bytes(),
            match r {
                Ok(()) => {
                    &&& old(self).remaining_spec() >= n
                    &&& final(self).position() == old(self).position() + n
                },
                Err(e) => {
                    &&& old(self).remaining_spec() < n
                    &&& e == truncated(n as int, old(self).remaining_spec())
                    &&& *final(self) == *old(self)
                },
            },
    {
        if self.buf.len() - self.pos >= n {
            self.pos = self.pos + n;
            Ok(())
        } else {
            Err(XrainError::Truncated { needed: n, available: self.buf.len() - self.pos })
        }
    }
}

} // verus!
