//! A forward-only read cursor over an in-memory byte buffer.
//!
//! Every decoder in this crate reads through a [`ByteCursor`]: a buffer
//! together with a read offset that only ever moves forward. The offset
//! never exceeds the buffer length, and every successful read advances it
//! by exactly the number of bytes consumed.

use vstd::prelude::*;

verus! {

/// The ways a decode can fail.
#[derive(Debug, Clone, Copy, PartialEq, Eq, Structural)]
pub enum Error {
    /// The input string is not valid hexadecimal.
    HexDecodeError,
    /// A read requested more bytes than remain in the buffer.
    UnexpectedEndOfInput,
    /// Reserved for a future minimal-encoding check of compact sizes;
    /// no decoder currently returns it.
    MalformedCompactSize,
}

/// A byte buffer with a forward-only read offset.
pub struct ByteCursor {
    bytes: Vec<u8>,
    pos: usize,
}

impl ByteCursor {
    /// The whole underlying buffer, which never changes after construction.
    pub closed spec fn data(&self) -> Seq<u8> {
        self.bytes@
    }

    /// The current read offset.
    pub closed spec fn position(&self) -> nat {
        self.pos as nat
    }

    /// The offset stays within the buffer.
    pub open spec fn wf(&self) -> bool {
        self.position() <= self.data().len()
    }

    /// The bytes not yet consumed.
    pub open spec fn remaining(&self) -> Seq<u8> {
        self.data().skip(self.position() as int)
    }

    pub fn new(bytes: Vec<u8>) -> (c: ByteCursor)
        ensures
            c.data() == bytes@,
            c.position() == 0,
            c.wf(),
    {
        ByteCursor { bytes, pos: 0 }
    }

    /// How many bytes have been consumed so far.
    pub fn offset(&self) -> (n: usize)
        ensures
            n == self.position(),
    {
        self.pos
    }

    /// How many bytes are left to read.
    pub fn remaining_len(&self) -> (n: usize)
        requires
            self.wf(),
        ensures
            n == self.remaining().len(),
    {
        self.bytes.len() - self.pos
    }

    /// Read a single byte and advance the offset by one.
    pub fn read_byte(&mut self) -> (r: Result<u8, Error>)
        requires
            old(self).wf(),
        ensures
            final(self).wf(),
            final(self).data() == old(self).data(),
            match r {
                Ok(b) => {
                    &&& old(self).remaining().len() >= 1
                    &&& b == old(self).remaining()[0]
                    &&& final(self).position() == old(self).position() + 1
                },
                Err(e) => {
                    &&& e == Error::UnexpectedEndOfInput
                    &&& old(self).remaining().len() == 0
                    &&& *final(self) == *old(self)
                },
            },
    {
        if self.pos < self.bytes.len() {
            let b = self.bytes[self.pos];
            self.pos = self.pos + 1;
            Ok(b)
        } else {
            Err(Error::UnexpectedEndOfInput)
        }
    }

    /// Read exactly `n` bytes and advance the offset by `n`, or fail with
    /// `UnexpectedEndOfInput` if fewer than `n` bytes remain.
    pub fn read_exact(&mut self, n: usize) -> (r: Result<Vec<u8>, Error>)
        requires
            old(self).wf(),
        ensures
            final(self).wf(),
            final(self).data() == old(self).data(),
            match r {
                Ok(v) => {
                    &&& old(self).remaining().len() >= n
                    &&& v@ == old(self).remaining().take(n as int)
                    &&& final(self).position() == old(self).position() + n
                },
                Err(e) => {
                    &&& e == Error::UnexpectedEndOfInput
                    &&& old(self).remaining().len() < n
                    &&& *final(self) == *old(self)
                },
            },
    {
        if n > self.bytes.len() - self.pos {
            return Err(Error::UnexpectedEndOfInput);
        }
        let mut out: Vec<u8> = Vec::new();
        let mut i: usize = 0;
        while i < n
            invariant
                i <= n,
                *self == *old(self),
                self.wf(),
                n <= self.data().len() - self.position(),
                self.position() + n <= usize::MAX,
                out@ == self.data().subrange(
                    self.position() as int,
                    self.position() + i as int,
                ),
            decreases n - i,
        {
            out.push(self.bytes[self.pos + i]);
            i = i + 1;
        }
        proof {
            assert(out@ =~= old(self).remaining().take(n as int));
        }
        self.pos = self.pos + n;
        Ok(out)
    }

    /// A copy of the bytes between two offsets of the buffer.
    pub fn bytes_range(&self, from: usize, to: usize) -> (v: Vec<u8>)
        requires
            from <= to,
            to <= self.data().len(),
        ensures
            v@ == self.data().subrange(from as int, to as int),
    {
        let mut out: Vec<u8> = Vec::new();
        let mut i: usize = from;
        while i < to
            invariant
                from <= i,
                i <= to,
                to <= self.data().len(),
                out@ == self.data().subrange(from as int, i as int),
            decreases to - i,
        {
            out.push(self.bytes[i]);
            i = i + 1;
        }
        out
    }
}

} // verus!
