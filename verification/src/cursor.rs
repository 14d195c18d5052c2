//! A forward-only position in a sequence of instruction bytes.

use vstd::prelude::*;

verus! {

/// A read position in a byte stream. The position only moves forward and never
/// passes the end of the stream.
pub struct ByteCursor<'a> {
    bytes: &'a [u8],
    position: usize,
}

impl<'a> ByteCursor<'a> {
    #[verifier::type_invariant]
    spec fn in_bounds(self) -> bool {
        self.position <= self.bytes@.len()
    }

    /// The whole byte stream, consumed bytes included.
    pub closed spec fn stream(self) -> Seq<u8> {
        self.bytes@
    }

    /// The number of bytes consumed so far.
    pub closed spec fn offset(self) -> nat {
        self.position as nat
    }

    /// The bytes that have not been consumed yet.
    pub open spec fn remaining(self) -> Seq<u8> {
        self.stream().skip(self.offset() as int)
    }

    /// `self` is what `before` becomes when `count` more bytes are consumed.
    pub open spec fn is_advanced_from(self, before: Self, count: nat) -> bool {
        &&& self.stream() == before.stream()
        &&& self.offset() == before.offset() + count
    }

    /// `self` is what `before` becomes when a read runs off the end of the
    /// stream.
    pub open spec fn is_exhausted_from(self, before: Self) -> bool {
        &&& self.stream() == before.stream()
        &&& self.offset() == self.stream().len()
    }

    /// A cursor at the start of `bytes`.
    pub fn new(bytes: &'a [u8]) -> (cursor: Self)
        ensures
            cursor.stream() == bytes@,
            cursor.offset() == 0,
            cursor.remaining() == bytes@,
    {
        ByteCursor { bytes, position: 0 }
    }

    /// The number of bytes consumed so far.
    pub fn position(&self) -> (position: usize)
        ensures
            position == self.offset(),
            position <= self.stream().len(),
    {
        proof {
            use_type_invariant(self);
        }
        self.position
    }

    /// The next byte, without consuming it; `None` at the end of the stream.
    pub fn peek(&self) -> (byte: Option<u8>)
        ensures
            self.offset() <= self.stream().len(),
            byte == (if self.remaining().len() > 0 {
                Some(self.remaining()[0])
            } else {
                None
            }),
    {
        proof {
            use_type_invariant(self);
        }
        if self.position < self.bytes.len() {
            Some(self.bytes[self.position])
        } else {
            None
        }
    }

    /// Consumes and returns the next byte. At the end of the stream it returns
    /// `None` and the cursor stays at the end.
    pub fn next(&mut self) -> (byte: Option<u8>)
        ensures
            old(self).remaining().len() > 0 ==> {
                &&& byte == Some(old(self).remaining()[0])
                &&& final(self).is_advanced_from(*old(self), 1)
                &&& final(self).remaining() == old(self).remaining().skip(1)
            },
            old(self).remaining().len() == 0 ==> {
                &&& byte is None
                &&& final(self).is_exhausted_from(*old(self))
                &&& final(self).offset() == old(self).offset()
            },
            final(self).offset() <= final(self).stream().len(),
    {
        proof {
            use_type_invariant(&*self);
        }
        if self.position < self.bytes.len() {
            let byte = self.bytes[self.position];
            self.position = self.position + 1;
            Some(byte)
        } else {
            None
        }
    }
}

} // verus!
