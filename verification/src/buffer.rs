//! Bytes waiting to be handed over.

use vstd::prelude::*;
use vstd::slice::{slice_subrange, slice_to_vec};

verus! {

/// Bytes that are handed over from the front, piece by piece.
#[derive(Debug, Clone)]
pub struct Buffer {
    data: Vec<u8>,
    pos: usize,
}

impl View for Buffer {
    type V = Seq<u8>;

    /// The bytes that are left.
    closed spec fn view(&self) -> Seq<u8> {
        self.data@.skip(self.pos as int)
    }
}

impl Buffer {
    /// Whether the buffer is in a state it can get into.
    pub closed spec fn wf(self) -> bool {
        self.pos <= self.data@.len()
    }

    /// A buffer with nothing in it.
    pub fn new() -> (b: Buffer)
        ensures
            b.wf(),
            b@ == Seq::<u8>::empty(),
    {
        let b = Buffer { data: Vec::new(), pos: 0 };
        assert(b@ =~= Seq::empty());
        b
    }

    /// Whether nothing is left.
    pub fn is_empty(&self) -> (r: bool)
        requires
            self.wf(),
        ensures
            r == (self@.len() == 0),
    {
        self.pos == self.data.len()
    }

    /// Puts `data` in place of whatever is left.
    pub fn load(&mut self, data: Vec<u8>)
        ensures
            final(self).wf(),
            final(self)@ == data@,
    {
        self.data = data;
        self.pos = 0;
        assert(self@ =~= data@);
    }

    /// The bytes that are left.
    pub fn left(&self) -> (r: &[u8])
        requires
            self.wf(),
        ensures
            r@ == self@,
    {
        let r = slice_subrange(self.data.as_slice(), self.pos, self.data.len());
        assert(r@ =~= self@);
        r
    }

    /// Drops the first `n` bytes that are left.
    pub fn skip(&mut self, n: usize)
        requires
            old(self).wf(),
            n <= old(self)@.len(),
        ensures
            final(self).wf(),
            final(self)@ == old(self)@.skip(n as int),
    {
        let end: usize = self.data.len();
        self.pos = self.pos + n;
        assert(self@ =~= old(self)@.skip(n as int));
        if self.pos == end {
            self.data = Vec::new();
            self.pos = 0;
            assert(self@ =~= old(self)@.skip(n as int));
        }
    }

    /// Hands over as much of what is left as fits in `room` bytes.
    pub fn take(&mut self, room: usize) -> (r: Vec<u8>)
        requires
            old(self).wf(),
        ensures
            final(self).wf(),
            r@ == old(self)@.take(vstd::math::min(room as int, old(self)@.len() as int)),
            final(self)@ == old(self)@.skip(vstd::math::min(room as int, old(self)@.len() as int)),
    {
        let left: usize = self.data.len() - self.pos;
        let n: usize = if left < room {
            left
        } else {
            room
        };
        let r = slice_to_vec(slice_subrange(self.data.as_slice(), self.pos, self.pos + n));
        assert(r@ =~= self@.take(n as int));
        self.skip(n);
        r
    }
}

} // verus!
