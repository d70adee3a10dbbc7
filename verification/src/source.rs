use vstd::prelude::*;
use crate::error::IoFailure;

verus! {

/// A byte source as a value: all of its bytes, and how many of them have been
/// passed.
pub struct CursorView {
    pub bytes: Seq<u8>,
    pub pos: nat,
}

impl CursorView {
    /// The position lies within the bytes, or just behind the last one.
    pub open spec fn wf(self) -> bool {
        self.pos <= self.bytes.len()
    }

    /// The number of bytes that have not been passed yet.
    pub open spec fn remaining(self) -> nat {
        if self.pos <= self.bytes.len() {
            (self.bytes.len() - self.pos) as nat
        } else {
            0
        }
    }

    /// Whether `count` more bytes can be read.
    pub open spec fn can_read(self, count: nat) -> bool {
        self.pos + count <= self.bytes.len()
    }

    /// The next `count` bytes.
    pub open spec fn peek(self, count: nat) -> Seq<u8>
        recommends
            self.can_read(count),
    {
        self.bytes.subrange(self.pos as int, (self.pos + count) as int)
    }

    /// The source after `count` bytes have been passed.
    pub open spec fn advance(self, count: nat) -> CursorView {
        CursorView { bytes: self.bytes, pos: self.pos + count }
    }

    /// The source moved by `offset` bytes, forwards or backwards.
    pub open spec fn moved(self, offset: int) -> CursorView
        recommends
            self.pos + offset >= 0,
    {
        CursorView { bytes: self.bytes, pos: (self.pos + offset) as nat }
    }
}

/// A readable and seekable source of bytes over a slice held in memory. Its
/// position never leaves the slice.
pub struct ByteCursor<'a> {
    data: &'a [u8],
    pos: usize,
}

impl<'a> View for ByteCursor<'a> {
    type V = CursorView;

    closed spec fn view(&self) -> CursorView {
        CursorView { bytes: self.data@, pos: self.pos as nat }
    }
}

impl<'a> ByteCursor<'a> {
    #[verifier::type_invariant]
    spec fn within_bounds(self) -> bool {
        self.pos <= self.data@.len()
    }

    /// A source that stands before the first byte of `data`.
    pub fn new(data: &'a [u8]) -> (cursor: Self)
        ensures
            cursor@ == (CursorView { bytes: data@, pos: 0 }),
            cursor@.wf(),
    {
        let _ = data.len();
        ByteCursor { data, pos: 0 }
    }

    /// The number of bytes passed so far.
    pub fn position(&self) -> (pos: usize)
        ensures
            pos == self@.pos,
            self@.wf(),
    {
        proof {
            use_type_invariant(self);
        }
        let _ = self.data.len();
        self.pos
    }

    /// The number of bytes that can still be read.
    pub fn remaining(&self) -> (count: usize)
        ensures
            count == self@.remaining(),
            self@.wf(),
            self@.bytes.len() <= usize::MAX,
    {
        proof {
            use_type_invariant(self);
        }
        self.data.len() - self.pos
    }

    /// Fills the whole of `buffer` with the next bytes and passes them. Where
    /// fewer bytes are left than `buffer` holds, nothing is read: the source
    /// and the buffer stay as they were.
    pub fn read_exact(&mut self, buffer: &mut [u8]) -> (r: Result<(), IoFailure>)
        ensures
            old(self)@.wf(),
            final(self)@.wf(),
            old(self)@.can_read(old(buffer)@.len()) ==> r is Ok && final(buffer)@ == old(self)@.peek(
                old(buffer)@.len(),
            ) && final(self)@ == old(self)@.advance(old(buffer)@.len()),
            !old(self)@.can_read(old(buffer)@.len()) ==> r == Err::<(), IoFailure>(
                IoFailure::UnexpectedEof,
            ) && final(buffer)@ == old(buffer)@ && final(self)@ == old(self)@,
    {
        proof {
            use_type_invariant(&*self);
        }
        let count = buffer.len();
        let _ = self.data.len();
        if self.remaining() < count {
            return Err(IoFailure::UnexpectedEof);
        }
        let start = self.pos;
        let len = self.data.len();
        let mut i: usize = 0;
        while i < count
            invariant
                i <= count,
                count == buffer@.len(),
                len == self.data@.len(),
                start + count <= len,
                self.pos == start,
                self.data == old(self).data,
                forall|j: int| 0 <= j < i ==> buffer@[j] == self.data@[start + j],
            decreases count - i,
        {
            buffer[i] = self.data[start + i];
            i += 1;
        }
        self.pos = start + count;
        assert(buffer@ =~= old(self)@.peek(count as nat));
        Ok(())
    }

    /// Moves the position by `offset` bytes. A move to before the first byte
    /// or to beyond the end is refused and leaves the source as it was.
    pub fn seek(&mut self, offset: i64) -> (r: Result<(), IoFailure>)
        ensures
            old(self)@.wf(),
            final(self)@.wf(),
            0 <= old(self)@.pos + offset <= old(self)@.bytes.len() ==> r is Ok && final(self)@
                == old(self)@.moved(offset as int),
            !(0 <= old(self)@.pos + offset <= old(self)@.bytes.len()) ==> r == Err::<
                (),
                IoFailure,
            >(IoFailure::InvalidSeek) && final(self)@ == old(self)@,
    {
        proof {
            use_type_invariant(&*self);
        }
        if offset >= 0 {
            let forward: u64 = offset as u64;
            if forward > self.remaining() as u64 {
                return Err(IoFailure::InvalidSeek);
            }
            let len = self.data.len();
            assert(self.pos + forward <= len);
            self.pos = self.pos + forward as usize;
            Ok(())
        } else {
            let _ = self.data.len();
            let backward: u64 = (-(offset + 1)) as u64 + 1;
            if backward > self.pos as u64 {
                return Err(IoFailure::InvalidSeek);
            }
            self.pos = self.pos - backward as usize;
            Ok(())
        }
    }
}

} // verus!
