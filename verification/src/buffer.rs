//! A growable byte buffer with a read cursor: bytes are appended at the end
//! and consumed from the cursor on.
use crate::ser::{parse_u64_at, u64_bytes, FixedWidth, Serializable};
use vstd::prelude::*;

verus! {

broadcast use {vstd::layout::layout_of_primitives, vstd::slice::group_slice_axioms};

/// Reports the capacity of a byte vector (`Vec::capacity`). Its documentation
/// promises that the capacity is never below the length; the value itself is
/// whatever the allocator gave and is left open.
#[verifier::external_body]
fn vec_capacity(v: &Vec<u8>) -> (c: usize)
    ensures
        c >= v@.len(),
{
    v.capacity()
}

/// Bytes written so far, plus a read position into them. Skipping can move
/// the position past the end of the written bytes; how far past is kept in
/// `overrun`.
pub struct ByteBuffer {
    buffer: Vec<u8>,
    read_index: usize,
    overrun: usize,
}

impl ByteBuffer {
    /// Everything ever written since the last clear.
    pub closed spec fn bytes(self) -> Seq<u8> {
        self.buffer@
    }

    /// The read position.
    pub closed spec fn pos(self) -> nat {
        (self.read_index + self.overrun) as nat
    }

    /// The position is within the written bytes, or past their end.
    pub closed spec fn wf(self) -> bool {
        &&& self.read_index <= self.buffer@.len()
        &&& self.overrun > 0 ==> self.read_index == self.buffer@.len()
    }

    /// The bytes not read yet.
    pub open spec fn unread(self) -> Seq<u8> {
        self.bytes().subrange(self.pos() as int, self.bytes().len() as int)
    }

    /// The read position is within the written bytes.
    pub open spec fn inv(self) -> bool {
        self.wf() && self.pos() <= self.bytes().len()
    }

    /// An empty buffer with room for `capacity` bytes reserved.
    pub fn new(capacity: usize) -> (b: ByteBuffer)
        ensures
            b.inv(),
            b.bytes() == Seq::<u8>::empty(),
            b.pos() == 0,
    {
        ByteBuffer { buffer: Vec::with_capacity(capacity), read_index: 0, overrun: 0 }
    }

    /// Copies the next `dest.len()` bytes into `dest` and moves the cursor
    /// past them; `None`, with nothing changed, when fewer bytes are left.
    pub fn read(&mut self, dest: &mut [u8]) -> (r: Option<()>)
        requires
            old(self).inv(),
        ensures
            final(self).inv(),
            final(self).bytes() == old(self).bytes(),
            old(self).pos() + old(dest)@.len() <= old(self).bytes().len() ==> {
                &&& r is Some
                &&& final(dest)@ == old(self).bytes().subrange(
                    old(self).pos() as int,
                    (old(self).pos() + old(dest)@.len()) as int,
                )
                &&& final(self).pos() == old(self).pos() + old(dest)@.len()
            },
            old(self).pos() + old(dest)@.len() > old(self).bytes().len() ==> {
                &&& r is None
                &&& final(dest)@ == old(dest)@
                &&& final(self).pos() == old(self).pos()
            },
    {
        if self.remaining() < dest.len() {
            return None;
        }
        let total = self.buffer.len();
        assert(self.unread().len() == total - self.read_index);
        let start = self.read_index;
        let end = start + dest.len();
        let mut i: usize = 0;
        while i < dest.len()
            invariant
                start + dest@.len() <= self.buffer@.len(),
                total == self.buffer@.len(),
                start == self.read_index,
                dest@.len() == old(dest)@.len(),
                i <= dest@.len(),
                forall|k: int| 0 <= k < i ==> dest@[k] == self.buffer@[start + k],
            decreases dest@.len() - i,
        {
            dest[i] = self.buffer[start + i];
            i = i + 1;
        }
        self.read_index = end;
        assert(dest@ =~= self.buffer@.subrange(start as int, end as int));
        Some(())
    }

    /// Reads one serialized value of type `T` at the cursor.
    pub fn read_ser<T: Serializable>(&mut self) -> (r: Option<T>)
        requires
            old(self).inv(),
        ensures
            final(self).wf(),
            T::stays_within() || r is None ==> final(self).inv(),
            final(self).bytes() == old(self).bytes(),
            match T::parse_bytes(old(self).unread()) {
                Some((m, n)) => r is Some && r.unwrap().model() == m && final(self).pos()
                    == old(self).pos() + n,
                None => r is None && (T::fails_in_place() ==> final(self).pos() == old(self).pos()),
            },
    {
        T::deserialize(self)
    }

    /// Reads a length-prefixed frame: the length (as a `usize` value) is
    /// consumed, the frame bytes are returned and stay unread.
    pub fn read_frame(&mut self) -> (r: Option<&[u8]>)
        requires
            old(self).inv(),
            old(self).unread().len() >= 8 ==> old(self).unread().len() - 8 >= frame_len(old(self).unread()),
        ensures
            final(self).inv(),
            final(self).bytes() == old(self).bytes(),
            old(self).unread().len() >= 8 ==> {
                &&& r is Some
                &&& final(self).pos() == old(self).pos() + 8
                &&& r.unwrap()@ == old(self).unread().subrange(
                    8,
                    8 + frame_len(old(self).unread()),
                )
            },
            old(self).unread().len() < 8 ==> r is None && final(self).pos() == old(self).pos(),
    {
        let mut arr = [0u8; 8];
        let len: usize = match self.read(&mut arr) {
            Some(()) => {
                assert(arr@ =~= old(self).unread().subrange(0, 8));
                #[verifier::truncate] (vstd::bytes::u64_from_le_bytes(&arr) as usize)
            },
            None => return None,
        };
        let total = self.buffer.len();
        let start = self.read_index;
        assert(self.unread().len() == total - start);
        Some(self.buffer_slice(start, start + len))
    }

    fn buffer_slice(&self, start: usize, end: usize) -> (s: &[u8])
        requires
            self.inv(),
            start <= end <= self.bytes().len(),
        ensures
            s@ == self.bytes().subrange(start as int, end as int),
    {
        slice_range(self.buffer.as_slice(), start, end)
    }

    /// Appends a serialized value.
    pub fn write_ser<T: Serializable>(&mut self, obj: &T)
        requires
            old(self).inv(),
            obj.serializable(),
        ensures
            final(self).inv(),
            final(self).bytes() == old(self).bytes() + T::encode(obj.model()),
            final(self).pos() == old(self).pos(),
    {
        obj.serialize(self)
    }

    /// Appends `size_of::<T>()` zero bytes.
    pub fn write_zero<T: Sized>(&mut self)
        requires
            old(self).inv(),
        ensures
            final(self).inv(),
            final(self).bytes() == old(self).bytes() + Seq::new(
                vstd::layout::size_of::<T>(),
                |i: int| 0u8,
            ),
            final(self).pos() == old(self).pos(),
    {
        let n = core::mem::size_of::<T>();
        let mut i: usize = 0;
        while i < n
            invariant
                n as nat == vstd::layout::size_of::<T>(),
                i <= n,
                self.inv(),
                self.pos() == old(self).pos(),
                self.bytes() == old(self).bytes() + Seq::new(i as nat, |k: int| 0u8),
            decreases n - i,
        {
            self.push_byte(0);
            assert(Seq::new(i as nat, |k: int| 0u8).push(0u8) =~= Seq::new(
                (i + 1) as nat,
                |k: int| 0u8,
            ));
            i = i + 1;
        }
    }

    fn push_byte(&mut self, b: u8)
        requires
            old(self).inv(),
        ensures
            final(self).inv(),
            final(self).bytes() == old(self).bytes().push(b),
            final(self).pos() == old(self).pos(),
    {
        self.buffer.push(b);
    }

    /// Skips `size_of::<T>()` bytes, past the end of the written bytes if
    /// fewer are left.
    pub fn read_zero<T: Sized>(&mut self)
        requires
            old(self).wf(),
            old(self).pos() + vstd::layout::size_of::<T>() <= usize::MAX,
        ensures
            final(self).wf(),
            final(self).bytes() == old(self).bytes(),
            final(self).pos() == old(self).pos() + vstd::layout::size_of::<T>(),
    {
        self.advance(core::mem::size_of::<T>());
    }

    /// Moves the cursor `n` bytes on, past the end of the written bytes if
    /// fewer are left.
    pub fn skip(&mut self, n: usize)
        requires
            old(self).wf(),
            old(self).pos() + n <= usize::MAX,
        ensures
            final(self).wf(),
            final(self).bytes() == old(self).bytes(),
            final(self).pos() == old(self).pos() + n,
    {
        self.advance(n);
    }

    /// Whether the cursor stands past the end of the written bytes.
    pub fn is_past_end(&self) -> (b: bool)
        requires
            self.wf(),
        ensures
            b == (self.pos() > self.bytes().len()),
    {
        self.overrun > 0
    }

    /// Whether moving the cursor `n` bytes on keeps it within what a `usize`
    /// index holds.
    pub fn fits_skip(&self, n: usize) -> (b: bool)
        requires
            self.wf(),
        ensures
            b == (self.pos() + n <= usize::MAX),
    {
        (self.read_index as u128) + (self.overrun as u128) + (n as u128) <= (usize::MAX as u128)
    }

    /// Moves the cursor `n` bytes on; the position past the end may exceed
    /// what a `usize` index holds.
    pub(crate) fn advance(&mut self, n: usize)
        requires
            old(self).wf(),
            old(self).pos() + n <= old(self).bytes().len() + usize::MAX,
        ensures
            final(self).wf(),
            final(self).bytes() == old(self).bytes(),
            final(self).pos() == old(self).pos() + n,
    {
        let left = self.buffer.len() - self.read_index;
        if self.overrun == 0 && n <= left {
            self.read_index = self.read_index + n;
        } else if self.overrun == 0 {
            self.overrun = n - left;
            self.read_index = self.buffer.len();
        } else {
            self.overrun = self.overrun + n;
        }
    }

    /// Number of bytes written.
    pub fn len(&self) -> (n: usize)
        ensures
            n == self.bytes().len(),
    {
        self.buffer.len()
    }

    /// Bytes the buffer can hold without growing; never below `len()`.
    pub fn capacity(&self) -> (n: usize)
        ensures
            n >= self.bytes().len(),
    {
        vec_capacity(&self.buffer)
    }

    /// Appends `src`.
    pub fn write(&mut self, src: &[u8])
        requires
            old(self).inv(),
        ensures
            final(self).inv(),
            final(self).bytes() == old(self).bytes() + src@,
            final(self).pos() == old(self).pos(),
    {
        self.buffer.extend_from_slice(src);
        assert(self.buffer@ =~= old(self).buffer@ + src@);
    }

    /// Appends a length-prefixed frame: `src.len()` as a `usize` value, then
    /// the bytes of `src`.
    pub fn write_frame(&mut self, src: &[u8])
        requires
            old(self).inv(),
        ensures
            final(self).inv(),
            final(self).bytes() == old(self).bytes() + u64_bytes(src@.len() as u64) + src@,
            final(self).pos() == old(self).pos(),
    {
        let n: usize = src.len();
        self.write_ser(&n);
        self.write(src);
        assert(self.bytes() =~= old(self).bytes() + u64_bytes(src@.len() as u64) + src@);
    }

    /// Number of bytes not read yet.
    pub fn remaining(&self) -> (n: usize)
        requires
            self.inv(),
        ensures
            n == self.unread().len(),
    {
        self.buffer.len() - self.read_index
    }

    /// All written bytes, read or not.
    pub fn internal(&self) -> (s: &[u8])
        ensures
            s@ == self.bytes(),
    {
        self.buffer.as_slice()
    }

    /// Grows the buffer with zero bytes to at least `size` bytes and hands out
    /// its first `size` bytes for writing.
    pub fn internal_mut(&mut self, size: usize) -> (s: &mut [u8])
        requires
            old(self).inv(),
        ensures
            s@ == (if old(self).bytes().len() < size {
                old(self).bytes() + Seq::new((size - old(self).bytes().len()) as nat, |i: int| 0u8)
            } else {
                old(self).bytes()
            }).subrange(0, size as int),
            final(self).bytes() == final(s)@ + (if old(self).bytes().len() < size {
                Seq::<u8>::empty()
            } else {
                old(self).bytes().subrange(size as int, old(self).bytes().len() as int)
            }),
            final(self).pos() == old(self).pos(),
    {
        if self.buffer.len() < size {
            self.grow_zeroed(size);
        }
        let ghost grown = self.buffer@;
        assert(grown =~= (if old(self).bytes().len() < size {
            old(self).bytes() + Seq::new((size - old(self).bytes().len()) as nat, |i: int| 0u8)
        } else {
            old(self).bytes()
        }));
        let whole = self.buffer.as_mut_slice();
        let (head, _tail) = whole.split_at_mut(size);
        head
    }

    fn grow_zeroed(&mut self, size: usize)
        requires
            old(self).inv(),
            old(self).bytes().len() < size,
        ensures
            final(self).inv(),
            final(self).bytes() == old(self).bytes() + Seq::new(
                (size - old(self).bytes().len()) as nat,
                |i: int| 0u8,
            ),
            final(self).pos() == old(self).pos(),
    {
        self.buffer.resize(size, 0u8);
        assert(self.buffer@ =~= old(self).buffer@ + Seq::new(
            (size - old(self).bytes().len()) as nat,
            |i: int| 0u8,
        ));
    }

    /// CRC-32 (IEEE) of all written bytes.
    pub fn crc_32(&self) -> (c: u32)
        ensures
            c == crate::checksum::crc32_ieee(self.bytes()),
    {
        crate::checksum::crc32_of(self.internal())
    }

    /// Forgets all bytes and rewinds the cursor.
    pub fn clear(&mut self)
        ensures
            final(self).inv(),
            final(self).bytes() == Seq::<u8>::empty(),
            final(self).pos() == 0,
    {
        self.read_index = 0;
        self.overrun = 0;
        self.buffer.clear();
    }
}

/// The length stored in a frame prefix: the `u64` at the front, as a `usize`.
pub open spec fn frame_len(s: Seq<u8>) -> usize {
    #[verifier::truncate] (parse_u64_at(s, 0) as usize)
}

/// A frame written by `write_frame` is read back by `read_frame`: the stored
/// length is the frame's, and the bytes after it are the frame.
pub proof fn lemma_frame_roundtrip(src: Seq<u8>, rest: Seq<u8>)
    requires
        src.len() <= usize::MAX,
    ensures
        ({
            let stored = u64_bytes(src.len() as u64) + src + rest;
            &&& frame_len(stored) == src.len()
            &&& stored.len() - 8 >= frame_len(stored)
            &&& stored.subrange(8, 8 + src.len() as int) == src
        }),
{
    let stored = u64_bytes(src.len() as u64) + src + rest;
    vstd::bytes::lemma_auto_spec_u64_to_from_le_bytes();
    assert(u64_bytes(src.len() as u64).len() == 8);
    assert(stored.subrange(0, 8) =~= u64_bytes(src.len() as u64));
    assert(stored.subrange(8, 8 + src.len() as int) =~= src);
}

fn slice_range(s: &[u8], start: usize, end: usize) -> (r: &[u8])
    requires
        start <= end <= s@.len(),
    ensures
        r@ == s@.subrange(start as int, end as int),
{
    let (_, tail) = s.split_at(start);
    let (head, _) = tail.split_at(end - start);
    head
}

/// A value of a fixed-width type written to a buffer with nothing left
/// unread is what the next read gives back, and that read leaves nothing
/// unread.
pub proof fn lemma_read_back<T: FixedWidth>(before: ByteBuffer, written: ByteBuffer, m: T::Model)
    requires
        before.inv(),
        before.unread().len() == 0,
        written.bytes() == before.bytes() + T::encode(m),
        written.pos() == before.pos(),
    ensures
        T::parse_bytes(written.unread()) == Some((m, T::width())),
        written.pos() + T::width() == written.bytes().len(),
{
    let enc = T::encode(m);
    T::lemma_fixed_roundtrip(m, Seq::empty(), Seq::empty());
    assert(written.unread() =~= enc);
    assert(enc + Seq::<u8>::empty() =~= enc);
}

/// With fewer bytes left than a fixed-width type's width, a read of it
/// fails and leaves the cursor where it was.
pub proof fn lemma_short_read<T: FixedWidth>(b: ByteBuffer)
    requires
        b.inv(),
        b.unread().len() < T::width(),
    ensures
        T::parse_bytes(b.unread()) is None,
        T::fails_in_place(),
{
    T::lemma_fixed_roundtrip(arbitrary(), Seq::empty(), b.unread());
}

} // verus!
