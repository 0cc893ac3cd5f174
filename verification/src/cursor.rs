//! Reads of single fields at the cursor of a `ByteBuffer`, stated against the
//! unread bytes as they stood when a larger read began (`origin`, with the
//! cursor then at `base`).
use crate::buffer::ByteBuffer;
use crate::ser::{parse_i32_at, parse_i64_at, parse_u32_at, parse_u64_at};
use vstd::prelude::*;

verus! {

/// `origin` is what `buf` held unread when its cursor stood at `base`, and the
/// cursor has not gone back since.
pub open spec fn reading_from(buf: ByteBuffer, origin: Seq<u8>, base: int) -> bool {
    &&& buf.inv()
    &&& 0 <= base <= buf.pos()
    &&& origin == buf.bytes().subrange(base, buf.bytes().len() as int)
}

/// Offset of the cursor into `origin`.
pub open spec fn offset(buf: ByteBuffer, base: int) -> int {
    buf.pos() - base
}

proof fn lemma_window(bytes: Seq<u8>, base: int, off: int, w: int)
    requires
        0 <= base,
        0 <= off,
        0 <= w,
        base + off + w <= bytes.len(),
    ensures
        bytes.subrange(base + off, base + off + w) == bytes.subrange(
            base,
            bytes.len() as int,
        ).subrange(off, off + w),
{
    assert(bytes.subrange(base + off, base + off + w) =~= bytes.subrange(
        base,
        bytes.len() as int,
    ).subrange(off, off + w));
}

/// Reads a `u8`.
pub(crate) fn get_u8(buf: &mut ByteBuffer, Ghost(origin): Ghost<Seq<u8>>, Ghost(base): Ghost<int>) -> (r:
    Option<u8>)
    requires
        reading_from(*old(buf), origin, base),
    ensures
        reading_from(*final(buf), origin, base),
        final(buf).bytes() == old(buf).bytes(),
        offset(*old(buf), base) + 1 <= origin.len() ==> r == Some(origin[offset(*old(buf), base)])
            && final(buf).pos() == old(buf).pos() + 1,
        offset(*old(buf), base) + 1 > origin.len() ==> r is None && final(buf).pos() == old(
            buf,
        ).pos(),
{
    let mut arr = [0u8; 1];
    let res = buf.read(&mut arr);
    proof {
        let off = offset(*old(buf), base);
        if off + 1 <= origin.len() {
            lemma_window(old(buf).bytes(), base, off, 1);
            assert(origin[off] == origin.subrange(off, off + 1)[0]);
        }
    }
    match res {
        Some(()) => Some(arr[0]),
        None => None,
    }
}

/// Reads a `u32`.
pub(crate) fn get_u32(buf: &mut ByteBuffer, Ghost(origin): Ghost<Seq<u8>>, Ghost(base): Ghost<int>) -> (r:
    Option<u32>)
    requires
        reading_from(*old(buf), origin, base),
    ensures
        reading_from(*final(buf), origin, base),
        final(buf).bytes() == old(buf).bytes(),
        offset(*old(buf), base) + 4 <= origin.len() ==> r == Some(
            parse_u32_at(origin, offset(*old(buf), base)),
        ) && final(buf).pos() == old(buf).pos() + 4,
        offset(*old(buf), base) + 4 > origin.len() ==> r is None && final(buf).pos() == old(
            buf,
        ).pos(),
{
    let mut arr = [0u8; 4];
    let res = buf.read(&mut arr);
    proof {
        let off = offset(*old(buf), base);
        if off + 4 <= origin.len() {
            lemma_window(old(buf).bytes(), base, off, 4);
        }
    }
    match res {
        Some(()) => Some(vstd::bytes::u32_from_le_bytes(&arr)),
        None => None,
    }
}

/// Reads an `i32`.
pub(crate) fn get_i32(buf: &mut ByteBuffer, Ghost(origin): Ghost<Seq<u8>>, Ghost(base): Ghost<int>) -> (r:
    Option<i32>)
    requires
        reading_from(*old(buf), origin, base),
    ensures
        reading_from(*final(buf), origin, base),
        final(buf).bytes() == old(buf).bytes(),
        offset(*old(buf), base) + 4 <= origin.len() ==> r == Some(
            parse_i32_at(origin, offset(*old(buf), base)),
        ) && final(buf).pos() == old(buf).pos() + 4,
        offset(*old(buf), base) + 4 > origin.len() ==> r is None && final(buf).pos() == old(
            buf,
        ).pos(),
{
    let mut arr = [0u8; 4];
    let res = buf.read(&mut arr);
    proof {
        let off = offset(*old(buf), base);
        if off + 4 <= origin.len() {
            lemma_window(old(buf).bytes(), base, off, 4);
        }
    }
    match res {
        Some(()) => Some(vstd::bytes::u32_from_le_bytes(&arr) as i32),
        None => None,
    }
}

/// Reads a `u64`.
pub(crate) fn get_u64(buf: &mut ByteBuffer, Ghost(origin): Ghost<Seq<u8>>, Ghost(base): Ghost<int>) -> (r:
    Option<u64>)
    requires
        reading_from(*old(buf), origin, base),
    ensures
        reading_from(*final(buf), origin, base),
        final(buf).bytes() == old(buf).bytes(),
        offset(*old(buf), base) + 8 <= origin.len() ==> r == Some(
            parse_u64_at(origin, offset(*old(buf), base)),
        ) && final(buf).pos() == old(buf).pos() + 8,
        offset(*old(buf), base) + 8 > origin.len() ==> r is None && final(buf).pos() == old(
            buf,
        ).pos(),
{
    let mut arr = [0u8; 8];
    let res = buf.read(&mut arr);
    proof {
        let off = offset(*old(buf), base);
        if off + 8 <= origin.len() {
            lemma_window(old(buf).bytes(), base, off, 8);
        }
    }
    match res {
        Some(()) => Some(vstd::bytes::u64_from_le_bytes(&arr)),
        None => None,
    }
}

/// Reads an `i64`.
pub(crate) fn get_i64(buf: &mut ByteBuffer, Ghost(origin): Ghost<Seq<u8>>, Ghost(base): Ghost<int>) -> (r:
    Option<i64>)
    requires
        reading_from(*old(buf), origin, base),
    ensures
        reading_from(*final(buf), origin, base),
        final(buf).bytes() == old(buf).bytes(),
        offset(*old(buf), base) + 8 <= origin.len() ==> r == Some(
            parse_i64_at(origin, offset(*old(buf), base)),
        ) && final(buf).pos() == old(buf).pos() + 8,
        offset(*old(buf), base) + 8 > origin.len() ==> r is None && final(buf).pos() == old(
            buf,
        ).pos(),
{
    let mut arr = [0u8; 8];
    let res = buf.read(&mut arr);
    proof {
        let off = offset(*old(buf), base);
        if off + 8 <= origin.len() {
            lemma_window(old(buf).bytes(), base, off, 8);
        }
    }
    match res {
        Some(()) => Some(vstd::bytes::u64_from_le_bytes(&arr) as i64),
        None => None,
    }
}

/// Reads `n` bytes into a new vector; `None`, before allocating, when fewer
/// are left.
pub(crate) fn get_bytes(
    buf: &mut ByteBuffer,
    n: usize,
    Ghost(origin): Ghost<Seq<u8>>,
    Ghost(base): Ghost<int>,
) -> (r: Option<Vec<u8>>)
    requires
        reading_from(*old(buf), origin, base),
    ensures
        reading_from(*final(buf), origin, base),
        final(buf).bytes() == old(buf).bytes(),
        offset(*old(buf), base) + n <= origin.len() ==> r is Some && r.unwrap()@ == origin.subrange(
            offset(*old(buf), base),
            offset(*old(buf), base) + n,
        ) && final(buf).pos() == old(buf).pos() + n,
        offset(*old(buf), base) + n > origin.len() ==> r is None && final(buf).pos() == old(
            buf,
        ).pos(),
{
    if buf.remaining() < n {
        return None;
    }
    let mut v: Vec<u8> = vec![0u8; n];
    let res = buf.read(v.as_mut_slice());
    proof {
        let off = offset(*old(buf), base);
        lemma_window(old(buf).bytes(), base, off, n as int);
    }
    match res {
        Some(()) => Some(v),
        None => None,
    }
}

/// Reads 16 bytes into an array.
pub(crate) fn get_array16(buf: &mut ByteBuffer, Ghost(origin): Ghost<Seq<u8>>, Ghost(base): Ghost<int>) -> (r:
    Option<[u8; 16]>)
    requires
        reading_from(*old(buf), origin, base),
    ensures
        reading_from(*final(buf), origin, base),
        final(buf).bytes() == old(buf).bytes(),
        offset(*old(buf), base) + 16 <= origin.len() ==> r is Some && r.unwrap()@ == origin.subrange(
            offset(*old(buf), base),
            offset(*old(buf), base) + 16,
        ) && final(buf).pos() == old(buf).pos() + 16,
        offset(*old(buf), base) + 16 > origin.len() ==> r is None && final(buf).pos() == old(
            buf,
        ).pos(),
{
    let mut arr = [0u8; 16];
    let res = buf.read(&mut arr);
    proof {
        let off = offset(*old(buf), base);
        if off + 16 <= origin.len() {
            lemma_window(old(buf).bytes(), base, off, 16);
        }
    }
    match res {
        Some(()) => Some(arr),
        None => None,
    }
}

} // verus!
