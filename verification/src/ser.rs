//! Values that write themselves into a `ByteBuffer` and read themselves
//! back; the fixed-width integers and `bool` in little-endian order.
use crate::buffer::ByteBuffer;
use vstd::bytes::*;
use vstd::prelude::*;

verus! {

/// A value with a binary encoding in a `ByteBuffer`.
pub trait Serializable: Sized {
    /// The plain value that the encoding carries.
    type Model;

    /// The plain value of `self`.
    spec fn model(&self) -> Self::Model;

    /// Whether `self` fits its encoding (lengths within their fields).
    spec fn serializable(&self) -> bool;

    /// The bytes that `serialize` appends for a value.
    spec fn encode(m: Self::Model) -> Seq<u8>;

    /// What `deserialize` reads from the front of `s`, and how many bytes it
    /// consumes; `None` where it fails.
    spec fn parse_bytes(s: Seq<u8>) -> Option<(Self::Model, nat)>;

    /// Whether a failed read leaves the cursor where it was.
    spec fn fails_in_place() -> bool;

    /// Whether a read never moves the cursor past the written bytes.
    spec fn stays_within() -> bool;

    /// Appends the encoding of `self`.
    fn serialize(&self, buffer: &mut ByteBuffer)
        requires
            old(buffer).inv(),
            self.serializable(),
        ensures
            final(buffer).inv(),
            final(buffer).bytes() == old(buffer).bytes() + Self::encode(self.model()),
            final(buffer).pos() == old(buffer).pos(),
    ;

    /// Reads a value at the cursor of `buffer`.
    fn deserialize(buffer: &mut ByteBuffer) -> (r: Option<Self>)
        requires
            old(buffer).inv(),
        ensures
            final(buffer).wf(),
            Self::stays_within() || r is None ==> final(buffer).inv(),
            final(buffer).bytes() == old(buffer).bytes(),
            match Self::parse_bytes(old(buffer).unread()) {
                Some((m, n)) => r is Some && r.unwrap().model() == m && final(buffer).pos()
                    == old(buffer).pos() + n,
                None => r is None && (Self::fails_in_place() ==> final(buffer).pos() == old(
                    buffer,
                ).pos()),
            },
    ;
}

/// Little-endian bytes of a `u64`.
pub open spec fn u64_bytes(x: u64) -> Seq<u8> {
    spec_u64_to_le_bytes(x)
}

/// Little-endian bytes of a `u32`.
pub open spec fn u32_bytes(x: u32) -> Seq<u8> {
    spec_u32_to_le_bytes(x)
}

/// Little-endian bytes of a `u16`.
pub open spec fn u16_bytes(x: u16) -> Seq<u8> {
    spec_u16_to_le_bytes(x)
}

/// Little-endian bytes of a `u128`.
pub open spec fn u128_bytes(x: u128) -> Seq<u8> {
    spec_u128_to_le_bytes(x)
}

/// The `u64` stored little-endian at `s[i..i + 8]`.
pub open spec fn parse_u64_at(s: Seq<u8>, i: int) -> u64 {
    spec_u64_from_le_bytes(s.subrange(i, i + 8))
}

/// The `u32` stored little-endian at `s[i..i + 4]`.
pub open spec fn parse_u32_at(s: Seq<u8>, i: int) -> u32 {
    spec_u32_from_le_bytes(s.subrange(i, i + 4))
}

/// The `u16` stored little-endian at `s[i..i + 2]`.
pub open spec fn parse_u16_at(s: Seq<u8>, i: int) -> u16 {
    spec_u16_from_le_bytes(s.subrange(i, i + 2))
}

/// The `u128` stored little-endian at `s[i..i + 16]`.
pub open spec fn parse_u128_at(s: Seq<u8>, i: int) -> u128 {
    spec_u128_from_le_bytes(s.subrange(i, i + 16))
}

/// The `i64` stored little-endian at `s[i..i + 8]`.
pub open spec fn parse_i64_at(s: Seq<u8>, i: int) -> i64 {
    parse_u64_at(s, i) as i64
}

/// The `i32` stored little-endian at `s[i..i + 4]`.
pub open spec fn parse_i32_at(s: Seq<u8>, i: int) -> i32 {
    parse_u32_at(s, i) as i32
}

/// Fixed-width read: `Some((f(s[..w]), w))` when `s` holds `w` bytes.
pub open spec fn fixed<T>(s: Seq<u8>, w: nat, v: T) -> Option<(T, nat)> {
    if s.len() >= w {
        Some((v, w))
    } else {
        None
    }
}

impl Serializable for u8 {
    type Model = u8;

    open spec fn fails_in_place() -> bool {
        true
    }

    open spec fn stays_within() -> bool {
        true
    }

    open spec fn model(&self) -> u8 {
        *self
    }

    open spec fn serializable(&self) -> bool {
        true
    }

    open spec fn encode(m: u8) -> Seq<u8> {
        seq![m]
    }

    open spec fn parse_bytes(s: Seq<u8>) -> Option<(u8, nat)> {
        if s.len() >= 1 {
            Some((s[0], 1))
        } else {
            None
        }
    }

    fn serialize(&self, buffer: &mut ByteBuffer) {
        let arr = [*self];
        buffer.write(&arr);
        assert(arr@ =~= seq![*self]);
    }

    fn deserialize(buffer: &mut ByteBuffer) -> (r: Option<u8>) {
        let mut arr = [0u8; 1];
        match buffer.read(&mut arr) {
            Some(()) => Some(arr[0]),
            None => None,
        }
    }
}


impl Serializable for u16 {
    type Model = u16;

    open spec fn fails_in_place() -> bool {
        true
    }

    open spec fn stays_within() -> bool {
        true
    }

    open spec fn model(&self) -> u16 {
        *self
    }

    open spec fn serializable(&self) -> bool {
        true
    }

    open spec fn encode(m: u16) -> Seq<u8> {
        u16_bytes(m)
    }

    open spec fn parse_bytes(s: Seq<u8>) -> Option<(u16, nat)> {
        fixed(s, 2, parse_u16_at(s, 0))
    }

    fn serialize(&self, buffer: &mut ByteBuffer) {
        let bytes = u16_to_le_bytes(*self);
        buffer.write(bytes.as_slice());
    }

    fn deserialize(buffer: &mut ByteBuffer) -> (r: Option<u16>) {
        let mut arr = [0u8; 2];
        match buffer.read(&mut arr) {
            Some(()) => {
                assert(arr@ =~= buffer.bytes().subrange(old(buffer).pos() as int, (old(buffer).pos() + 2) as int));
                assert(old(buffer).unread().subrange(0, 2) =~= arr@);
                Some(u16_from_le_bytes(&arr))
            },
            None => None,
        }
    }
}

impl Serializable for u32 {
    type Model = u32;

    open spec fn fails_in_place() -> bool {
        true
    }

    open spec fn stays_within() -> bool {
        true
    }

    open spec fn model(&self) -> u32 {
        *self
    }

    open spec fn serializable(&self) -> bool {
        true
    }

    open spec fn encode(m: u32) -> Seq<u8> {
        u32_bytes(m)
    }

    open spec fn parse_bytes(s: Seq<u8>) -> Option<(u32, nat)> {
        fixed(s, 4, parse_u32_at(s, 0))
    }

    fn serialize(&self, buffer: &mut ByteBuffer) {
        let bytes = u32_to_le_bytes(*self);
        buffer.write(bytes.as_slice());
    }

    fn deserialize(buffer: &mut ByteBuffer) -> (r: Option<u32>) {
        let mut arr = [0u8; 4];
        match buffer.read(&mut arr) {
            Some(()) => {
                assert(arr@ =~= buffer.bytes().subrange(old(buffer).pos() as int, (old(buffer).pos() + 4) as int));
                assert(old(buffer).unread().subrange(0, 4) =~= arr@);
                Some(u32_from_le_bytes(&arr))
            },
            None => None,
        }
    }
}

impl Serializable for u64 {
    type Model = u64;

    open spec fn fails_in_place() -> bool {
        true
    }

    open spec fn stays_within() -> bool {
        true
    }

    open spec fn model(&self) -> u64 {
        *self
    }

    open spec fn serializable(&self) -> bool {
        true
    }

    open spec fn encode(m: u64) -> Seq<u8> {
        u64_bytes(m)
    }

    open spec fn parse_bytes(s: Seq<u8>) -> Option<(u64, nat)> {
        fixed(s, 8, parse_u64_at(s, 0))
    }

    fn serialize(&self, buffer: &mut ByteBuffer) {
        let bytes = u64_to_le_bytes(*self);
        buffer.write(bytes.as_slice());
    }

    fn deserialize(buffer: &mut ByteBuffer) -> (r: Option<u64>) {
        let mut arr = [0u8; 8];
        match buffer.read(&mut arr) {
            Some(()) => {
                assert(arr@ =~= buffer.bytes().subrange(old(buffer).pos() as int, (old(buffer).pos() + 8) as int));
                assert(old(buffer).unread().subrange(0, 8) =~= arr@);
                Some(u64_from_le_bytes(&arr))
            },
            None => None,
        }
    }
}

impl Serializable for u128 {
    type Model = u128;

    open spec fn fails_in_place() -> bool {
        true
    }

    open spec fn stays_within() -> bool {
        true
    }

    open spec fn model(&self) -> u128 {
        *self
    }

    open spec fn serializable(&self) -> bool {
        true
    }

    open spec fn encode(m: u128) -> Seq<u8> {
        u128_bytes(m)
    }

    open spec fn parse_bytes(s: Seq<u8>) -> Option<(u128, nat)> {
        fixed(s, 16, parse_u128_at(s, 0))
    }

    fn serialize(&self, buffer: &mut ByteBuffer) {
        let bytes = u128_to_le_bytes(*self);
        buffer.write(bytes.as_slice());
    }

    fn deserialize(buffer: &mut ByteBuffer) -> (r: Option<u128>) {
        let mut arr = [0u8; 16];
        match buffer.read(&mut arr) {
            Some(()) => {
                assert(arr@ =~= buffer.bytes().subrange(old(buffer).pos() as int, (old(buffer).pos() + 16) as int));
                assert(old(buffer).unread().subrange(0, 16) =~= arr@);
                Some(u128_from_le_bytes(&arr))
            },
            None => None,
        }
    }
}

impl Serializable for i8 {
    type Model = i8;

    open spec fn fails_in_place() -> bool {
        true
    }

    open spec fn stays_within() -> bool {
        true
    }

    open spec fn model(&self) -> i8 {
        *self
    }

    open spec fn serializable(&self) -> bool {
        true
    }

    open spec fn encode(m: i8) -> Seq<u8> {
        seq![m as u8]
    }

    open spec fn parse_bytes(s: Seq<u8>) -> Option<(i8, nat)> {
        fixed(s, 1, s[0] as i8)
    }

    fn serialize(&self, buffer: &mut ByteBuffer) {
        let arr = [*self as u8];
        buffer.write(&arr);
        assert(arr@ =~= seq![*self as u8]);
    }

    fn deserialize(buffer: &mut ByteBuffer) -> (r: Option<i8>) {
        let mut arr = [0u8; 1];
        match buffer.read(&mut arr) {
            Some(()) => Some(arr[0] as i8),
            None => None,
        }
    }
}

impl Serializable for i16 {
    type Model = i16;

    open spec fn fails_in_place() -> bool {
        true
    }

    open spec fn stays_within() -> bool {
        true
    }

    open spec fn model(&self) -> i16 {
        *self
    }

    open spec fn serializable(&self) -> bool {
        true
    }

    open spec fn encode(m: i16) -> Seq<u8> {
        u16_bytes(m as u16)
    }

    open spec fn parse_bytes(s: Seq<u8>) -> Option<(i16, nat)> {
        fixed(s, 2, parse_u16_at(s, 0) as i16)
    }

    fn serialize(&self, buffer: &mut ByteBuffer) {
        let bytes = u16_to_le_bytes(*self as u16);
        buffer.write(bytes.as_slice());
    }

    fn deserialize(buffer: &mut ByteBuffer) -> (r: Option<i16>) {
        let mut arr = [0u8; 2];
        match buffer.read(&mut arr) {
            Some(()) => {
                assert(arr@ =~= buffer.bytes().subrange(old(buffer).pos() as int, (old(buffer).pos() + 2) as int));
                assert(old(buffer).unread().subrange(0, 2) =~= arr@);
                Some(u16_from_le_bytes(&arr) as i16)
            },
            None => None,
        }
    }
}

impl Serializable for i32 {
    type Model = i32;

    open spec fn fails_in_place() -> bool {
        true
    }

    open spec fn stays_within() -> bool {
        true
    }

    open spec fn model(&self) -> i32 {
        *self
    }

    open spec fn serializable(&self) -> bool {
        true
    }

    open spec fn encode(m: i32) -> Seq<u8> {
        u32_bytes(m as u32)
    }

    open spec fn parse_bytes(s: Seq<u8>) -> Option<(i32, nat)> {
        fixed(s, 4, parse_u32_at(s, 0) as i32)
    }

    fn serialize(&self, buffer: &mut ByteBuffer) {
        let bytes = u32_to_le_bytes(*self as u32);
        buffer.write(bytes.as_slice());
    }

    fn deserialize(buffer: &mut ByteBuffer) -> (r: Option<i32>) {
        let mut arr = [0u8; 4];
        match buffer.read(&mut arr) {
            Some(()) => {
                assert(arr@ =~= buffer.bytes().subrange(old(buffer).pos() as int, (old(buffer).pos() + 4) as int));
                assert(old(buffer).unread().subrange(0, 4) =~= arr@);
                Some(u32_from_le_bytes(&arr) as i32)
            },
            None => None,
        }
    }
}

impl Serializable for i64 {
    type Model = i64;

    open spec fn fails_in_place() -> bool {
        true
    }

    open spec fn stays_within() -> bool {
        true
    }

    open spec fn model(&self) -> i64 {
        *self
    }

    open spec fn serializable(&self) -> bool {
        true
    }

    open spec fn encode(m: i64) -> Seq<u8> {
        u64_bytes(m as u64)
    }

    open spec fn parse_bytes(s: Seq<u8>) -> Option<(i64, nat)> {
        fixed(s, 8, parse_u64_at(s, 0) as i64)
    }

    fn serialize(&self, buffer: &mut ByteBuffer) {
        let bytes = u64_to_le_bytes(*self as u64);
        buffer.write(bytes.as_slice());
    }

    fn deserialize(buffer: &mut ByteBuffer) -> (r: Option<i64>) {
        let mut arr = [0u8; 8];
        match buffer.read(&mut arr) {
            Some(()) => {
                assert(arr@ =~= buffer.bytes().subrange(old(buffer).pos() as int, (old(buffer).pos() + 8) as int));
                assert(old(buffer).unread().subrange(0, 8) =~= arr@);
                Some(u64_from_le_bytes(&arr) as i64)
            },
            None => None,
        }
    }
}

impl Serializable for i128 {
    type Model = i128;

    open spec fn fails_in_place() -> bool {
        true
    }

    open spec fn stays_within() -> bool {
        true
    }

    open spec fn model(&self) -> i128 {
        *self
    }

    open spec fn serializable(&self) -> bool {
        true
    }

    open spec fn encode(m: i128) -> Seq<u8> {
        u128_bytes(m as u128)
    }

    open spec fn parse_bytes(s: Seq<u8>) -> Option<(i128, nat)> {
        fixed(s, 16, parse_u128_at(s, 0) as i128)
    }

    fn serialize(&self, buffer: &mut ByteBuffer) {
        let bytes = u128_to_le_bytes(*self as u128);
        buffer.write(bytes.as_slice());
    }

    fn deserialize(buffer: &mut ByteBuffer) -> (r: Option<i128>) {
        let mut arr = [0u8; 16];
        match buffer.read(&mut arr) {
            Some(()) => {
                assert(arr@ =~= buffer.bytes().subrange(old(buffer).pos() as int, (old(buffer).pos() + 16) as int));
                assert(old(buffer).unread().subrange(0, 16) =~= arr@);
                Some(u128_from_le_bytes(&arr) as i128)
            },
            None => None,
        }
    }
}

impl Serializable for usize {
    type Model = usize;

    open spec fn fails_in_place() -> bool {
        true
    }

    open spec fn stays_within() -> bool {
        true
    }

    open spec fn model(&self) -> usize {
        *self
    }

    open spec fn serializable(&self) -> bool {
        true
    }

    open spec fn encode(m: usize) -> Seq<u8> {
        u64_bytes(m as u64)
    }

    open spec fn parse_bytes(s: Seq<u8>) -> Option<(usize, nat)> {
        fixed(s, 8, parse_u64_at(s, 0) as usize)
    }

    fn serialize(&self, buffer: &mut ByteBuffer) {
        let bytes = u64_to_le_bytes(*self as u64);
        buffer.write(bytes.as_slice());
    }

    fn deserialize(buffer: &mut ByteBuffer) -> (r: Option<usize>) {
        let mut arr = [0u8; 8];
        match buffer.read(&mut arr) {
            Some(()) => {
                assert(arr@ =~= buffer.bytes().subrange(old(buffer).pos() as int, (old(buffer).pos() + 8) as int));
                assert(old(buffer).unread().subrange(0, 8) =~= arr@);
                Some(u64_from_le_bytes(&arr) as usize)
            },
            None => None,
        }
    }
}


impl Serializable for bool {
    type Model = bool;

    open spec fn fails_in_place() -> bool {
        true
    }

    open spec fn stays_within() -> bool {
        true
    }

    open spec fn model(&self) -> bool {
        *self
    }

    open spec fn serializable(&self) -> bool {
        true
    }

    open spec fn encode(m: bool) -> Seq<u8> {
        seq![if m { 1u8 } else { 0u8 }]
    }

    open spec fn parse_bytes(s: Seq<u8>) -> Option<(bool, nat)> {
        fixed(s, 1, s[0] == 1)
    }

    fn serialize(&self, buffer: &mut ByteBuffer) {
        let val: u8 = if *self { 1u8 } else { 0u8 };
        buffer.write_ser(&val);
    }

    fn deserialize(buffer: &mut ByteBuffer) -> (r: Option<bool>) {
        match buffer.read_ser::<u8>() {
            Some(v) => Some(v == 1),
            None => None,
        }
    }
}

/// A written `u16` is read back: its encoding parses to it, whatever follows.
pub proof fn lemma_u16_roundtrip(v: u16, rest: Seq<u8>)
    ensures
        <u16 as Serializable>::parse_bytes(<u16 as Serializable>::encode(v) + rest) == Some((v, 2nat)),
        <i16 as Serializable>::parse_bytes(<i16 as Serializable>::encode(v as i16) + rest) == Some((v as i16, 2nat)),
{
    lemma_auto_spec_u16_to_from_le_bytes();
    let s = u16_bytes(v) + rest;
    assert(s.subrange(0, 2) =~= u16_bytes(v));
    assert(((v as i16) as u16) == v) by (bit_vector);
}

/// A written `u32` (or `i32`) is read back, whatever follows.
pub proof fn lemma_u32_roundtrip(v: u32, rest: Seq<u8>)
    ensures
        <u32 as Serializable>::parse_bytes(<u32 as Serializable>::encode(v) + rest) == Some((v, 4nat)),
        <i32 as Serializable>::parse_bytes(<i32 as Serializable>::encode(v as i32) + rest) == Some((v as i32, 4nat)),
{
    lemma_auto_spec_u32_to_from_le_bytes();
    let s = u32_bytes(v) + rest;
    assert(s.subrange(0, 4) =~= u32_bytes(v));
    assert(((v as i32) as u32) == v) by (bit_vector);
}

/// A written `u64` (or `i64`, or `usize`) is read back, whatever follows.
pub proof fn lemma_u64_roundtrip(v: u64, rest: Seq<u8>)
    ensures
        <u64 as Serializable>::parse_bytes(<u64 as Serializable>::encode(v) + rest) == Some((v, 8nat)),
        <i64 as Serializable>::parse_bytes(<i64 as Serializable>::encode(v as i64) + rest) == Some((v as i64, 8nat)),
        v <= usize::MAX ==> <usize as Serializable>::parse_bytes(
            <usize as Serializable>::encode(v as usize) + rest,
        ) == Some((v as usize, 8nat)),
{
    lemma_auto_spec_u64_to_from_le_bytes();
    let s = u64_bytes(v) + rest;
    assert(s.subrange(0, 8) =~= u64_bytes(v));
    assert(((v as i64) as u64) == v) by (bit_vector);
}

/// A written `u128` (or `i128`) is read back, whatever follows.
pub proof fn lemma_u128_roundtrip(v: u128, rest: Seq<u8>)
    ensures
        <u128 as Serializable>::parse_bytes(<u128 as Serializable>::encode(v) + rest) == Some((v, 16nat)),
        <i128 as Serializable>::parse_bytes(<i128 as Serializable>::encode(v as i128) + rest) == Some((v as i128, 16nat)),
{
    lemma_auto_spec_u128_to_from_le_bytes();
    let s = u128_bytes(v) + rest;
    assert(s.subrange(0, 16) =~= u128_bytes(v));
    assert(((v as i128) as u128) == v) by (bit_vector);
}

/// A written `u8` or `bool` is read back, whatever follows.
pub proof fn lemma_byte_roundtrip(v: u8, b: bool, rest: Seq<u8>)
    ensures
        <u8 as Serializable>::parse_bytes(<u8 as Serializable>::encode(v) + rest) == Some((v, 1nat)),
        <bool as Serializable>::parse_bytes(<bool as Serializable>::encode(b) + rest) == Some((b, 1nat)),
{
    assert((seq![v] + rest)[0] == v);
    assert((<bool as Serializable>::encode(b) + rest)[0] == (if b { 1u8 } else { 0u8 }));
}


/// Casting a signed value to its unsigned twin and back gives it back.
pub proof fn lemma_signed_casts(a: i64, b: i32, c: i16, d: i8)
    ensures
        (a as u64) as i64 == a,
        (b as u32) as i32 == b,
        (c as u16) as i16 == c,
        (d as u8) as i8 == d,
{
    assert((a as u64) as i64 == a) by (bit_vector);
    assert((b as u32) as i32 == b) by (bit_vector);
    assert((c as u16) as i16 == c) by (bit_vector);
    assert((d as u8) as i8 == d) by (bit_vector);
}

/// Serializable types of one encoded width, whose encoding reads back.
pub trait FixedWidth: Serializable {
    /// The encoded size in bytes.
    spec fn width() -> nat;

    /// The encoding of every value is `width()` bytes and reads back to the
    /// value, whatever follows; fewer bytes than the width do not read.
    proof fn lemma_fixed_roundtrip(m: Self::Model, rest: Seq<u8>, short: Seq<u8>)
        ensures
            Self::encode(m).len() == Self::width(),
            Self::parse_bytes(Self::encode(m) + rest) == Some((m, Self::width())),
            short.len() < Self::width() ==> Self::parse_bytes(short) is None,
            Self::fails_in_place(),
    ;
}

impl FixedWidth for u8 {
    open spec fn width() -> nat {
        1
    }

    proof fn lemma_fixed_roundtrip(m: u8, rest: Seq<u8>, short: Seq<u8>) {
        lemma_byte_roundtrip(m, true, rest);
    }
}

impl FixedWidth for bool {
    open spec fn width() -> nat {
        1
    }

    proof fn lemma_fixed_roundtrip(m: bool, rest: Seq<u8>, short: Seq<u8>) {
        lemma_byte_roundtrip(0, m, rest);
    }
}

impl FixedWidth for u16 {
    open spec fn width() -> nat {
        2
    }

    proof fn lemma_fixed_roundtrip(m: u16, rest: Seq<u8>, short: Seq<u8>) {
        lemma_u16_roundtrip(m, rest);
        lemma_auto_spec_u16_to_from_le_bytes();
    }
}

impl FixedWidth for i8 {
    open spec fn width() -> nat {
        1
    }

    proof fn lemma_fixed_roundtrip(m: i8, rest: Seq<u8>, short: Seq<u8>) {
        assert((seq![m as u8] + rest)[0] == m as u8);
        assert(((m as u8) as i8) == m) by (bit_vector);
    }
}

impl FixedWidth for i16 {
    open spec fn width() -> nat {
        2
    }

    proof fn lemma_fixed_roundtrip(m: i16, rest: Seq<u8>, short: Seq<u8>) {
        lemma_u16_roundtrip(m as u16, rest);
        lemma_auto_spec_u16_to_from_le_bytes();
        assert(((m as u16) as i16) == m) by (bit_vector);
    }
}

impl FixedWidth for u32 {
    open spec fn width() -> nat {
        4
    }

    proof fn lemma_fixed_roundtrip(m: u32, rest: Seq<u8>, short: Seq<u8>) {
        lemma_u32_roundtrip(m, rest);
        lemma_auto_spec_u32_to_from_le_bytes();
    }
}

impl FixedWidth for i32 {
    open spec fn width() -> nat {
        4
    }

    proof fn lemma_fixed_roundtrip(m: i32, rest: Seq<u8>, short: Seq<u8>) {
        lemma_u32_roundtrip(m as u32, rest);
        lemma_auto_spec_u32_to_from_le_bytes();
        assert(((m as u32) as i32) == m) by (bit_vector);
    }
}

impl FixedWidth for u64 {
    open spec fn width() -> nat {
        8
    }

    proof fn lemma_fixed_roundtrip(m: u64, rest: Seq<u8>, short: Seq<u8>) {
        lemma_u64_roundtrip(m, rest);
        lemma_auto_spec_u64_to_from_le_bytes();
    }
}

impl FixedWidth for i64 {
    open spec fn width() -> nat {
        8
    }

    proof fn lemma_fixed_roundtrip(m: i64, rest: Seq<u8>, short: Seq<u8>) {
        lemma_u64_roundtrip(m as u64, rest);
        lemma_auto_spec_u64_to_from_le_bytes();
        assert(((m as u64) as i64) == m) by (bit_vector);
    }
}

impl FixedWidth for usize {
    open spec fn width() -> nat {
        8
    }

    proof fn lemma_fixed_roundtrip(m: usize, rest: Seq<u8>, short: Seq<u8>) {
        lemma_u64_roundtrip(m as u64, rest);
        lemma_auto_spec_u64_to_from_le_bytes();
        assert(((m as u64) as usize) == m);
    }
}

impl FixedWidth for u128 {
    open spec fn width() -> nat {
        16
    }

    proof fn lemma_fixed_roundtrip(m: u128, rest: Seq<u8>, short: Seq<u8>) {
        lemma_u128_roundtrip(m, rest);
        lemma_auto_spec_u128_to_from_le_bytes();
    }
}

impl FixedWidth for i128 {
    open spec fn width() -> nat {
        16
    }

    proof fn lemma_fixed_roundtrip(m: i128, rest: Seq<u8>, short: Seq<u8>) {
        lemma_u128_roundtrip(m as u128, rest);
        lemma_auto_spec_u128_to_from_le_bytes();
        assert(((m as u128) as i128) == m) by (bit_vector);
    }
}

} // verus!
