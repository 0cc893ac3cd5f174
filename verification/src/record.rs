//! Records of the cache file: each payload is stored behind an 8-byte
//! header holding its length and its CRC-32, both as little-endian `u32`.
use crate::buffer::ByteBuffer;
use crate::checksum::crc32_ieee;
use crate::ser::{parse_u32_at, u32_bytes, Serializable};
use vstd::prelude::*;

verus! {

/// Size of a record header in bytes.
pub const RECORD_HEADER_LEN: usize = 8;

/// Why a stored record could not be taken back.
#[derive(PartialEq, Eq, Structural, Clone, Copy, Debug)]
pub enum RecordError {
    /// The header had no room for the payload length.
    MissingSize,
    /// The header had no room for the checksum.
    MissingChecksum,
    /// The payload does not match the stored checksum.
    Corrupted,
}

/// The header stored in front of `payload`.
pub open spec fn record_header_bytes(payload: Seq<u8>) -> Seq<u8> {
    u32_bytes(payload.len() as u32) + u32_bytes(crc32_ieee(payload))
}

/// A whole record: header, then payload.
pub open spec fn record_bytes(payload: Seq<u8>) -> Seq<u8> {
    record_header_bytes(payload) + payload
}

/// The record stored at the front of `file`: its payload and the number of
/// bytes it takes; `None` where the bytes are too few or the checksum fails.
pub open spec fn parse_record(file: Seq<u8>) -> Option<(Seq<u8>, nat)> {
    if file.len() < 8 {
        None
    } else {
        let len = parse_u32_at(file, 0);
        let crc = parse_u32_at(file, 4);
        if file.len() < 8 + len {
            None
        } else {
            let payload = file.subrange(8, 8 + len);
            if crc == crc32_ieee(payload) {
                Some((payload, (8 + len) as nat))
            } else {
                None
            }
        }
    }
}

/// Fills `header` with the record header of `payload`: the payload length
/// (truncated to `u32`) and its CRC-32.
pub fn write_record_header(payload: &ByteBuffer, header: &mut ByteBuffer)
    requires
        old(header).inv(),
    ensures
        final(header).inv(),
        final(header).bytes() == record_header_bytes(payload.bytes()),
        final(header).pos() == 0,
{
    header.clear();
    let len: u32 = #[verifier::truncate] (payload.len() as u32);
    header.write_ser(&len);
    let crc = payload.crc_32();
    header.write_ser(&crc);
    assert(header.bytes() =~= record_header_bytes(payload.bytes()));
}

/// Reads the payload length and the checksum from a record header at the
/// cursor of `header`.
pub fn read_record_header(header: &mut ByteBuffer) -> (r: Result<(u32, u32), RecordError>)
    requires
        old(header).inv(),
    ensures
        final(header).inv(),
        final(header).bytes() == old(header).bytes(),
        old(header).unread().len() < 4 ==> r == Err::<(u32, u32), RecordError>(
            RecordError::MissingSize,
        ),
        4 <= old(header).unread().len() < 8 ==> r == Err::<(u32, u32), RecordError>(
            RecordError::MissingChecksum,
        ),
        old(header).unread().len() >= 8 ==> {
            &&& r == Ok::<(u32, u32), RecordError>(
                (parse_u32_at(old(header).unread(), 0), parse_u32_at(old(header).unread(), 4)),
            )
            &&& final(header).pos() == old(header).pos() + 8
        },
{
    let len = match header.read_ser::<u32>() {
        Some(len) => len,
        None => return Err(RecordError::MissingSize),
    };
    let ghost mid = header.unread();
    let crc = match header.read_ser::<u32>() {
        Some(crc) => crc,
        None => return Err(RecordError::MissingChecksum),
    };
    assert(mid.subrange(0, 4) =~= old(header).unread().subrange(4, 8));
    Ok((len, crc))
}

/// Checks a payload read back against the checksum of its header.
pub fn check_record(crc: u32, payload: &ByteBuffer) -> (r: Result<(), RecordError>)
    ensures
        r is Ok <==> crc == crc32_ieee(payload.bytes()),
        r is Err ==> r == Err::<(), RecordError>(RecordError::Corrupted),
{
    if crc != payload.crc_32() {
        Err(RecordError::Corrupted)
    } else {
        Ok(())
    }
}

/// A record written for a payload of at most `u32::MAX` bytes is read back
/// as that payload, whatever follows it in the file.
pub proof fn lemma_record_roundtrip(payload: Seq<u8>, rest: Seq<u8>)
    requires
        payload.len() <= u32::MAX,
    ensures
        parse_record(record_bytes(payload) + rest) == Some((payload, (8 + payload.len()) as nat)),
{
    let file = record_bytes(payload) + rest;
    let len = payload.len() as u32;
    let crc = crc32_ieee(payload);
    vstd::bytes::lemma_auto_spec_u32_to_from_le_bytes();
    assert(u32_bytes(len).len() == 4);
    assert(u32_bytes(crc).len() == 4);
    assert(file.subrange(0, 4) =~= u32_bytes(len));
    assert(file.subrange(4, 8) =~= u32_bytes(crc));
    assert(file.subrange(8, 8 + payload.len() as int) =~= payload);
}

} // verus!
