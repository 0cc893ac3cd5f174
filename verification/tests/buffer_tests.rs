use player::buffer::ByteBuffer;

#[test]
fn new_buffer_is_empty() {
    let b = ByteBuffer::new(16);
    assert_eq!(b.len(), 0);
    assert_eq!(b.remaining(), 0);
    assert!(b.capacity() >= 16);
    assert_eq!(b.internal(), &[] as &[u8]);
}

#[test]
fn write_then_read_gives_bytes_back() {
    let mut b = ByteBuffer::new(4);
    b.write(&[1, 2, 3, 4, 5]);
    assert_eq!(b.len(), 5);
    let mut dest = [0u8; 3];
    assert_eq!(b.read(&mut dest), Some(()));
    assert_eq!(dest, [1, 2, 3]);
    assert_eq!(b.remaining(), 2);
    let mut rest = [9u8; 2];
    assert_eq!(b.read(&mut rest), Some(()));
    assert_eq!(rest, [4, 5]);
    assert_eq!(b.remaining(), 0);
}

#[test]
fn read_past_end_fails_and_keeps_cursor() {
    let mut b = ByteBuffer::new(4);
    b.write(&[7, 8]);
    let mut dest = [0u8; 3];
    assert_eq!(b.read(&mut dest), None);
    assert_eq!(dest, [0, 0, 0]);
    assert_eq!(b.remaining(), 2);
}

#[test]
fn write_ser_is_little_endian() {
    let mut b = ByteBuffer::new(0);
    b.write_ser(&0x0102_0304u32);
    b.write_ser(&0x0506u16);
    b.write_ser(&true);
    b.write_ser(&7usize);
    assert_eq!(
        b.internal(),
        &[4, 3, 2, 1, 6, 5, 1, 7, 0, 0, 0, 0, 0, 0, 0]
    );
}

#[test]
fn read_ser_reads_written_values() {
    let mut b = ByteBuffer::new(0);
    b.write_ser(&-5i64);
    b.write_ser(&u128::MAX);
    b.write_ser(&false);
    assert_eq!(b.read_ser::<i64>(), Some(-5));
    assert_eq!(b.read_ser::<u128>(), Some(u128::MAX));
    assert_eq!(b.read_ser::<bool>(), Some(false));
    assert_eq!(b.read_ser::<u8>(), None);
}

#[test]
fn bool_reads_only_one_as_true() {
    let mut b = ByteBuffer::new(0);
    b.write(&[1, 2, 0]);
    assert_eq!(b.read_ser::<bool>(), Some(true));
    assert_eq!(b.read_ser::<bool>(), Some(false));
    assert_eq!(b.read_ser::<bool>(), Some(false));
}

#[test]
fn frame_roundtrip() {
    let mut b = ByteBuffer::new(0);
    b.write_frame(&[9, 8, 7]);
    assert_eq!(b.len(), 11);
    let frame = b.read_frame().map(|f| f.to_vec());
    assert_eq!(frame, Some(vec![9, 8, 7]));
    // the frame bytes themselves stay unread
    assert_eq!(b.remaining(), 3);
}

#[test]
fn write_zero_and_read_zero() {
    let mut b = ByteBuffer::new(0);
    b.write_zero::<u64>();
    assert_eq!(b.internal(), &[0u8; 8]);
    b.write(&[42]);
    b.read_zero::<u64>();
    assert_eq!(b.read_ser::<u8>(), Some(42));
}

#[test]
fn internal_mut_grows_with_zeros() {
    let mut b = ByteBuffer::new(0);
    b.write(&[1, 2]);
    {
        let s = b.internal_mut(4);
        assert_eq!(s, &[1, 2, 0, 0]);
        s[3] = 9;
    }
    assert_eq!(b.internal(), &[1, 2, 0, 9]);
    let s = b.internal_mut(1);
    assert_eq!(s, &[1]);
    assert_eq!(b.len(), 4);
}

#[test]
fn clear_resets_everything() {
    let mut b = ByteBuffer::new(0);
    b.write(&[1, 2, 3]);
    b.read_ser::<u8>();
    b.clear();
    assert_eq!(b.len(), 0);
    assert_eq!(b.remaining(), 0);
}

#[test]
fn crc_32_of_check_string() {
    let mut b = ByteBuffer::new(0);
    b.write(b"123456789");
    assert_eq!(b.crc_32(), 0xCBF4_3926);
    assert_eq!(b.crc_32(), crc32fast::hash(b"123456789"));
}

#[test]
fn crc_32_of_empty_buffer() {
    let b = ByteBuffer::new(0);
    assert_eq!(b.crc_32(), 0);
}

#[test]
fn skip_moves_past_the_end() {
    let mut b = ByteBuffer::new(0);
    b.write(&[1, 2, 3]);
    b.skip(2);
    assert_eq!(b.remaining(), 1);
    // the cursor now stands past the written bytes; a clear rewinds it
    b.skip(10);
    b.clear();
    b.write(&[7]);
    assert_eq!(b.read_ser::<u8>(), Some(7));
}

#[test]
fn fixed_width_values_read_back() {
    let mut b = ByteBuffer::new(0);
    b.write_ser(&0x1234_5678u32);
    assert_eq!(b.read_ser::<u32>(), Some(0x1234_5678));
    assert_eq!(b.remaining(), 0);
    b.write_ser(&-5i64);
    assert_eq!(b.read_ser::<i64>(), Some(-5));
    b.write_ser(&true);
    assert_eq!(b.read_ser::<bool>(), Some(true));
    b.write_ser(&usize::MAX);
    assert_eq!(b.read_ser::<usize>(), Some(usize::MAX));
    assert_eq!(b.remaining(), 0);
}

#[test]
fn short_read_leaves_cursor() {
    let mut b = ByteBuffer::new(0);
    b.write(&[1, 2, 3]);
    assert_eq!(b.read_ser::<u32>(), None);
    assert_eq!(b.remaining(), 3);
    assert_eq!(b.read_ser::<u16>(), Some(0x0201));
    assert_eq!(b.remaining(), 1);
}

#[test]
fn i8_values_read_back() {
    let mut b = ByteBuffer::new(0);
    b.write_ser(&-7i8);
    assert_eq!(b.internal(), &[0xF9u8]);
    assert_eq!(b.read_ser::<i8>(), Some(-7));
    assert_eq!(b.read_ser::<i8>(), None);
}
