use vex::{read_items, write_chunk, write_u32, Cursor, Vec3Bits, VecError};

#[test]
fn cursor_reads_and_stops_at_the_end() {
    let bytes = [1u8, 0, 0, 0, 0xAA, 0xBB];
    let mut c = Cursor::new(&bytes);
    assert!(!c.at_end());
    assert_eq!(c.u32(), Ok(1));
    assert_eq!(c.remaining(), 2);
    assert_eq!(c.take(4), Err(VecError::UnexpectedEnd));
    assert_eq!(c.remaining(), 2, "a failed read does not move");
    assert_eq!(c.slice(2), Ok(&[0xAAu8, 0xBB][..]));
    assert!(c.at_end());
    assert_eq!(c.float_bits(), Err(VecError::UnexpectedEnd));
}

#[test]
fn float_bits_are_read_exactly() {
    let bytes = 1.5f32.to_le_bytes();
    let mut c = Cursor::new(&bytes);
    assert_eq!(c.float_bits(), Ok(1.5f32.to_bits()));
}

#[test]
fn write_helpers_are_little_endian() {
    let mut w = Vec::new();
    write_chunk(&mut w, *b"TEST", 0x0102_0304);
    write_u32(&mut w, 7);
    assert_eq!(w, vec![b'T', b'E', b'S', b'T', 4, 3, 2, 1, 7, 0, 0, 0]);
}

#[test]
fn read_items_checks_count_and_length() {
    let mut payload = 1u32.to_le_bytes().to_vec();
    for f in [1.0f32, 2.0, 3.0] {
        payload.extend_from_slice(&f.to_le_bytes());
    }
    let mut c = Cursor::new(&payload);
    let items: Vec<Vec3Bits> = read_items(&mut c).unwrap();
    assert_eq!(items, vec![Vec3Bits::new(1.0f32.to_bits(), 2.0f32.to_bits(), 3.0f32.to_bits())]);

    let short = [2u8, 0, 0, 0, 1, 2, 3, 4];
    let mut c = Cursor::new(&short);
    assert_eq!(read_items::<u32>(&mut c), Err(VecError::ChunkLengthMismatch));
}
