use manticore::error::Error;
use manticore::reader::Reader;

#[test]
fn reads_little_endian_and_slices() {
    let input: &[u8] = &[0x34, 0x12, 0xaa, 1, 2, 3, 4];
    let mut r = Reader::new(input);
    assert_eq!(r.read_u16_le(), Ok(0x1234));
    assert_eq!(r.read_u8(), Ok(0xaa));
    assert_eq!(r.read_slice(2), Ok(&[1u8, 2][..]));
    assert_eq!(r.remaining_data(), 2);
    assert_eq!(r.read_slice(3), Err(Error::BufferExhausted));
    assert_eq!(r.remaining_data(), 2);
    assert_eq!(r.read_rest(), &[3, 4]);
    assert_eq!(r.remaining_data(), 0);
    assert_eq!(r.read_u8(), Err(Error::BufferExhausted));
    assert_eq!(r.read_u16_le(), Err(Error::BufferExhausted));
}

#[test]
fn read_bytes_fills_exactly() {
    let input: &[u8] = &[9, 8, 7, 6];
    let mut r = Reader::new(input);
    let mut out = [0u8; 3];
    r.read_bytes(&mut out).unwrap();
    assert_eq!(out, [9, 8, 7]);
    assert_eq!(r.remaining_data(), 1);

    let mut too_many = [5u8; 2];
    assert_eq!(r.read_bytes(&mut too_many), Err(Error::BufferExhausted));
    assert_eq!(too_many, [5, 5]);
    assert_eq!(r.remaining_data(), 1);
}
