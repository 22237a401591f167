use manticore::cursor::{Cursor, SeekPos};
use manticore::error::Error;

#[test]
fn cursor() {
    let mut cursor = Cursor::new(vec![0; 8]);

    cursor.write_u32_le(0xffaaffaa).unwrap();
    assert_eq!(cursor.consumed_len(), 4);
    assert_eq!(cursor.consumed_bytes(), &[0xaa, 0xff, 0xaa, 0xff]);
    let bytes = cursor.take_consumed_bytes();
    assert_eq!(bytes, &[0xaa, 0xff, 0xaa, 0xff]);
    assert_eq!(cursor.consumed_len(), 0);

    assert!(cursor.write_bytes(&[0x55; 7]).is_err());
}

#[test]
fn seek_back_to_patch() {
    let mut cursor = Cursor::new(vec![0; 16]);
    cursor.write_bytes(b"barbar").unwrap();

    let mark = cursor.consumed_len();
    cursor.seek(SeekPos::Rel(-5)).unwrap();
    cursor.write_bytes(b"foo").unwrap();
    cursor.seek(SeekPos::Abs(mark)).unwrap();
    assert_eq!(cursor.consumed_bytes(), b"bfooar");
}

#[test]
fn consume_never_decreases() {
    let mut cursor = Cursor::new(vec![0; 10]);
    let mut last = cursor.consumed_len();
    for n in [0usize, 3, 4, 5, 2, 1, 9] {
        let ok = cursor.consume(n).is_ok();
        let now = cursor.consumed_len();
        assert!(now >= last);
        if !ok {
            assert_eq!(now, last);
        }
        last = now;
    }
    assert_eq!(last, 10);
}

#[test]
fn consume_with_prior_returns_what_came_before() {
    let mut cursor = Cursor::new(vec![0; 8]);
    cursor.write_bytes(&[1, 2, 3]).unwrap();
    let (prior, fresh) = cursor.consume_with_prior(2).unwrap();
    assert_eq!(prior, &[1, 2, 3]);
    assert_eq!(fresh.len(), 2);
    fresh[0] = prior.iter().fold(0u8, |a, b| a.wrapping_add(*b));
    fresh[1] = 0xff;
    assert_eq!(cursor.consumed_len(), 5);
    assert_eq!(cursor.consumed_bytes(), &[1, 2, 3, 6, 0xff]);
    assert_eq!(cursor.consume_with_prior(4), Err(Error::BufferExhausted));
    assert_eq!(cursor.consumed_len(), 5);
}

#[test]
fn consume_returns_the_reserved_bytes() {
    let mut cursor = Cursor::new(vec![7; 6]);
    cursor.write_u8(1).unwrap();
    let view = cursor.consume(3).unwrap();
    assert_eq!(view, &[7, 7, 7]);
    view.copy_from_slice(&[4, 5, 6]);
    assert_eq!(cursor.consumed_bytes(), &[1, 4, 5, 6]);
    assert_eq!(cursor.consume(0).unwrap().len(), 0);
    assert_eq!(cursor.consume(3), Err(Error::BufferExhausted));
    assert_eq!(cursor.consumed_len(), 4);
}

#[test]
fn seek_to_consumed_len_changes_nothing() {
    let mut cursor = Cursor::new(vec![7; 6]);
    cursor.write_bytes(&[1, 2, 3]).unwrap();
    let at = cursor.consumed_len();
    cursor.seek(SeekPos::Abs(at)).unwrap();
    assert_eq!(cursor.consumed_len(), at);
    assert_eq!(cursor.consumed_bytes(), &[1, 2, 3]);
}

#[test]
fn seek_rel_and_back() {
    let mut cursor = Cursor::new(vec![0; 10]);
    cursor.consume(4).unwrap();
    cursor.seek(SeekPos::Rel(3)).unwrap();
    assert_eq!(cursor.consumed_len(), 7);
    cursor.seek(SeekPos::Rel(-3)).unwrap();
    assert_eq!(cursor.consumed_len(), 4);
    cursor.seek(SeekPos::Rel(-4)).unwrap();
    assert_eq!(cursor.consumed_len(), 0);
}

#[test]
fn seek_out_of_bounds_fails() {
    let mut cursor = Cursor::new(vec![0; 10]);
    cursor.consume(4).unwrap();
    assert_eq!(cursor.seek(SeekPos::Rel(-5)), Err(Error::BufferExhausted));
    assert_eq!(cursor.seek(SeekPos::Rel(7)), Err(Error::BufferExhausted));
    assert_eq!(cursor.seek(SeekPos::Abs(11)), Err(Error::BufferExhausted));
    assert_eq!(cursor.seek(SeekPos::Rel(isize::MIN)), Err(Error::BufferExhausted));
    assert_eq!(cursor.seek(SeekPos::Rel(isize::MAX)), Err(Error::BufferExhausted));
    assert_eq!(cursor.consumed_len(), 4);
    cursor.seek(SeekPos::Abs(10)).unwrap();
    assert_eq!(cursor.consumed_len(), 10);
    cursor.seek(SeekPos::Rel(-10)).unwrap();
    assert_eq!(cursor.consumed_len(), 0);
}

#[test]
fn take_twice_gives_nothing() {
    let mut cursor = Cursor::new(vec![0; 8]);
    cursor.write_bytes(&[9, 8, 7]).unwrap();
    let first = cursor.take_consumed_bytes();
    assert_eq!(first, vec![9, 8, 7]);
    assert_eq!(cursor.consumed_len(), 0);
    assert_eq!(cursor.remaining_len(), 5);
    let second = cursor.take_consumed_bytes();
    assert!(second.is_empty());
}

#[test]
fn take_lets_messages_follow_each_other() {
    let mut cursor = Cursor::new(vec![0; 6]);
    cursor.write_u16_le(0x0102).unwrap();
    let a = cursor.take_consumed_bytes();
    cursor.write_u8(0xee).unwrap();
    let b = cursor.take_consumed_bytes();
    assert_eq!(a, vec![0x02, 0x01]);
    assert_eq!(b, vec![0xee]);
    assert_eq!(cursor.remaining_len(), 3);
}

#[test]
fn exhaustion_boundary() {
    let mut cursor = Cursor::new(vec![0; 5]);
    cursor.consume(2).unwrap();
    let mut other = Cursor::new(vec![0; 5]);
    other.consume(2).unwrap();

    assert!(cursor.consume(3).is_ok());
    assert_eq!(cursor.remaining_len(), 0);
    assert_eq!(other.consume(4), Err(Error::BufferExhausted));
    assert_eq!(other.consumed_len(), 2);
}

#[test]
fn consume_overflow_fails() {
    let mut cursor = Cursor::new(vec![0; 5]);
    cursor.consume(1).unwrap();
    assert_eq!(cursor.consume(usize::MAX), Err(Error::BufferExhausted));
    assert_eq!(cursor.consumed_len(), 1);
}

#[test]
fn failed_write_changes_nothing() {
    let mut cursor = Cursor::new(vec![0; 3]);
    cursor.write_u8(5).unwrap();
    assert_eq!(cursor.write_u32_le(1), Err(Error::BufferExhausted));
    assert_eq!(cursor.consumed_bytes(), &[5]);
    cursor.write_u16_le(0xabcd).unwrap();
    assert_eq!(cursor.consumed_bytes(), &[5, 0xcd, 0xab]);
}
