use xnb::lzx::{BitReader, Error};
use xnb::Reader;

#[test]
fn bits_leave_a_word_from_the_top() {
    let bytes = [0x34, 0x12, 0x78, 0x56];
    let mut bits = BitReader::new(Reader::new(&bytes));
    assert_eq!(bits.read(4), Ok(0x1));
    assert_eq!(bits.read(8), Ok(0x23));
    assert_eq!(bits.read(4), Ok(0x4));
    assert_eq!(bits.read(16), Ok(0x5678));
    assert_eq!(bits.read(1), Err(Error::Io));
}

#[test]
fn bits_can_span_two_words() {
    let bytes = [0x34, 0x12, 0x78, 0x56];
    let mut bits = BitReader::new(Reader::new(&bytes));
    assert_eq!(bits.read(12), Ok(0x123));
    assert_eq!(bits.read(12), Ok(0x456));
    assert_eq!(bits.read(8), Ok(0x78));
}

#[test]
fn no_bits_are_zero_and_read_nothing() {
    let mut bits = BitReader::new(Reader::new(&[]));
    assert_eq!(bits.read(0), Ok(0));
    assert_eq!(bits.read(1), Err(Error::Io));
}

#[test]
fn ensure_peek_and_remove() {
    let bytes = [0x01, 0x80, 0xff, 0xff];
    let mut bits = BitReader::new(Reader::new(&bytes));
    assert_eq!(bits.ensure(1), Ok(()));
    assert_eq!(bits.peek(1), 1);
    assert_eq!(bits.peek(16), 0x8001);
    bits.remove(15);
    assert_eq!(bits.peek(1), 1);
    assert_eq!(bits.ensure(17), Ok(()));
    assert_eq!(bits.peek(17), 0x1ffff);
    bits.remove(0);
    assert_eq!(bits.peek(17), 0x1ffff);
}

#[test]
fn ensure_from_an_empty_buffer_fills_two_words() {
    let bytes = [0x34, 0x12, 0x78, 0x56];
    let mut bits = BitReader::new(Reader::new(&bytes));
    assert_eq!(bits.ensure(32), Ok(()));
    assert_eq!(bits.peek(32), 0x1234_5678);
}

#[test]
fn half_a_word_is_not_enough() {
    let mut bits = BitReader::new(Reader::new(&[0x34]));
    assert_eq!(bits.ensure(1), Err(Error::Io));
}

#[test]
fn bytes_are_read_past_the_buffered_bits() {
    let bytes = [0x34, 0x12, 0xaa, 0x01, 0x02, 0x03, 0x04];
    let mut bits = BitReader::new(Reader::new(&bytes));
    assert_eq!(bits.read(4), Ok(0x1));
    assert_eq!(bits.read_u8(), Ok(0xaa));
    assert_eq!(bits.read_u32(), Ok(0x0403_0201));
    assert_eq!(bits.read(12), Ok(0x234));
    assert_eq!(bits.read_u8(), Err(Error::Io));
    assert_eq!(bits.read_u32(), Err(Error::Io));
}
