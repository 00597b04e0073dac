use demo_ntp::codec::{CodecError, TryReadFromBytes, TryWriteToBytes};

#[test]
fn u8_writes_and_reads_one_byte() {
    let mut buffer = [0u8; 3];
    assert_eq!(0xABu8.try_write_to_bytes(&mut buffer), Ok(1));
    assert_eq!(buffer, [0xAB, 0, 0]);
    assert_eq!(u8::try_read_from_bytes(&[7, 8]), Ok((7, 1)));
}

#[test]
fn i8_uses_twos_complement() {
    let mut buffer = [0u8; 1];
    assert_eq!((-18i8).try_write_to_bytes(&mut buffer), Ok(1));
    assert_eq!(buffer, [238]);
    assert_eq!((-128i8).try_write_to_bytes(&mut buffer), Ok(1));
    assert_eq!(buffer, [128]);
    assert_eq!(127i8.try_write_to_bytes(&mut buffer), Ok(1));
    assert_eq!(buffer, [127]);
    assert_eq!(i8::try_read_from_bytes(&[238]), Ok((-18, 1)));
    assert_eq!(i8::try_read_from_bytes(&[255]), Ok((-1, 1)));
    assert_eq!(i8::try_read_from_bytes(&[128]), Ok((-128, 1)));
    assert_eq!(i8::try_read_from_bytes(&[127]), Ok((127, 1)));
}

#[test]
fn i8_round_trips_over_its_whole_range() {
    for x in i8::MIN..=i8::MAX {
        let mut buffer = [0u8; 1];
        assert_eq!(x.try_write_to_bytes(&mut buffer), Ok(1));
        assert_eq!(i8::try_read_from_bytes(&buffer), Ok((x, 1)));
    }
}

#[test]
fn u16_is_big_endian() {
    let mut buffer = [0xEEu8; 3];
    assert_eq!(0x1234u16.try_write_to_bytes(&mut buffer), Ok(2));
    assert_eq!(buffer, [0x12, 0x34, 0xEE]);
    assert_eq!(u16::try_read_from_bytes(&[0x12, 0x34, 0x56]), Ok((0x1234, 2)));
    assert_eq!(u16::try_read_from_bytes(&[0xFF, 0xFF]), Ok((u16::MAX, 2)));
}

#[test]
fn u16_round_trips_over_its_whole_range() {
    for x in 0..=u16::MAX {
        let mut buffer = [0u8; 2];
        assert_eq!(x.try_write_to_bytes(&mut buffer), Ok(2));
        assert_eq!(buffer, x.to_be_bytes());
        assert_eq!(u16::try_read_from_bytes(&buffer), Ok((x, 2)));
    }
}

#[test]
fn u32_is_big_endian() {
    let mut buffer = [0xEEu8; 5];
    assert_eq!(0x0102_0304u32.try_write_to_bytes(&mut buffer), Ok(4));
    assert_eq!(buffer, [1, 2, 3, 4, 0xEE]);
    assert_eq!(65536u32.try_write_to_bytes(&mut buffer), Ok(4));
    assert_eq!(buffer, [0, 1, 0, 0, 0xEE]);
    assert_eq!(u32::try_read_from_bytes(&[0, 0, 1, 244]), Ok((500, 4)));
    assert_eq!(u32::try_read_from_bytes(&[0xFF, 0xFF, 0xFF, 0xFF, 0]), Ok((u32::MAX, 4)));
}

#[test]
fn i32_is_big_endian_twos_complement() {
    let mut buffer = [0u8; 4];
    assert_eq!((-1i32).try_write_to_bytes(&mut buffer), Ok(4));
    assert_eq!(buffer, [0xFF, 0xFF, 0xFF, 0xFF]);
    assert_eq!((-2i32).try_write_to_bytes(&mut buffer), Ok(4));
    assert_eq!(buffer, [0xFF, 0xFF, 0xFF, 0xFE]);
    assert_eq!(i32::MIN.try_write_to_bytes(&mut buffer), Ok(4));
    assert_eq!(buffer, [0x80, 0, 0, 0]);
    assert_eq!(0x0102_0304i32.try_write_to_bytes(&mut buffer), Ok(4));
    assert_eq!(buffer, [1, 2, 3, 4]);
    assert_eq!(i32::try_read_from_bytes(&[0xFF, 0xFF, 0xFF, 0xFE]), Ok((-2, 4)));
    assert_eq!(i32::try_read_from_bytes(&[0x80, 0, 0, 0]), Ok((i32::MIN, 4)));
    assert_eq!(i32::try_read_from_bytes(&[0x7F, 0xFF, 0xFF, 0xFF]), Ok((i32::MAX, 4)));
}

#[test]
fn u64_is_big_endian() {
    let mut buffer = [0xEEu8; 9];
    assert_eq!(0x0102_0304_0506_0708u64.try_write_to_bytes(&mut buffer), Ok(8));
    assert_eq!(buffer, [1, 2, 3, 4, 5, 6, 7, 8, 0xEE]);
    assert_eq!(
        u64::try_read_from_bytes(&[0, 0, 0, 100, 0, 0, 1, 244]),
        Ok(((100u64 << 32) | 500, 8))
    );
    assert_eq!(u64::try_read_from_bytes(&[0xFF; 8]), Ok((u64::MAX, 8)));
}

#[test]
fn sample_values_match_the_standard_byte_order() {
    for x in [0u64, 1, 255, 256, 0xDEAD_BEEF, 0x8000_0000_0000_0000, u64::MAX] {
        let mut buffer = [0u8; 8];
        assert_eq!(x.try_write_to_bytes(&mut buffer), Ok(8));
        assert_eq!(buffer, x.to_be_bytes());
        assert_eq!(u64::try_read_from_bytes(&buffer), Ok((x, 8)));
    }
    for x in [0u32, 1, 255, 256, 0xDEAD_BEEF, 0x8000_0000, u32::MAX] {
        let mut buffer = [0u8; 4];
        assert_eq!(x.try_write_to_bytes(&mut buffer), Ok(4));
        assert_eq!(buffer, x.to_be_bytes());
        assert_eq!(u32::try_read_from_bytes(&buffer), Ok((x, 4)));
    }
    for x in [i32::MIN, -65536, -1, 0, 1, 65536, i32::MAX] {
        let mut buffer = [0u8; 4];
        assert_eq!(x.try_write_to_bytes(&mut buffer), Ok(4));
        assert_eq!(buffer, x.to_be_bytes());
        assert_eq!(i32::try_read_from_bytes(&buffer), Ok((x, 4)));
    }
}

#[test]
fn byte_arrays_are_copied_verbatim() {
    let mut buffer = [0xEEu8; 6];
    assert_eq!([1u8, 2, 3, 4].try_write_to_bytes(&mut buffer), Ok(4));
    assert_eq!(buffer, [1, 2, 3, 4, 0xEE, 0xEE]);
    assert_eq!(<[u8; 4]>::try_read_from_bytes(&[9, 8, 7, 6, 5]), Ok(([9, 8, 7, 6], 4)));
    assert_eq!(<[u8; 2]>::try_read_from_bytes(&[9, 8]), Ok(([9, 8], 2)));
}

#[test]
fn empty_array_needs_no_room() {
    let mut empty: [u8; 0] = [];
    let nothing: [u8; 0] = [];
    assert_eq!(nothing.try_write_to_bytes(&mut empty), Ok(0));
    assert_eq!(<[u8; 0]>::try_read_from_bytes(&[]), Ok(([], 0)));
}

#[test]
fn writes_into_short_buffers_fail_and_write_nothing() {
    let mut empty: [u8; 0] = [];
    assert_eq!(1u8.try_write_to_bytes(&mut empty), Err(CodecError::BufferTooSmall));
    assert_eq!(1i8.try_write_to_bytes(&mut empty), Err(CodecError::BufferTooSmall));
    let mut one = [0x5Au8; 1];
    assert_eq!(0x1234u16.try_write_to_bytes(&mut one), Err(CodecError::BufferTooSmall));
    assert_eq!(one, [0x5A]);
    let mut three = [0x5Au8; 3];
    assert_eq!(0x1234u32.try_write_to_bytes(&mut three), Err(CodecError::BufferTooSmall));
    assert_eq!((-1i32).try_write_to_bytes(&mut three), Err(CodecError::BufferTooSmall));
    assert_eq!([1u8, 2, 3, 4].try_write_to_bytes(&mut three), Err(CodecError::BufferTooSmall));
    assert_eq!(three, [0x5A; 3]);
}

#[test]
fn u64_needs_eight_bytes_of_room() {
    for len in 0..8usize {
        let mut buffer = vec![0x5Au8; len];
        assert_eq!(
            0x0102_0304_0506_0708u64.try_write_to_bytes(&mut buffer),
            Err(CodecError::BufferTooSmall)
        );
        assert_eq!(buffer, vec![0x5Au8; len]);
        assert_eq!(u64::try_read_from_bytes(&buffer), Err(CodecError::BufferTooSmall));
    }
}

#[test]
fn reads_from_short_buffers_fail() {
    assert_eq!(u8::try_read_from_bytes(&[]), Err(CodecError::BufferTooSmall));
    assert_eq!(i8::try_read_from_bytes(&[]), Err(CodecError::BufferTooSmall));
    assert_eq!(u16::try_read_from_bytes(&[1]), Err(CodecError::BufferTooSmall));
    assert_eq!(u32::try_read_from_bytes(&[1, 2, 3]), Err(CodecError::BufferTooSmall));
    assert_eq!(i32::try_read_from_bytes(&[1, 2, 3]), Err(CodecError::BufferTooSmall));
    assert_eq!(<[u8; 4]>::try_read_from_bytes(&[1, 2, 3]), Err(CodecError::BufferTooSmall));
}

#[test]
fn i16_is_big_endian_twos_complement() {
    let mut buffer = [0xEEu8; 3];
    assert_eq!((-2i16).try_write_to_bytes(&mut buffer), Ok(2));
    assert_eq!(buffer, [0xFF, 0xFE, 0xEE]);
    assert_eq!(0x1234i16.try_write_to_bytes(&mut buffer), Ok(2));
    assert_eq!(buffer, [0x12, 0x34, 0xEE]);
    assert_eq!(i16::try_read_from_bytes(&[0x80, 0, 1]), Ok((i16::MIN, 2)));
    assert_eq!(i16::try_read_from_bytes(&[0xFF, 0xFF]), Ok((-1, 2)));
    assert_eq!(i16::try_read_from_bytes(&[1]), Err(CodecError::BufferTooSmall));
    let mut one = [0x5Au8; 1];
    assert_eq!(7i16.try_write_to_bytes(&mut one), Err(CodecError::BufferTooSmall));
    assert_eq!(one, [0x5A]);
    for x in i16::MIN..=i16::MAX {
        let mut image = [0u8; 2];
        assert_eq!(x.try_write_to_bytes(&mut image), Ok(2));
        assert_eq!(image, x.to_be_bytes());
        assert_eq!(i16::try_read_from_bytes(&image), Ok((x, 2)));
    }
}

#[test]
fn i64_is_big_endian_twos_complement() {
    let mut buffer = [0xEEu8; 9];
    assert_eq!((-2i64).try_write_to_bytes(&mut buffer), Ok(8));
    assert_eq!(buffer, [0xFF, 0xFF, 0xFF, 0xFF, 0xFF, 0xFF, 0xFF, 0xFE, 0xEE]);
    assert_eq!(i64::try_read_from_bytes(&[0x80, 0, 0, 0, 0, 0, 0, 0]), Ok((i64::MIN, 8)));
    assert_eq!(i64::try_read_from_bytes(&[0xFF; 8]), Ok((-1, 8)));
    assert_eq!(i64::try_read_from_bytes(&[0xFF; 7]), Err(CodecError::BufferTooSmall));
    let mut seven = [0x5Au8; 7];
    assert_eq!(7i64.try_write_to_bytes(&mut seven), Err(CodecError::BufferTooSmall));
    assert_eq!(seven, [0x5A; 7]);
    for x in [i64::MIN, -0x0102_0304_0506_0708, -1, 0, 1, 0x0102_0304_0506_0708, i64::MAX] {
        let mut image = [0u8; 8];
        assert_eq!(x.try_write_to_bytes(&mut image), Ok(8));
        assert_eq!(image, x.to_be_bytes());
        assert_eq!(i64::try_read_from_bytes(&image), Ok((x, 8)));
    }
}
