use demo_ntp::codec::{CodecError, TryReadFromBytes, TryWriteToBytes};
use demo_ntp::ntp_message_protocol::{NtpPacketHeader, HEADER_WIDTH};
use demo_ntp::types::{
    ntp_leap_no_warning, ntp_leap_unknown, ntp_mode_client, ntp_mode_reserved_for_private_use,
    ntp_mode_server, ntp_version_4, Leap, Mode, NtpShort, NtpTimestamp, Poll, Precision, RefId,
    Stratum, Version,
};

fn zero_request() -> NtpPacketHeader {
    NtpPacketHeader {
        leap_indicator: ntp_leap_no_warning(),
        version_number: ntp_version_4(),
        mode: ntp_mode_client(),
        stratum: Stratum::from(0),
        poll: Poll::from(0),
        precision: Precision::from(0),
        rootdelay: NtpShort::new(0, 0),
        rootdisp: NtpShort::new(0, 0),
        refid: RefId::from([0, 0, 0, 0]),
        reftime: NtpTimestamp::new(0, 0),
        org: NtpTimestamp::new(0, 0),
        rec: NtpTimestamp::new(0, 0),
        xmt: NtpTimestamp::new(0, 0),
    }
}

fn sample_reply() -> NtpPacketHeader {
    NtpPacketHeader {
        leap_indicator: ntp_leap_no_warning(),
        version_number: ntp_version_4(),
        mode: ntp_mode_client(),
        stratum: Stratum::from(1),
        poll: Poll::from(6),
        precision: Precision::from(-18),
        rootdelay: NtpShort::new(1, 0),
        rootdisp: NtpShort::new(0, 100),
        refid: RefId::from([1, 2, 3, 4]),
        reftime: NtpTimestamp::new(100, 500),
        org: NtpTimestamp::new(200, 200),
        rec: NtpTimestamp::new(50, 100),
        xmt: NtpTimestamp::new(10, 1000),
    }
}

#[test]
fn write_packet_header_zeros_to_bytes() {
    let packet = NtpPacketHeader {
        leap_indicator: ntp_leap_no_warning(),
        version_number: ntp_version_4(),
        mode: ntp_mode_client(),
        stratum: Stratum::from(0),
        poll: Poll::from(0),
        precision: Precision::from(0),
        rootdelay: NtpShort::new(0, 0),
        rootdisp: NtpShort::new(0, 0),
        refid: RefId::from([0, 0, 0, 0]),
        reftime: NtpTimestamp::new(0, 0),
        org: NtpTimestamp::new(0, 0),
        rec: NtpTimestamp::new(0, 0),
        xmt: NtpTimestamp::new(0, 0),
    };

    let mut buffer = [0u8; 1024];
    let serialized_size = packet.try_write_to_bytes(&mut buffer).unwrap();
    let expected_bytes = [
        0x23, // leap (2 bits), version (3 bits), mode (3 bits)
        0,    // stratum
        0,    // poll
        0,    // precision
        0, 0, 0, 0, // rootdelay
        0, 0, 0, 0, // rootdisp
        0, 0, 0, 0, // refid
        0, 0, 0, 0, 0, 0, 0, 0, // reftime
        0, 0, 0, 0, 0, 0, 0, 0, // org
        0, 0, 0, 0, 0, 0, 0, 0, // rec
        0, 0, 0, 0, 0, 0, 0, 0, // xmt
    ];

    assert_eq!(&buffer[..serialized_size], &expected_bytes);
}

#[test]
fn write_packet_header_different_information_to_bytes() {
    let packet = NtpPacketHeader {
        leap_indicator: ntp_leap_no_warning(),
        version_number: ntp_version_4(),
        mode: ntp_mode_client(),
        stratum: Stratum::from(1),
        poll: Poll::from(6),
        precision: Precision::from(-18),
        rootdelay: NtpShort::new(1, 0),
        rootdisp: NtpShort::new(0, 100),
        refid: RefId::from([1, 2, 3, 4]),
        reftime: NtpTimestamp::new(100, 500),
        org: NtpTimestamp::new(200, 200),
        rec: NtpTimestamp::new(50, 100),
        xmt: NtpTimestamp::new(10, 1000),
    };

    let mut buffer = [0u8; 1024];
    let serialized_size = packet.try_write_to_bytes(&mut buffer).unwrap();
    let expected_bytes = [
        0b00_100_011, // leap (2 bits), version (3 bits), mode (3 bits)
        1,            // stratum
        6,            // poll
        238,          // precision (-18 as i8)
        0, 1, 0, 0,   // rootdelay
        0, 0, 0, 100, // rootdisp
        1, 2, 3, 4,   // refid
        0, 0, 0, 100, 0, 0, 1, 244, // reftime
        0, 0, 0, 200, 0, 0, 0, 200, // org
        0, 0, 0, 50, 0, 0, 0, 100,  // rec
        0, 0, 0, 10, 0, 0, 3, 232,  // xmt
    ];

    assert_eq!(&buffer[..serialized_size], &expected_bytes);
}

#[test]
fn read_packet_header_zeros_from_bytes() {
    let bytes = [
        0x23, // leap (2 bits), version (3 bits), mode (3 bits)
        0,    // stratum
        0,    // poll
        0,    // precision
        0, 0, 0, 0, // rootdelay
        0, 0, 0, 0, // rootdisp
        0, 0, 0, 0, // refid
        0, 0, 0, 0, 0, 0, 0, 0, // reftime
        0, 0, 0, 0, 0, 0, 0, 0, // org
        0, 0, 0, 0, 0, 0, 0, 0, // rec
        0, 0, 0, 0, 0, 0, 0, 0, // xmt
    ];

    let (packet, _) = NtpPacketHeader::try_read_from_bytes(&bytes).unwrap();

    let expected = NtpPacketHeader {
        leap_indicator: ntp_leap_no_warning(),
        version_number: ntp_version_4(),
        mode: ntp_mode_client(),
        stratum: Stratum::from(0),
        poll: Poll::from(0),
        precision: Precision::from(0),
        rootdelay: NtpShort::new(0, 0),
        rootdisp: NtpShort::new(0, 0),
        refid: RefId::from([0, 0, 0, 0]),
        reftime: NtpTimestamp::new(0, 0),
        org: NtpTimestamp::new(0, 0),
        rec: NtpTimestamp::new(0, 0),
        xmt: NtpTimestamp::new(0, 0),
    };

    assert_eq!(packet, expected);
}

#[test]
fn read_packet_header_different_information_from_bytes() {
    let bytes = [
        0b00_100_011, // leap (2 bits), version (3 bits), mode (3 bits)
        1,            // stratum
        6,            // poll
        238,          // precision (-18 as i8)
        0, 1, 0, 0,   // rootdelay
        0, 0, 0, 100, // rootdisp
        1, 2, 3, 4,   // refid
        0, 0, 0, 100, 0, 0, 1, 244, // reftime
        0, 0, 0, 200, 0, 0, 0, 200, // org
        0, 0, 0, 50, 0, 0, 0, 100,  // rec
        0, 0, 0, 10, 0, 0, 3, 232,  // xmt
    ];

    let (packet, _) = NtpPacketHeader::try_read_from_bytes(&bytes).unwrap();

    let expected = NtpPacketHeader {
        leap_indicator: ntp_leap_no_warning(),
        version_number: ntp_version_4(),
        mode: ntp_mode_client(),
        stratum: Stratum::from(1),
        poll: Poll::from(6),
        precision: Precision::from(-18),
        rootdelay: NtpShort::new(1, 0),
        rootdisp: NtpShort::new(0, 100),
        refid: RefId::from([1, 2, 3, 4]),
        reftime: NtpTimestamp::new(100, 500),
        org: NtpTimestamp::new(200, 200),
        rec: NtpTimestamp::new(50, 100),
        xmt: NtpTimestamp::new(10, 1000),
    };

    assert_eq!(packet, expected);
}

#[test]
fn header_width_is_48() {
    assert_eq!(HEADER_WIDTH, 48);
    let mut buffer = [0xAAu8; 64];
    assert_eq!(sample_reply().try_write_to_bytes(&mut buffer), Ok(48));
    let (_, read) = NtpPacketHeader::try_read_from_bytes(&buffer).unwrap();
    assert_eq!(read, 48);
}

#[test]
fn header_round_trips_through_its_wire_image() {
    let packet = sample_reply();
    let mut buffer = [0u8; 48];
    assert_eq!(packet.try_write_to_bytes(&mut buffer), Ok(48));
    assert_eq!(NtpPacketHeader::try_read_from_bytes(&buffer), Ok((packet, 48)));
}

#[test]
fn header_with_extreme_fields_round_trips() {
    let packet = NtpPacketHeader {
        leap_indicator: ntp_leap_unknown(),
        version_number: Version::try_from(7).unwrap(),
        mode: ntp_mode_reserved_for_private_use(),
        stratum: Stratum::from(255),
        poll: Poll::from(-128),
        precision: Precision::from(127),
        rootdelay: NtpShort::new(0xFFFF, 0xFFFF),
        rootdisp: NtpShort::new(0x8000, 1),
        refid: RefId::from([0xFF, 0, 0x80, 0x7F]),
        reftime: NtpTimestamp::new(0xFFFF_FFFF, 0xFFFF_FFFF),
        org: NtpTimestamp::new(0x8000_0000, 0),
        rec: NtpTimestamp::new(0, 0x8000_0000),
        xmt: NtpTimestamp::new(0x0102_0304, 0x0506_0708),
    };
    let mut buffer = [0u8; 48];
    assert_eq!(packet.try_write_to_bytes(&mut buffer), Ok(48));
    assert_eq!(buffer[0], 0xFF);
    assert_eq!(&buffer[1..4], &[255, 0x80, 0x7F]);
    assert_eq!(&buffer[40..48], &[1, 2, 3, 4, 5, 6, 7, 8]);
    assert_eq!(NtpPacketHeader::try_read_from_bytes(&buffer), Ok((packet, 48)));
}

#[test]
fn write_leaves_the_bytes_behind_the_header_alone() {
    let mut buffer = [0xAAu8; 60];
    assert_eq!(sample_reply().try_write_to_bytes(&mut buffer), Ok(48));
    assert_eq!(&buffer[48..], &[0xAAu8; 12]);
}

#[test]
fn first_byte_packs_leap_version_mode() {
    let mut packet = zero_request();
    packet.leap_indicator = Leap::try_from(0).unwrap();
    packet.version_number = Version::try_from(4).unwrap();
    packet.mode = Mode::try_from(3).unwrap();
    let mut buffer = [0u8; 48];
    packet.try_write_to_bytes(&mut buffer).unwrap();
    assert_eq!(buffer[0], 0b00_100_011);
    assert_eq!(buffer[0], 0x23);

    packet.leap_indicator = Leap::try_from(2).unwrap();
    packet.version_number = Version::try_from(3).unwrap();
    packet.mode = ntp_mode_server();
    packet.try_write_to_bytes(&mut buffer).unwrap();
    assert_eq!(buffer[0], 0b10_011_100);
}

#[test]
fn first_byte_unpacks_to_leap_version_mode() {
    let mut bytes = [0u8; 48];
    bytes[0] = 0x23;
    let (packet, _) = NtpPacketHeader::try_read_from_bytes(&bytes).unwrap();
    assert_eq!(u8::from(packet.leap_indicator), 0);
    assert_eq!(u8::from(packet.version_number), 4);
    assert_eq!(u8::from(packet.mode), 3);

    bytes[0] = 0b11_101_110;
    let (packet, _) = NtpPacketHeader::try_read_from_bytes(&bytes).unwrap();
    assert_eq!(u8::from(packet.leap_indicator), 3);
    assert_eq!(u8::from(packet.version_number), 5);
    assert_eq!(u8::from(packet.mode), 6);
}

#[test]
fn every_first_byte_decodes() {
    let mut bytes = [0u8; 48];
    for b in 0..=255u8 {
        bytes[0] = b;
        let (packet, read) = NtpPacketHeader::try_read_from_bytes(&bytes).unwrap();
        assert_eq!(read, 48);
        assert_eq!(u8::from(packet.leap_indicator), b >> 6);
        assert_eq!(u8::from(packet.version_number), (b >> 3) & 7);
        assert_eq!(u8::from(packet.mode), b & 7);
        let mut back = [0u8; 48];
        packet.try_write_to_bytes(&mut back).unwrap();
        assert_eq!(back[0], b);
    }
}

#[test]
fn header_write_into_short_buffer_fails_and_writes_nothing() {
    let packet = sample_reply();
    for len in 0..48usize {
        let mut buffer = vec![0x5Au8; len];
        assert_eq!(
            packet.try_write_to_bytes(&mut buffer),
            Err(CodecError::BufferTooSmall)
        );
        assert_eq!(buffer, vec![0x5Au8; len]);
    }
}

#[test]
fn header_read_from_short_buffer_fails() {
    let mut full = [0u8; 48];
    sample_reply().try_write_to_bytes(&mut full).unwrap();
    for len in 0..48usize {
        assert_eq!(
            NtpPacketHeader::try_read_from_bytes(&full[..len]),
            Err(CodecError::BufferTooSmall)
        );
    }
}

#[test]
fn header_read_ignores_bytes_behind_the_header() {
    let mut buffer = [0xEEu8; 100];
    sample_reply().try_write_to_bytes(&mut buffer).unwrap();
    assert_eq!(
        NtpPacketHeader::try_read_from_bytes(&buffer),
        Ok((sample_reply(), 48))
    );
}

#[test]
fn decoded_header_encodes_to_the_same_bytes() {
    let mut bytes = [0u8; 48];
    for (i, b) in bytes.iter_mut().enumerate() {
        *b = (i as u8).wrapping_mul(37).wrapping_add(201);
    }
    let (packet, read) = NtpPacketHeader::try_read_from_bytes(&bytes).unwrap();
    assert_eq!(read, 48);
    let mut back = [0u8; 48];
    assert_eq!(packet.try_write_to_bytes(&mut back), Ok(48));
    assert_eq!(back, bytes);
}
