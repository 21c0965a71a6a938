use sbus::encode_packet;
use sbus::RawSbusPacket;
use sbus::SbusPacket;
use sbus::SbusParser;
use sbus::SbusParserError;
use sbus::State;

const SBUS_PACKET_SIZE: usize = 25;

const RAW_BYTES: [u8; SBUS_PACKET_SIZE] = [
    0x0F, 0xE0, 0x03, 0x1F, 0x58, 0xC0, 0x07, 0x16, 0xB0, 0x80, 0x05, 0x2C, 0x60, 0x01, 0x0B,
    0xF8, 0xC0, 0x07, 0x00, 0x00, 0x00, 0x00, 0x00, 0x03, 0x00,
];

#[test]
fn test_basic_packing_unpacking() {
    let mut p = SbusParser::new();
    assert!(p.state == State::AwaitingHead);

    for b in &RAW_BYTES[0..RAW_BYTES.len() - 1] {
        assert!(p.push_byte(*b).is_none());
    }
    let packet = p.push_byte(RAW_BYTES[24]).unwrap().unwrap();
    let expected = SbusPacket {
        channels: [
            992, 992, 352, 992, 352, 352, 352, 352, 352, 352, 992, 992, 0, 0, 0, 0,
        ],
        channel_17: true,
        channel_18: true,
        failsafe: false,
        frame_lost: false,
    };
    assert!(packet == expected);

    // dirty buffer
    let mut buffer: [u8; SBUS_PACKET_SIZE] = [255; SBUS_PACKET_SIZE];
    encode_packet(&mut buffer, &packet);
    assert!(buffer == RAW_BYTES);
}

#[test]
fn test_low_value() {
    const EXPECTED: [u8; SBUS_PACKET_SIZE] = [
        0x0F, 0x00, 0x00, 0x00, 0x00, 0x00, 0x00, 0x00, 0x00, 0x00, 0x00, 0x00, 0x00, 0x00,
        0x00, 0x00, 0x00, 0x00, 0x00, 0x00, 0x00, 0x00, 0x00, 0x00, 0x00,
    ];

    let packet = SbusPacket {
        channels: [0; 16],
        channel_17: false,
        channel_18: false,
        failsafe: false,
        frame_lost: false,
    };
    // dirty buffer
    let mut buffer: [u8; SBUS_PACKET_SIZE] = [255; SBUS_PACKET_SIZE];
    encode_packet(&mut buffer, &packet);
    assert!(buffer == EXPECTED);
}

#[test]
fn test_high_value() {
    const EXPECTED: [u8; SBUS_PACKET_SIZE] = [
        0x0F, 0xFF, 0xFF, 0xFF, 0xFF, 0xFF, 0xFF, 0xFF, 0xFF, 0xFF, 0xFF, 0xFF, 0xFF, 0xFF,
        0xFF, 0xFF, 0xFF, 0xFF, 0xFF, 0xFF, 0xFF, 0xFF, 0xFF, 0x0F, 0x00,
    ];

    let packet = SbusPacket {
        channels: [2047; 16],
        channel_17: true,
        channel_18: true,
        failsafe: true,
        frame_lost: true,
    };

    let mut buffer: [u8; SBUS_PACKET_SIZE] = [0; SBUS_PACKET_SIZE];
    encode_packet(&mut buffer, &packet);
    assert!(buffer == EXPECTED);
}

#[test]
fn test_malformed_footer() {
    let mut p = SbusParser::new();
    const BAD_FOOTER: [u8; SBUS_PACKET_SIZE] = [
        0x0F, 0xFF, 0xFF, 0xFF, 0xFF, 0xFF, 0xFF, 0xFF, 0xFF, 0xFF, 0xFF, 0xFF, 0xFF, 0xFF,
        0xFF, 0xFF, 0xFF, 0xFF, 0xFF, 0xFF, 0xFF, 0xFF, 0xFF, 0x0F, 0xFF,
    ];

    assert!(p.state == State::AwaitingHead);
    for b in &BAD_FOOTER[0..BAD_FOOTER.len() - 1] {
        assert!(p.push_byte(*b).is_none());
    }
    let err = p.push_byte(BAD_FOOTER[24]).unwrap();
    assert!(err == Err(SbusParserError::InvalidFooter(0xff)));
}

#[test]
fn test_malformed_flags() {
    let mut p = SbusParser::new();
    const BAD_FLAGS: [u8; SBUS_PACKET_SIZE] = [
        0x0F, 0xFF, 0xFF, 0xFF, 0xFF, 0xFF, 0xFF, 0xFF, 0xFF, 0xFF, 0xFF, 0xFF, 0xFF, 0xFF,
        0xFF, 0xFF, 0xFF, 0xFF, 0xFF, 0xFF, 0xFF, 0xFF, 0xFF, 0xFF, 0x00,
    ];

    assert!(p.state == State::AwaitingHead);
    for b in &BAD_FLAGS[0..BAD_FLAGS.len() - 1] {
        assert!(p.push_byte(*b).is_none());
    }
    let err = p.push_byte(BAD_FLAGS[24]).unwrap();
    assert!(err == Err(SbusParserError::InvalidFlags(0xff)));
}

#[test]
fn test_basic_raw_packet() {
    let mut p = SbusParser::new();
    for b in &RAW_BYTES[0..RAW_BYTES.len() - 1] {
        assert!(p.push_byte(*b).is_none());
    }
    let raw_packet = p.push_byte_raw(RAW_BYTES[24]).unwrap().unwrap();
    let packet = SbusPacket::parse(&raw_packet);

    let expected = SbusPacket {
        channels: [
            992, 992, 352, 992, 352, 352, 352, 352, 352, 352, 992, 992, 0, 0, 0, 0,
        ],
        channel_17: true,
        channel_18: true,
        failsafe: false,
        frame_lost: false,
    };
    assert!(packet == expected);
}

#[test]
fn test_basic_iterator() {
    let data = [
        0x0F, 0xFF, 0xFF, 0xFF, 0xFF, 0xFF, 0xFF, 0xFF, 0xFF, 0xFF, 0xFF, 0xFF, 0xFF, 0xFF,
        0xFF, 0xFF, 0xFF, 0xFF, 0xFF, 0xFF, 0xFF, 0xFF, 0xFF, 0x0F, 0xFF, 0x0F, 0xE0, 0x03,
        0x1F, 0x58, 0xC0, 0x07, 0x16, 0xB0, 0x80, 0x05, 0x2C, 0x60, 0x01, 0x0B, 0xF8, 0xC0,
        0x07, 0x00, 0x00, 0x00, 0x00, 0x00, 0x03, 0x00, 0x0F, 0xFF, 0xFF, 0xFF, 0xFF, 0xFF,
        0xFF, 0xFF, 0xFF, 0xFF, 0xFF, 0xFF, 0xFF, 0xFF, 0xFF, 0xFF, 0xFF, 0xFF, 0xFF, 0xFF,
        0xFF, 0xFF, 0xFF, 0x0F, 0x00, 0x0F, 0x00, 0x00, 0x00, 0x00, 0x00, 0x00, 0x00, 0x00,
        0x00, 0x00, 0x00, 0x00, 0x00, 0x00, 0x00, 0x00, 0x00, 0x00, 0x00, 0x00, 0x00, 0x00,
        0x00, 0x00, 0x0F, 0xFF, 0xFF, 0xFF, 0xFF, 0xFF, 0xFF, 0xFF, 0xFF, 0xFF, 0xFF, 0xFF,
        0xFF, 0xFF, 0xFF, 0xFF, 0xFF, 0xFF, 0xFF, 0xFF, 0xFF, 0xFF, 0xFF, 0xFF, 0x00,
    ];
    let mut parser = SbusParser::new();
    let expected = SbusPacket {
        channels: [
            992, 992, 352, 992, 352, 352, 352, 352, 352, 352, 992, 992, 0, 0, 0, 0,
        ],
        channel_17: true,
        channel_18: true,
        failsafe: false,
        frame_lost: false,
    };

    let mut results: Vec<Result<SbusPacket, SbusParserError>> = Vec::new();
    let mut it = parser.iter_packets(&data);
    while let Some(r) = it.next() {
        results.push(r);
    }
    assert!(results.len() == 5);
    assert!(results[0].is_err());
    assert!(results[1] == Ok(expected));
    assert!(results[4].is_err());

    let mut raw_results: Vec<Result<RawSbusPacket, SbusParserError>> = Vec::new();
    let mut raw_it = parser.iter_packets_raw(&data);
    while let Some(r) = raw_it.next() {
        raw_results.push(r);
    }
    assert!(raw_results.len() == 5);
    assert!(raw_results[0].is_err());

    assert!(SbusPacket::parse(raw_results[1].as_ref().unwrap()) == expected);
    assert!(raw_results[4].is_err());
}
