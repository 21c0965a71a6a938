use sbus::encode_packet;
use sbus::RawSbusPacket;
use sbus::SbusPacket;
use sbus::SbusParser;
use sbus::SbusParserError;
use sbus::State;
use sbus::SBUS_FOOTER;
use sbus::SBUS_HEADER;
use sbus::SBUS_PACKET_SIZE;

const VALID_FRAME: [u8; SBUS_PACKET_SIZE] = [
    0x0F, 0xE0, 0x03, 0x1F, 0x58, 0xC0, 0x07, 0x16, 0xB0, 0x80, 0x05, 0x2C, 0x60, 0x01, 0x0B,
    0xF8, 0xC0, 0x07, 0x00, 0x00, 0x00, 0x00, 0x00, 0x03, 0x00,
];

fn expected_packet() -> SbusPacket {
    SbusPacket {
        channels: [
            992, 992, 352, 992, 352, 352, 352, 352, 352, 352, 992, 992, 0, 0, 0, 0,
        ],
        channel_17: true,
        channel_18: true,
        failsafe: false,
        frame_lost: false,
    }
}

#[test]
fn decode_encode_round_trip() {
    let packet = SbusPacket {
        channels: [
            0, 1, 2, 3, 700, 1023, 1024, 2047, 11, 22, 33, 44, 555, 666, 777, 888,
        ],
        channel_17: false,
        channel_18: true,
        failsafe: true,
        frame_lost: false,
    };
    let mut buffer: [u8; SBUS_PACKET_SIZE] = [0xAA; SBUS_PACKET_SIZE];
    encode_packet(&mut buffer, &packet);
    assert_eq!(buffer[0], SBUS_HEADER);
    assert_eq!(buffer[24], SBUS_FOOTER);
    let decoded = SbusPacket::parse(&RawSbusPacket::new(&buffer));
    assert_eq!(decoded, packet);
}

#[test]
fn header_starts_read_and_noise_is_discarded() {
    let mut p = SbusParser::new();
    // Non-header bytes never change the waiting state.
    for b in [0x00u8, 0x42, 0xFF, 0x10, 0x0E] {
        assert!(p.push_byte(b).is_none());
        assert!(p.state == State::AwaitingHead);
    }
    // A header byte always starts a new read.
    assert!(p.push_byte(SBUS_HEADER).is_none());
    assert!(p.state == State::Reading(1));
}

#[test]
fn reset_discards_partial_frame() {
    let mut p = SbusParser::new();
    // Begin a frame and abandon it halfway through garbage payload.
    assert!(p.push_byte(SBUS_HEADER).is_none());
    for b in [0xDEu8, 0xAD, 0xBE, 0xEF, 0x55, 0x66, 0x77, 0x88, 0x99] {
        assert!(p.push_byte(b).is_none());
    }
    assert!(p.state == State::Reading(10));
    p.reset();
    assert!(p.state == State::AwaitingHead);

    // A fresh valid frame then produces exactly one correct result with no
    // residue of the discarded read.
    let mut outputs = 0;
    for (k, b) in VALID_FRAME.iter().enumerate() {
        match p.push_byte(*b) {
            None => assert!(k < 24),
            Some(r) => {
                assert_eq!(k, 24);
                assert_eq!(r, Ok(expected_packet()));
                outputs += 1;
            }
        }
    }
    assert_eq!(outputs, 1);
}

#[test]
fn byte_at_a_time_agrees_with_slice_adapter() {
    let mut data: Vec<u8> = Vec::new();
    data.extend_from_slice(&[0x11, 0x0F, 0x22]); // noise with a false start
    data.extend_from_slice(&VALID_FRAME);
    data.extend_from_slice(&VALID_FRAME);
    data.extend_from_slice(&[0x0F, 0x01, 0x02]); // trailing partial frame

    let mut one_at_a_time = SbusParser::new();
    let mut fed: Vec<Result<SbusPacket, SbusParserError>> = Vec::new();
    for b in &data {
        if let Some(r) = one_at_a_time.push_byte(*b) {
            fed.push(r);
        }
    }

    let mut slice_fed = SbusParser::new();
    let mut collected: Vec<Result<SbusPacket, SbusParserError>> = Vec::new();
    let mut it = slice_fed.iter_packets(&data);
    while let Some(r) = it.next() {
        collected.push(r);
    }

    assert_eq!(fed, collected);
    assert!(one_at_a_time.state == slice_fed.state);
}

#[test]
fn frame_may_straddle_two_slices() {
    let mut p = SbusParser::new();
    let (first, second) = VALID_FRAME.split_at(11);

    let mut it = p.iter_packets(first);
    assert!(it.next().is_none());

    let mut results: Vec<Result<SbusPacket, SbusParserError>> = Vec::new();
    let mut it2 = p.iter_packets(second);
    while let Some(r) = it2.next() {
        results.push(r);
    }
    assert_eq!(results.len(), 1);
    assert_eq!(results[0], Ok(expected_packet()));
}

#[test]
fn telemetry_footers_are_accepted() {
    for footer in [0x00u8, 0x04, 0x14, 0x24, 0x34] {
        let mut frame = VALID_FRAME;
        frame[24] = footer;
        let mut p = SbusParser::new();
        let mut last = None;
        for b in &frame {
            last = p.push_byte_raw(*b);
        }
        let raw = last.unwrap().unwrap();
        assert_eq!(raw.as_bytes(), &frame);
    }
}

#[test]
fn footer_is_checked_before_flags() {
    // A frame with a bad footer and bad flags reports only the footer.
    let mut frame = VALID_FRAME;
    frame[23] = 0xF0;
    frame[24] = 0x01;
    let mut p = SbusParser::new();
    let mut last = None;
    for b in &frame {
        last = p.push_byte(*b);
    }
    assert_eq!(last.unwrap(), Err(SbusParserError::InvalidFooter(0x01)));
}

#[test]
fn validate_frame_inspects_the_buffer() {
    let mut p = SbusParser::new();
    p.buffer = VALID_FRAME;
    assert_eq!(p.validate_frame(), Ok(()));
    p.buffer[24] = 0x07;
    assert_eq!(p.validate_frame(), Err(SbusParserError::InvalidFooter(0x07)));
    p.buffer[24] = 0x14;
    p.buffer[23] = 0x83;
    assert_eq!(p.validate_frame(), Err(SbusParserError::InvalidFlags(0x83)));
}

#[test]
fn oversized_channels_contribute_low_bits_only() {
    let mut wide = expected_packet();
    let mut masked = wide;
    wide.channels[3] = 2048 + 992;
    masked.channels[3] = 992;

    let mut from_wide: [u8; SBUS_PACKET_SIZE] = [0; SBUS_PACKET_SIZE];
    let mut from_masked: [u8; SBUS_PACKET_SIZE] = [0; SBUS_PACKET_SIZE];
    encode_packet(&mut from_wide, &wide);
    encode_packet(&mut from_masked, &masked);
    assert_eq!(from_wide, from_masked);
}

#[test]
fn raw_packet_wraps_its_bytes() {
    let raw = RawSbusPacket::new(&VALID_FRAME);
    assert_eq!(raw.as_bytes(), &VALID_FRAME);
}

#[test]
fn default_parser_awaits_header() {
    let p = SbusParser::default();
    assert!(p.state == State::AwaitingHead);
    assert!(State::default() == State::AwaitingHead);
}
