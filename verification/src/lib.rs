//! SBUS frame codec and streaming frame assembler.
//!
//! SBUS carries 16 proportional 11-bit channel values, two digital channels
//! and two link-quality flags in a fixed 25-byte frame: a header byte, 22
//! payload bytes holding the packed channels, a flag byte and a footer byte.
//! This crate decodes and encodes such frames and reassembles them from an
//! undelimited byte stream, resynchronizing silently after corruption.

mod codec;
mod parser;

pub use codec::encode_packet;
pub use codec::encoded_frame;
pub use codec::lemma_decode_encode_roundtrip;
pub use codec::lemma_parse_deterministic;
pub use codec::lemma_raw_view_injective;
pub use codec::parsed_packet;
pub use codec::spec_channel;
pub use codec::spec_flag_bit;
pub use codec::RawSbusPacket;
pub use codec::SbusPacket;
pub use codec::SBUS_FOOTER;
pub use codec::SBUS_HEADER;
pub use codec::SBUS_NUM_CHANNELS;
pub use codec::SBUS_PACKET_SIZE;
pub use parser::emits_on;
pub use parser::lemma_awaiting_head_step;
pub use parser::lemma_fresh_frame_after_reset;
pub use parser::lemma_raw_stream_results_agree;
pub use parser::lemma_run_append;
pub use parser::lemma_run_single;
pub use parser::lemma_stream_results_agree;
pub use parser::next_buffer;
pub use parser::next_state;
pub use parser::packet_frame_result;
pub use parser::raw_frame_result;
pub use parser::run_buffer;
pub use parser::run_state;
pub use parser::spec_is_footer;
pub use parser::spec_validate;
pub use parser::stream_frames;
pub use parser::PacketIterator;
pub use parser::RawPacketIterator;
pub use parser::SbusParser;
pub use parser::SbusParserError;
pub use parser::State;
