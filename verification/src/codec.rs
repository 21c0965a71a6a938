//! Bit-field codec: pure translation between a raw 25-byte SBUS frame and
//! its 16 eleven-bit channel values plus four status flags, and the exact
//! inverse, the frame encoder.

use vstd::prelude::*;

verus! {

/// Length of a complete SBUS frame in bytes.
pub const SBUS_PACKET_SIZE: usize = 25;

/// Number of proportional channels carried by one frame.
pub const SBUS_NUM_CHANNELS: usize = 16;

/// First byte of every frame.
pub const SBUS_HEADER: u8 = 0x0F;

/// Footer byte written by the encoder ("end of frame").
pub const SBUS_FOOTER: u8 = 0x00;

/// Mask selecting the four flag-byte bits that must be zero.
pub const SBUS_FLAG_BYTE_MASK: u8 = 0xF0;

/// Mask selecting one 11-bit channel value.
pub const CHAN_MASK: u16 = 0x07FF;

/// Channel `i` of frame `f`: the 11 bits at offset `11 * i` of the 176-bit
/// little-endian payload bitstream held in bytes 1 through 22.
///
/// The bits of a channel span at most three consecutive bytes; the three
/// bytes starting at the one holding the channel's lowest bit are read as a
/// little-endian group and the group is shifted and masked down to 11 bits.
pub open spec fn spec_channel(f: Seq<u8>, i: int) -> u16
    recommends
        f.len() == SBUS_PACKET_SIZE,
        0 <= i < SBUS_NUM_CHANNELS,
{
    let lo = 1 + (11 * i) / 8;
    let shift = (11 * i) % 8;
    (((((f[lo] as u32) | ((f[lo + 1] as u32) << 8u32) | ((f[lo + 2] as u32) << 16u32))
        >> (shift as u32)) & 0x7FF) as u16)
}

/// Whether bit `pos` of byte `b` is set.
pub open spec fn spec_flag_bit(b: u8, pos: u8) -> bool {
    (b >> pos) & 1 == 1
}

/// A raw, not yet validated 25-byte frame.
#[derive(Debug, Ord, PartialOrd, Eq, PartialEq, Copy, Clone)]
pub struct RawSbusPacket {
    bytes: [u8; SBUS_PACKET_SIZE],
}

impl View for RawSbusPacket {
    type V = Seq<u8>;

    closed spec fn view(&self) -> Seq<u8> {
        self.bytes@
    }
}

impl RawSbusPacket {
    /// Wraps a copy of the given 25 bytes.
    pub fn new(bytes: &[u8; SBUS_PACKET_SIZE]) -> (r: Self)
        ensures
            r@ == bytes@,
    {
        Self { bytes: *bytes }
    }

    /// The 25 frame bytes.
    pub fn as_bytes(&self) -> (r: &[u8])
        ensures
            r@ == self@,
    {
        self.bytes.as_slice()
    }
}

/// The decoded contents of one frame: 16 channel values of 11 bits each,
/// two digital channels and the two link-quality flags.
#[derive(Debug, Ord, PartialOrd, Eq, PartialEq, Copy, Clone)]
pub struct SbusPacket {
    pub channels: [u16; SBUS_NUM_CHANNELS],
    pub channel_17: bool,
    pub channel_18: bool,
    pub failsafe: bool,
    pub frame_lost: bool,
}

/// `p` holds exactly the channel values and flag bits of frame `f`.
pub open spec fn parsed_packet(f: Seq<u8>, p: SbusPacket) -> bool {
    &&& forall|i: int| 0 <= i < SBUS_NUM_CHANNELS ==> p.channels@[i] == #[trigger] spec_channel(f, i)
    &&& p.channel_17 == spec_flag_bit(f[23], 0)
    &&& p.channel_18 == spec_flag_bit(f[23], 1)
    &&& p.frame_lost == spec_flag_bit(f[23], 2)
    &&& p.failsafe == spec_flag_bit(f[23], 3)
}

/// The 11 bits at a byte-aligned offset of the little-endian group
/// `x | y << 8 | z << 16` equal the gathered value `c` computed by the
/// decoder's shift-and-or composition; the channel lies entirely in `x` and
/// `y`, so `z` is unconstrained.
proof fn lemma_gather_low(x: u8, y: u8, z: u8, c: u16)
    by (bit_vector)
    requires
        c == ((x as u16) | ((y as u16) << 8u16)) & 0x07FF,
    ensures
        c == (((((x as u32) | ((y as u32) << 8u32) | ((z as u32) << 16u32))
            >> (0 as u32)) & 0x7FF) as u16),
{
}

/// As `lemma_gather_low`, for bit offsets 1 through 5 within the first byte:
/// the channel straddles `x` and `y` only, so `z` is unconstrained.
proof fn lemma_gather_mid(x: u8, y: u8, z: u8, shift: u16, c: u16)
    by (bit_vector)
    requires
        1 <= shift <= 5,
        c == (((x as u16) >> shift) | ((y as u16) << ((8 - shift) as u16))) & 0x07FF,
    ensures
        c == (((((x as u32) | ((y as u32) << 8u32) | ((z as u32) << 16u32))
            >> (shift as u32)) & 0x7FF) as u16),
{
}

/// As `lemma_gather_low`, for bit offsets 6 and 7: the channel's 11 bits
/// straddle all three bytes.
proof fn lemma_gather_high(x: u8, y: u8, z: u8, shift: u16, c: u16)
    by (bit_vector)
    requires
        6 <= shift <= 7,
        c == (((x as u16) >> shift) | ((y as u16) << ((8 - shift) as u16))
            | ((z as u16) << ((16 - shift) as u16))) & 0x07FF,
    ensures
        c == (((((x as u32) | ((y as u32) << 8u32) | ((z as u32) << 16u32))
            >> (shift as u32)) & 0x7FF) as u16),
{
}

fn is_flag_set_at_position(flag_byte: u8, shift_by: u8) -> (r: bool)
    requires
        shift_by < 8,
    ensures
        r == spec_flag_bit(flag_byte, shift_by),
{
    (flag_byte >> shift_by) & 1 == 1
}

impl SbusPacket {
    /// Decodes a raw frame: channel `i` receives the 11 payload bits at
    /// offset `11 * i`, and the four flags come from the low nibble of the
    /// flag byte. The frame is not validated here.
    pub fn parse(raw_packet: &RawSbusPacket) -> (p: Self)
        ensures
            parsed_packet(raw_packet@, p),
    {
        let buf = &raw_packet.bytes;
        let ghost f = raw_packet@;

        let ch0: u16 = ((buf[1] as u16) | ((buf[2] as u16) << 8u16)) & CHAN_MASK;
        let ch1: u16 = (((buf[2] as u16) >> 3u16) | ((buf[3] as u16) << 5u16)) & CHAN_MASK;
        let ch2: u16 = (((buf[3] as u16) >> 6u16) | ((buf[4] as u16) << 2u16)
            | ((buf[5] as u16) << 10u16)) & CHAN_MASK;
        let ch3: u16 = (((buf[5] as u16) >> 1u16) | ((buf[6] as u16) << 7u16)) & CHAN_MASK;
        let ch4: u16 = (((buf[6] as u16) >> 4u16) | ((buf[7] as u16) << 4u16)) & CHAN_MASK;
        let ch5: u16 = (((buf[7] as u16) >> 7u16) | ((buf[8] as u16) << 1u16)
            | ((buf[9] as u16) << 9u16)) & CHAN_MASK;
        let ch6: u16 = (((buf[9] as u16) >> 2u16) | ((buf[10] as u16) << 6u16)) & CHAN_MASK;
        let ch7: u16 = (((buf[10] as u16) >> 5u16) | ((buf[11] as u16) << 3u16)) & CHAN_MASK;

        let ch8: u16 = ((buf[12] as u16) | ((buf[13] as u16) << 8u16)) & CHAN_MASK;
        let ch9: u16 = (((buf[13] as u16) >> 3u16) | ((buf[14] as u16) << 5u16)) & CHAN_MASK;
        let ch10: u16 = (((buf[14] as u16) >> 6u16) | ((buf[15] as u16) << 2u16)
            | ((buf[16] as u16) << 10u16)) & CHAN_MASK;
        let ch11: u16 = (((buf[16] as u16) >> 1u16) | ((buf[17] as u16) << 7u16)) & CHAN_MASK;
        let ch12: u16 = (((buf[17] as u16) >> 4u16) | ((buf[18] as u16) << 4u16)) & CHAN_MASK;
        let ch13: u16 = (((buf[18] as u16) >> 7u16) | ((buf[19] as u16) << 1u16)
            | ((buf[20] as u16) << 9u16)) & CHAN_MASK;
        let ch14: u16 = (((buf[20] as u16) >> 2u16) | ((buf[21] as u16) << 6u16)) & CHAN_MASK;
        let ch15: u16 = (((buf[21] as u16) >> 5u16) | ((buf[22] as u16) << 3u16)) & CHAN_MASK;

        proof {
            lemma_gather_low(f[1], f[2], f[3], ch0);
            lemma_gather_mid(f[2], f[3], f[4], 3, ch1);
            lemma_gather_high(f[3], f[4], f[5], 6, ch2);
            lemma_gather_mid(f[5], f[6], f[7], 1, ch3);
            lemma_gather_mid(f[6], f[7], f[8], 4, ch4);
            lemma_gather_high(f[7], f[8], f[9], 7, ch5);
            lemma_gather_mid(f[9], f[10], f[11], 2, ch6);
            lemma_gather_mid(f[10], f[11], f[12], 5, ch7);
            lemma_gather_low(f[12], f[13], f[14], ch8);
            lemma_gather_mid(f[13], f[14], f[15], 3, ch9);
            lemma_gather_high(f[14], f[15], f[16], 6, ch10);
            lemma_gather_mid(f[16], f[17], f[18], 1, ch11);
            lemma_gather_mid(f[17], f[18], f[19], 4, ch12);
            lemma_gather_high(f[18], f[19], f[20], 7, ch13);
            lemma_gather_mid(f[20], f[21], f[22], 2, ch14);
            lemma_gather_mid(f[21], f[22], f[23], 5, ch15);
        }

        let channels: [u16; SBUS_NUM_CHANNELS] = [
            ch0, ch1, ch2, ch3, ch4, ch5, ch6, ch7,
            ch8, ch9, ch10, ch11, ch12, ch13, ch14, ch15,
        ];
        assert(spec_channel(f, 0) == ch0);
        assert(spec_channel(f, 1) == ch1);
        assert(spec_channel(f, 2) == ch2);
        assert(spec_channel(f, 3) == ch3);
        assert(spec_channel(f, 4) == ch4);
        assert(spec_channel(f, 5) == ch5);
        assert(spec_channel(f, 6) == ch6);
        assert(spec_channel(f, 7) == ch7);
        assert(spec_channel(f, 8) == ch8);
        assert(spec_channel(f, 9) == ch9);
        assert(spec_channel(f, 10) == ch10);
        assert(spec_channel(f, 11) == ch11);
        assert(spec_channel(f, 12) == ch12);
        assert(spec_channel(f, 13) == ch13);
        assert(spec_channel(f, 14) == ch14);
        assert(spec_channel(f, 15) == ch15);

        let flag_byte = buf[23];

        SbusPacket {
            channels,
            channel_17: is_flag_set_at_position(flag_byte, 0),
            channel_18: is_flag_set_at_position(flag_byte, 1),
            frame_lost: is_flag_set_at_position(flag_byte, 2),
            failsafe: is_flag_set_at_position(flag_byte, 3),
        }
    }
}

/// `f` is the frame the encoder produces for packet `p`: header, the packed
/// channels (each masked down to its 11 bits), the flag byte with a zero
/// high nibble, and the "end of frame" footer.
pub open spec fn encoded_frame(p: SbusPacket, f: Seq<u8>) -> bool {
    &&& f.len() == SBUS_PACKET_SIZE
    &&& f[0] == SBUS_HEADER
    &&& forall|i: int|
        0 <= i < SBUS_NUM_CHANNELS ==> #[trigger] spec_channel(f, i) == p.channels@[i] & CHAN_MASK
    &&& spec_flag_bit(f[23], 0) == p.channel_17
    &&& spec_flag_bit(f[23], 1) == p.channel_18
    &&& spec_flag_bit(f[23], 2) == p.frame_lost
    &&& spec_flag_bit(f[23], 3) == p.failsafe
    &&& f[23] & SBUS_FLAG_BYTE_MASK == 0
    &&& f[24] == SBUS_FOOTER
}

/// Scatter at bit offset 0: a channel `c` written as a low byte `x` and the
/// low bits of `y` is read back intact; `z` holds later channels and is
/// unconstrained.
proof fn lemma_scatter_p0(c: u16, n: u16, x: u8, y: u8, z: u8)
    by (bit_vector)
    requires
        x == c as u8,
        y == (((c >> 8u16) & 0x07) as u8) | (((n & 0x1F) << 3u16) as u8),
    ensures
        (((((x as u32) | ((y as u32) << 8u32) | ((z as u32) << 16u32))
            >> (0 as u32)) & 0x7FF) as u16) == c & 0x07FF,
{
}

/// Scatter at bit offset 3, between a previous channel `p` and a next
/// channel `n`.
proof fn lemma_scatter_p3(p: u16, c: u16, n: u16, x: u8, y: u8, z: u8)
    by (bit_vector)
    requires
        x == (((p >> 8u16) & 0x07) as u8) | (((c & 0x1F) << 3u16) as u8),
        y == (((c >> 5u16) & 0x3F) as u8) | (((n & 0x03) << 6u16) as u8),
    ensures
        (((((x as u32) | ((y as u32) << 8u32) | ((z as u32) << 16u32))
            >> (3 as u32)) & 0x7FF) as u16) == c & 0x07FF,
{
}

/// Scatter at bit offset 6: the channel straddles three bytes.
proof fn lemma_scatter_p6(p: u16, c: u16, n: u16, x: u8, y: u8, z: u8)
    by (bit_vector)
    requires
        x == (((p >> 5u16) & 0x3F) as u8) | (((c & 0x03) << 6u16) as u8),
        y == ((c >> 2u16) & 0xFF) as u8,
        z == (((c >> 10u16) & 0x01) as u8) | (((n & 0x7F) << 1u16) as u8),
    ensures
        (((((x as u32) | ((y as u32) << 8u32) | ((z as u32) << 16u32))
            >> (6 as u32)) & 0x7FF) as u16) == c & 0x07FF,
{
}

/// Scatter at bit offset 1.
proof fn lemma_scatter_p1(p: u16, c: u16, n: u16, x: u8, y: u8, z: u8)
    by (bit_vector)
    requires
        x == (((p >> 10u16) & 0x01) as u8) | (((c & 0x7F) << 1u16) as u8),
        y == (((c >> 7u16) & 0x0F) as u8) | (((n & 0x0F) << 4u16) as u8),
    ensures
        (((((x as u32) | ((y as u32) << 8u32) | ((z as u32) << 16u32))
            >> (1 as u32)) & 0x7FF) as u16) == c & 0x07FF,
{
}

/// Scatter at bit offset 4.
proof fn lemma_scatter_p4(p: u16, c: u16, n: u16, x: u8, y: u8, z: u8)
    by (bit_vector)
    requires
        x == (((p >> 7u16) & 0x0F) as u8) | (((c & 0x0F) << 4u16) as u8),
        y == (((c >> 4u16) & 0x7F) as u8) | (((n & 0x01) << 7u16) as u8),
    ensures
        (((((x as u32) | ((y as u32) << 8u32) | ((z as u32) << 16u32))
            >> (4 as u32)) & 0x7FF) as u16) == c & 0x07FF,
{
}

/// Scatter at bit offset 7: the channel straddles three bytes.
proof fn lemma_scatter_p7(p: u16, c: u16, n: u16, x: u8, y: u8, z: u8)
    by (bit_vector)
    requires
        x == (((p >> 4u16) & 0x7F) as u8) | (((c & 0x01) << 7u16) as u8),
        y == ((c >> 1u16) & 0xFF) as u8,
        z == (((c >> 9u16) & 0x03) as u8) | (((n & 0x3F) << 2u16) as u8),
    ensures
        (((((x as u32) | ((y as u32) << 8u32) | ((z as u32) << 16u32))
            >> (7 as u32)) & 0x7FF) as u16) == c & 0x07FF,
{
}

/// Scatter at bit offset 2.
proof fn lemma_scatter_p2(p: u16, c: u16, n: u16, x: u8, y: u8, z: u8)
    by (bit_vector)
    requires
        x == (((p >> 9u16) & 0x03) as u8) | (((c & 0x3F) << 2u16) as u8),
        y == (((c >> 6u16) & 0x1F) as u8) | (((n & 0x07) << 5u16) as u8),
    ensures
        (((((x as u32) | ((y as u32) << 8u32) | ((z as u32) << 16u32))
            >> (2 as u32)) & 0x7FF) as u16) == c & 0x07FF,
{
}

/// Scatter at bit offset 5.
proof fn lemma_scatter_p5(p: u16, c: u16, x: u8, y: u8, z: u8)
    by (bit_vector)
    requires
        x == (((p >> 6u16) & 0x1F) as u8) | (((c & 0x07) << 5u16) as u8),
        y == ((c >> 3u16) & 0xFF) as u8,
    ensures
        (((((x as u32) | ((y as u32) << 8u32) | ((z as u32) << 16u32))
            >> (5 as u32)) & 0x7FF) as u16) == c & 0x07FF,
{
}

/// The flag byte assembled from the four flag bits has each flag at its bit
/// position and a zero high nibble.
proof fn lemma_flag_byte(t17: u8, t18: u8, tfl: u8, tfs: u8, b: u8)
    by (bit_vector)
    requires
        t17 < 2,
        t18 < 2,
        tfl < 2,
        tfs < 2,
        b == t17 | (t18 << 1u8) | (tfl << 2u8) | (tfs << 3u8),
    ensures
        ((b >> 0u8) & 1 == 1) == (t17 == 1),
        ((b >> 1u8) & 1 == 1) == (t18 == 1),
        ((b >> 2u8) & 1 == 1) == (tfl == 1),
        ((b >> 3u8) & 1 == 1) == (tfs == 1),
        b & 0xF0 == 0,
{
}

/// Encodes a packet into a caller-provided 25-byte buffer: the exact inverse
/// of `SbusPacket::parse` on every channel value that fits in 11 bits.
/// Channel values above 11 bits contribute only their low 11 bits. Every
/// byte of the buffer is overwritten; its prior contents do not matter. The
/// footer is always the "end of frame" value, never a telemetry marker.
pub fn encode_packet(buf: &mut [u8; SBUS_PACKET_SIZE], packet: &SbusPacket)
    ensures
        encoded_frame(*packet, final(buf)@),
{
    let ch = &packet.channels;

    // Start byte
    buf[0] = SBUS_HEADER;

    // Pack the channels: each target byte is the OR of the shifted, masked
    // fragments of the one or two channels that share it.
    buf[1] = ch[0] as u8;
    buf[2] = (((ch[0] >> 8u16) & 0x07) as u8) | (((ch[1] & 0x1F) << 3u16) as u8);
    buf[3] = (((ch[1] >> 5u16) & 0x3F) as u8) | (((ch[2] & 0x03) << 6u16) as u8);
    buf[4] = ((ch[2] >> 2u16) & 0xFF) as u8;
    buf[5] = (((ch[2] >> 10u16) & 0x01) as u8) | (((ch[3] & 0x7F) << 1u16) as u8);
    buf[6] = (((ch[3] >> 7u16) & 0x0F) as u8) | (((ch[4] & 0x0F) << 4u16) as u8);
    buf[7] = (((ch[4] >> 4u16) & 0x7F) as u8) | (((ch[5] & 0x01) << 7u16) as u8);
    buf[8] = ((ch[5] >> 1u16) & 0xFF) as u8;
    buf[9] = (((ch[5] >> 9u16) & 0x03) as u8) | (((ch[6] & 0x3F) << 2u16) as u8);
    buf[10] = (((ch[6] >> 6u16) & 0x1F) as u8) | (((ch[7] & 0x07) << 5u16) as u8);
    buf[11] = ((ch[7] >> 3u16) & 0xFF) as u8;

    // Channels 8 to 15 repeat the same pattern in the next 11 bytes.
    buf[12] = ch[8] as u8;
    buf[13] = (((ch[8] >> 8u16) & 0x07) as u8) | (((ch[9] & 0x1F) << 3u16) as u8);
    buf[14] = (((ch[9] >> 5u16) & 0x3F) as u8) | (((ch[10] & 0x03) << 6u16) as u8);
    buf[15] = ((ch[10] >> 2u16) & 0xFF) as u8;
    buf[16] = (((ch[10] >> 10u16) & 0x01) as u8) | (((ch[11] & 0x7F) << 1u16) as u8);
    buf[17] = (((ch[11] >> 7u16) & 0x0F) as u8) | (((ch[12] & 0x0F) << 4u16) as u8);
    buf[18] = (((ch[12] >> 4u16) & 0x7F) as u8) | (((ch[13] & 0x01) << 7u16) as u8);
    buf[19] = ((ch[13] >> 1u16) & 0xFF) as u8;
    buf[20] = (((ch[13] >> 9u16) & 0x03) as u8) | (((ch[14] & 0x3F) << 2u16) as u8);
    buf[21] = (((ch[14] >> 6u16) & 0x1F) as u8) | (((ch[15] & 0x07) << 5u16) as u8);
    buf[22] = ((ch[15] >> 3u16) & 0xFF) as u8;

    // Flag byte: the four flags in the low nibble, high nibble zero.
    let t17: u8 = if packet.channel_17 { 1 } else { 0 };
    let t18: u8 = if packet.channel_18 { 1 } else { 0 };
    let tfl: u8 = if packet.frame_lost { 1 } else { 0 };
    let tfs: u8 = if packet.failsafe { 1 } else { 0 };
    let flag_byte: u8 = t17 | (t18 << 1u8) | (tfl << 2u8) | (tfs << 3u8);
    buf[23] = flag_byte;

    buf[24] = SBUS_FOOTER;

    proof {
        let f = buf@;
        let cs = packet.channels@;
        lemma_scatter_p0(cs[0], cs[1], f[1], f[2], f[3]);
        lemma_scatter_p3(cs[0], cs[1], cs[2], f[2], f[3], f[4]);
        lemma_scatter_p6(cs[1], cs[2], cs[3], f[3], f[4], f[5]);
        lemma_scatter_p1(cs[2], cs[3], cs[4], f[5], f[6], f[7]);
        lemma_scatter_p4(cs[3], cs[4], cs[5], f[6], f[7], f[8]);
        lemma_scatter_p7(cs[4], cs[5], cs[6], f[7], f[8], f[9]);
        lemma_scatter_p2(cs[5], cs[6], cs[7], f[9], f[10], f[11]);
        lemma_scatter_p5(cs[6], cs[7], f[10], f[11], f[12]);
        lemma_scatter_p0(cs[8], cs[9], f[12], f[13], f[14]);
        lemma_scatter_p3(cs[8], cs[9], cs[10], f[13], f[14], f[15]);
        lemma_scatter_p6(cs[9], cs[10], cs[11], f[14], f[15], f[16]);
        lemma_scatter_p1(cs[10], cs[11], cs[12], f[16], f[17], f[18]);
        lemma_scatter_p4(cs[11], cs[12], cs[13], f[17], f[18], f[19]);
        lemma_scatter_p7(cs[12], cs[13], cs[14], f[18], f[19], f[20]);
        lemma_scatter_p2(cs[13], cs[14], cs[15], f[20], f[21], f[22]);
        lemma_scatter_p5(cs[14], cs[15], f[21], f[22], f[23]);
        assert(spec_channel(f, 0) == cs[0] & CHAN_MASK);
        assert(spec_channel(f, 1) == cs[1] & CHAN_MASK);
        assert(spec_channel(f, 2) == cs[2] & CHAN_MASK);
        assert(spec_channel(f, 3) == cs[3] & CHAN_MASK);
        assert(spec_channel(f, 4) == cs[4] & CHAN_MASK);
        assert(spec_channel(f, 5) == cs[5] & CHAN_MASK);
        assert(spec_channel(f, 6) == cs[6] & CHAN_MASK);
        assert(spec_channel(f, 7) == cs[7] & CHAN_MASK);
        assert(spec_channel(f, 8) == cs[8] & CHAN_MASK);
        assert(spec_channel(f, 9) == cs[9] & CHAN_MASK);
        assert(spec_channel(f, 10) == cs[10] & CHAN_MASK);
        assert(spec_channel(f, 11) == cs[11] & CHAN_MASK);
        assert(spec_channel(f, 12) == cs[12] & CHAN_MASK);
        assert(spec_channel(f, 13) == cs[13] & CHAN_MASK);
        assert(spec_channel(f, 14) == cs[14] & CHAN_MASK);
        assert(spec_channel(f, 15) == cs[15] & CHAN_MASK);
        lemma_flag_byte(t17, t18, tfl, tfs, flag_byte);
    }
}

/// A frame determines its decoding: two packets that both hold the channel
/// values and flag bits of one frame are the same packet.
pub proof fn lemma_parse_deterministic(f: Seq<u8>, p1: SbusPacket, p2: SbusPacket)
    requires
        parsed_packet(f, p1),
        parsed_packet(f, p2),
    ensures
        p1 == p2,
{
    assert forall|i: int| 0 <= i < SBUS_NUM_CHANNELS implies p1.channels@[i]
        == p2.channels@[i] by {
        assert(p1.channels@[i] == spec_channel(f, i));
    }
    assert(p1.channels =~= p2.channels);
}

/// A raw frame is nothing but its bytes: equal views are equal values.
pub proof fn lemma_raw_view_injective(p1: RawSbusPacket, p2: RawSbusPacket)
    requires
        p1@ == p2@,
    ensures
        p1 == p2,
{
    assert(p1.bytes =~= p2.bytes);
}

/// Round-trip law: for every packet whose channel values fit in 11 bits,
/// decoding an encoding of the packet restores the packet exactly.
/// `encoded_frame` is what `encode_packet` ensures of its output buffer and
/// `parsed_packet` is what `SbusPacket::parse` ensures of its result.
pub proof fn lemma_decode_encode_roundtrip(p: SbusPacket, f: Seq<u8>, q: SbusPacket)
    requires
        forall|i: int| 0 <= i < SBUS_NUM_CHANNELS ==> p.channels@[i] <= CHAN_MASK,
        encoded_frame(p, f),
        parsed_packet(f, q),
    ensures
        q == p,
{
    assert forall|i: int| 0 <= i < SBUS_NUM_CHANNELS implies q.channels@[i]
        == p.channels@[i] by {
        let c = p.channels@[i];
        assert(c & 0x07FF == c) by (bit_vector)
            requires
                c <= 0x07FF,
        ;
        assert(spec_channel(f, i) == c & CHAN_MASK);
        assert(q.channels@[i] == spec_channel(f, i));
    }
    assert(q.channels =~= p.channels);
}

} // verus!

