//! Wire format of a segment: a fixed 20-byte header in network byte order,
//! followed by the payload.

use vstd::prelude::*;
use rand::Rng;

verus! {

/// Capacity of the receive buffer; also advertised as the window size.
pub const MAX_PACKET_SIZE: usize = 2048;

/// Largest payload carried by one data segment.
pub const CHUNK_SIZE: usize = 1024;

/// Length of the fixed header.
pub const HEADER_LEN: usize = 20;

/// Flag bit of a closing segment.
pub const FIN_BIT: u16 = 1;

/// Flag bit of a synchronising segment.
pub const SYN_BIT: u16 = 2;

/// Flag bit of a segment whose acknowledgment number is meaningful.
pub const ACK_BIT: u16 = 16;

/// Position of the header-length nibble inside its 16-bit word.
const OFFSET_OFFSET: u16 = 12;

/// Why a buffer could not be decoded.
#[derive(Debug, Clone, Copy, PartialEq, Eq, Structural)]
pub enum DecodeError {
    /// The buffer ended before the fixed header did.
    Truncated,
}

/// Sequence numbers count modulo 2^32.
pub open spec fn wrap_add(a: u32, b: u32) -> u32 {
    if a + b > u32::MAX {
        (a + b - 0x1_0000_0000) as u32
    } else {
        (a + b) as u32
    }
}

/// The two bytes of `v`, most significant first.
pub open spec fn be16(v: u16) -> Seq<u8> {
    seq![(v / 256) as u8, (v % 256) as u8]
}

/// The four bytes of `v`, most significant first.
pub open spec fn be32(v: u32) -> Seq<u8> {
    be16((v / 0x1_0000) as u16) + be16((v % 0x1_0000) as u16)
}

/// The big-endian 16-bit value at position `i` of `b`.
pub open spec fn read16(b: Seq<u8>, i: int) -> u16 {
    (b[i] as int * 256 + b[i + 1] as int) as u16
}

/// The big-endian 32-bit value at position `i` of `b`.
pub open spec fn read32(b: Seq<u8>, i: int) -> u32 {
    (read16(b, i) as int * 0x1_0000 + read16(b, i + 2) as int) as u32
}

/// The word that carries the header length in its top four bits and the
/// flags below them.
pub open spec fn header_word(offset: u8, flags: u16) -> u16 {
    ((offset as u16) << 12u16) | flags
}

/// Relies on rand's `thread_rng().gen_range(0..1000)`, which returns a value
/// of the half-open range it is given.
#[verifier::external_body]
pub(crate) fn random_seq() -> (r: u32)
    ensures
        r < 1000,
{
    rand::thread_rng().gen_range(0..1000)
}

/// A port number; informational only.
#[derive(Debug, Clone, Copy, PartialEq, Eq, Structural)]
pub struct Port(pub u16);

impl From<u16> for Port {
    fn from(port: u16) -> Port {
        Port(port)
    }
}

impl vstd::std_specs::convert::FromSpecImpl<u16> for Port {
    open spec fn obeys_from_spec() -> bool {
        true
    }

    open spec fn from_spec(port: u16) -> Port {
        Port(port)
    }
}

/// The twelve flag bits of a segment.
#[derive(Debug, Clone, Copy, PartialEq, Eq, Structural)]
pub struct Flags(pub u16);

/// The advertised window; always the receive-buffer capacity.
#[derive(Debug, Clone, Copy, PartialEq, Eq, Structural)]
pub struct WindowSize(pub u16);

/// The sender's position in its own byte stream.
#[derive(Debug, Clone, Copy, PartialEq, Eq, Structural)]
pub struct SeqNum(pub u32);

/// The next byte expected from the peer.
#[derive(Debug, Clone, Copy, PartialEq, Eq, Structural)]
pub struct Ack(pub u32);

/// A segment as a mathematical value.
pub struct PacketView {
    pub source: u16,
    pub dest: u16,
    pub seq: u32,
    pub ack: u32,
    pub data_offset: u8,
    pub flags: u16,
    pub window_size: u16,
    pub checksum: u16,
    pub urgent: u16,
    pub data: Seq<u8>,
}

/// A segment.
#[derive(Debug)]
pub struct Packet {
    pub source: Port,
    pub dest: Port,
    pub seq: SeqNum,
    pub ack: Ack,
    /// Header length in 32-bit words beyond the fixed header; four bits wide.
    pub data_offset: u8,
    pub flags: Flags,
    pub window_size: WindowSize,
    pub checksum: u16,
    pub urgent: u16,
    pub data: Vec<u8>,
}

impl View for Packet {
    type V = PacketView;

    open spec fn view(&self) -> PacketView {
        PacketView {
            source: self.source.0,
            dest: self.dest.0,
            seq: self.seq.0,
            ack: self.ack.0,
            data_offset: self.data_offset,
            flags: self.flags.0,
            window_size: self.window_size.0,
            checksum: self.checksum,
            urgent: self.urgent,
            data: self.data@,
        }
    }
}

impl PacketView {
    /// The header length fits its four bits and the flags their twelve.
    pub open spec fn wf(self) -> bool {
        self.data_offset < 16 && self.flags < 4096
    }
}

/// The segment that an optional packet holds.
pub open spec fn view_of(p: Option<Packet>) -> Option<PacketView> {
    match p {
        Some(q) => Some(q@),
        None => None,
    }
}

/// The bytes of a segment on the wire.
pub open spec fn encode(p: PacketView) -> Seq<u8> {
    be16(p.source) + be16(p.dest) + be32(p.seq) + be32(p.ack) + be16(
        header_word(p.data_offset, p.flags),
    ) + be16(p.window_size) + be16(p.checksum) + be16(p.urgent) + p.data
}

/// The segment that a buffer of at least `HEADER_LEN` bytes holds.
pub open spec fn decode(b: Seq<u8>) -> PacketView
    recommends
        b.len() >= HEADER_LEN,
{
    PacketView {
        source: read16(b, 0),
        dest: read16(b, 2),
        seq: read32(b, 4),
        ack: read32(b, 8),
        data_offset: (read16(b, 12) / 4096) as u8,
        flags: read16(b, 12) % 4096,
        window_size: read16(b, 14),
        checksum: read16(b, 16),
        urgent: read16(b, 18),
        data: b.subrange(HEADER_LEN as int, b.len() as int),
    }
}

fn read_u16(bytes: &Vec<u8>, pos: &mut usize) -> (r: Result<u16, DecodeError>)
    requires
        *old(pos) <= bytes@.len(),
    ensures
        *final(pos) <= bytes@.len(),
        match r {
            Ok(v) => *old(pos) + 2 <= bytes@.len() && v == read16(bytes@, *old(pos) as int)
                && *final(pos) == *old(pos) + 2,
            Err(e) => *old(pos) + 2 > bytes@.len() && e == DecodeError::Truncated,
        },
{
    if bytes.len() - *pos < 2 {
        return Err(DecodeError::Truncated);
    }
    let hi = bytes[*pos];
    let lo = bytes[*pos + 1];
    *pos = *pos + 2;
    Ok((hi as u16) * 256 + (lo as u16))
}

fn read_u32(bytes: &Vec<u8>, pos: &mut usize) -> (r: Result<u32, DecodeError>)
    requires
        *old(pos) <= bytes@.len(),
    ensures
        *final(pos) <= bytes@.len(),
        match r {
            Ok(v) => *old(pos) + 4 <= bytes@.len() && v == read32(bytes@, *old(pos) as int)
                && *final(pos) == *old(pos) + 4,
            Err(e) => *old(pos) + 4 > bytes@.len() && e == DecodeError::Truncated,
        },
{
    let hi = read_u16(bytes, pos)?;
    let lo = read_u16(bytes, pos)?;
    Ok((hi as u32) * 0x1_0000 + (lo as u32))
}

/// Splits the header-length word into its two fields.
fn from_u16(value: u16) -> (r: (u8, Flags))
    ensures
        r.0 == value / 4096,
        r.1.0 == value % 4096,
{
    let offset = value >> OFFSET_OFFSET;
    assert(offset == value / 4096 && value & !(offset << 12u16) == value % 4096) by (bit_vector)
        requires
            offset == value >> 12u16,
    ;
    (offset as u8, Flags(value & !(offset << OFFSET_OFFSET)))
}

/// Appends the two bytes of `v`, most significant first.
fn push_u16(out: &mut Vec<u8>, v: u16)
    ensures
        final(out)@ == old(out)@ + be16(v),
{
    out.push((v / 256) as u8);
    out.push((v % 256) as u8);
    assert(final(out)@ =~= old(out)@ + be16(v));
}

/// Appends the four bytes of `v`, most significant first.
fn push_u32(out: &mut Vec<u8>, v: u32)
    ensures
        final(out)@ == old(out)@ + be32(v),
{
    push_u16(out, (v / 0x1_0000) as u16);
    push_u16(out, (v % 0x1_0000) as u16);
    assert(final(out)@ =~= old(out)@ + be32(v));
}

/// The header-length word on the wire.
fn be_bytes(offset: u8, flags: Flags) -> (r: Vec<u8>)
    ensures
        r@ == be16(header_word(offset, flags.0)),
{
    let mut out: Vec<u8> = Vec::new();
    push_u16(&mut out, ((offset as u16) << OFFSET_OFFSET) | flags.0);
    assert(out@ =~= be16(header_word(offset, flags.0)));
    out
}

impl Packet {
    /// Decodes a segment; fails exactly when the buffer is shorter than the
    /// fixed header.
    pub fn from_bytes(bytes: Vec<u8>) -> (r: Result<Packet, DecodeError>)
        ensures
            r is Err <==> bytes@.len() < HEADER_LEN,
            r matches Ok(p) ==> p@ == decode(bytes@),
            r matches Err(e) ==> e == DecodeError::Truncated,
    {
        let mut bytes = bytes;
        let ghost b = bytes@;
        let mut pos: usize = 0;
        let source = Port(read_u16(&bytes, &mut pos)?);
        let dest = Port(read_u16(&bytes, &mut pos)?);
        let seq = SeqNum(read_u32(&bytes, &mut pos)?);
        let ack = Ack(read_u32(&bytes, &mut pos)?);
        let (data_offset, flags) = from_u16(read_u16(&bytes, &mut pos)?);
        let window_size = WindowSize(read_u16(&bytes, &mut pos)?);
        let checksum = read_u16(&bytes, &mut pos)?;
        let urgent = read_u16(&bytes, &mut pos)?;
        let data = bytes.split_off(pos);
        let p = Packet {
            source,
            dest,
            seq,
            ack,
            data_offset,
            flags,
            window_size,
            checksum,
            urgent,
            data,
        };
        assert(p@.data =~= decode(b).data);
        Ok(p)
    }

    /// Encodes a segment: the fixed header, then the payload verbatim.
    pub fn into_bytes(self) -> (r: Vec<u8>)
        ensures
            r@ == encode(self@),
    {
        let ghost v = self@;
        let mut data = self.data;
        let mut out: Vec<u8> = Vec::new();
        push_u16(&mut out, self.source.0);
        push_u16(&mut out, self.dest.0);
        push_u32(&mut out, self.seq.0);
        push_u32(&mut out, self.ack.0);
        let mut word = be_bytes(self.data_offset, self.flags);
        out.append(&mut word);
        push_u16(&mut out, self.window_size.0);
        push_u16(&mut out, self.checksum);
        push_u16(&mut out, self.urgent);
        out.append(&mut data);
        assert(out@ =~= encode(v));
        out
    }
}


proof fn lemma_header_word(offset: u8, flags: u16)
    requires
        offset < 16,
        flags < 4096,
    ensures
        header_word(offset, flags) / 4096 == offset,
        header_word(offset, flags) % 4096 == flags,
{
    assert(((offset as u16) << 12u16) | flags == offset as u16 * 4096 + flags) by (bit_vector)
        requires
            offset < 16,
            flags < 4096,
    ;
}

proof fn lemma_read_be16(b: Seq<u8>, i: int, v: u16)
    requires
        0 <= i && i + 2 <= b.len(),
        b.subrange(i, i + 2) == be16(v),
    ensures
        read16(b, i) == v,
{
    assert(b[i] == b.subrange(i, i + 2)[0]);
    assert(b[i + 1] == b.subrange(i, i + 2)[1]);
}

proof fn lemma_read_be32(b: Seq<u8>, i: int, v: u32)
    requires
        0 <= i && i + 4 <= b.len(),
        b.subrange(i, i + 4) == be32(v),
    ensures
        read32(b, i) == v,
{
    assert(b.subrange(i, i + 2) =~= b.subrange(i, i + 4).subrange(0, 2));
    assert(b.subrange(i + 2, i + 4) =~= b.subrange(i, i + 4).subrange(2, 4));
    assert(be32(v).subrange(0, 2) =~= be16((v / 0x1_0000) as u16));
    assert(be32(v).subrange(2, 4) =~= be16((v % 0x1_0000) as u16));
    lemma_read_be16(b, i, (v / 0x1_0000) as u16);
    lemma_read_be16(b, i + 2, (v % 0x1_0000) as u16);
}

/// Decoding the encoding of a well-formed segment gives the segment back.
pub proof fn lemma_round_trip(p: PacketView)
    requires
        p.wf(),
    ensures
        encode(p).len() == HEADER_LEN + p.data.len(),
        decode(encode(p)) == p,
{
    let b = encode(p);
    let w = header_word(p.data_offset, p.flags);
    assert(b.subrange(0, 2) =~= be16(p.source));
    assert(b.subrange(2, 4) =~= be16(p.dest));
    assert(b.subrange(4, 8) =~= be32(p.seq));
    assert(b.subrange(8, 12) =~= be32(p.ack));
    assert(b.subrange(12, 14) =~= be16(w));
    assert(b.subrange(14, 16) =~= be16(p.window_size));
    assert(b.subrange(16, 18) =~= be16(p.checksum));
    assert(b.subrange(18, 20) =~= be16(p.urgent));
    lemma_read_be16(b, 0, p.source);
    lemma_read_be16(b, 2, p.dest);
    lemma_read_be32(b, 4, p.seq);
    lemma_read_be32(b, 8, p.ack);
    lemma_read_be16(b, 12, w);
    lemma_read_be16(b, 14, p.window_size);
    lemma_read_be16(b, 16, p.checksum);
    lemma_read_be16(b, 18, p.urgent);
    lemma_header_word(p.data_offset, p.flags);
    assert(b.subrange(20, b.len() as int) =~= p.data);
}

proof fn lemma_be16_read(b: Seq<u8>, i: int)
    requires
        0 <= i && i + 2 <= b.len(),
    ensures
        be16(read16(b, i)) == b.subrange(i, i + 2),
{
    assert(be16(read16(b, i)) =~= b.subrange(i, i + 2));
}

proof fn lemma_be32_read(b: Seq<u8>, i: int)
    requires
        0 <= i && i + 4 <= b.len(),
    ensures
        be32(read32(b, i)) == b.subrange(i, i + 4),
{
    let v = read32(b, i);
    assert((v / 0x1_0000) as u16 == read16(b, i));
    assert((v % 0x1_0000) as u16 == read16(b, i + 2));
    lemma_be16_read(b, i);
    lemma_be16_read(b, i + 2);
    assert(b.subrange(i, i + 2) + b.subrange(i + 2, i + 4) =~= b.subrange(i, i + 4));
}

/// Every buffer that holds a full header decodes to a well-formed segment
/// whose encoding is that buffer again.
pub proof fn lemma_decode_encode(b: Seq<u8>)
    requires
        b.len() >= HEADER_LEN,
    ensures
        decode(b).wf(),
        encode(decode(b)) == b,
{
    let p = decode(b);
    let w = read16(b, 12);
    assert(header_word((w / 4096) as u8, w % 4096) == w) by (bit_vector);
    lemma_be16_read(b, 0);
    lemma_be16_read(b, 2);
    lemma_be32_read(b, 4);
    lemma_be32_read(b, 8);
    lemma_be16_read(b, 12);
    lemma_be16_read(b, 14);
    lemma_be16_read(b, 16);
    lemma_be16_read(b, 18);
    assert(encode(p) =~= b.subrange(0, 2) + b.subrange(2, 4) + b.subrange(4, 8) + b.subrange(8, 12)
        + b.subrange(12, 14) + b.subrange(14, 16) + b.subrange(16, 18) + b.subrange(18, 20)
        + b.subrange(20, b.len() as int));
    assert(encode(p) =~= b);
}


impl Flags {
    pub open spec fn spec_is_ack(self) -> bool {
        self.0 & ACK_BIT != 0
    }

    pub open spec fn spec_is_syn(self) -> bool {
        self.0 & SYN_BIT != 0
    }

    pub open spec fn spec_is_fin(self) -> bool {
        self.0 & FIN_BIT != 0
    }

    /// Toggles the ACK bit alone.
    pub fn flip_ack(self) -> (r: Self)
        ensures
            r.0 == self.0 ^ ACK_BIT,
    {
        Flags(self.0 ^ ACK_BIT)
    }

    pub fn is_ack(&self) -> (r: bool)
        ensures
            r == self.spec_is_ack(),
    {
        self.0 & ACK_BIT != 0
    }

    /// Toggles the SYN bit alone.
    pub fn flip_syn(self) -> (r: Self)
        ensures
            r.0 == self.0 ^ SYN_BIT,
    {
        Flags(self.0 ^ SYN_BIT)
    }

    pub fn is_syn(&self) -> (r: bool)
        ensures
            r == self.spec_is_syn(),
    {
        self.0 & SYN_BIT != 0
    }

    /// Toggles the FIN bit alone.
    pub fn flip_fin(self) -> (r: Self)
        ensures
            r.0 == self.0 ^ FIN_BIT,
    {
        Flags(self.0 ^ FIN_BIT)
    }

    pub fn is_fin(&self) -> (r: bool)
        ensures
            r == self.spec_is_fin(),
    {
        self.0 & FIN_BIT != 0
    }
}

impl Default for Flags {
    fn default() -> (r: Self)
        ensures
            r.0 == 0,
    {
        Flags(0)
    }
}

impl Default for WindowSize {
    fn default() -> (r: Self)
        ensures
            r.0 == MAX_PACKET_SIZE,
    {
        WindowSize(MAX_PACKET_SIZE as u16)
    }
}

impl core::ops::Add<u32> for SeqNum {
    type Output = SeqNum;

    fn add(self, rhs: u32) -> SeqNum {
        SeqNum(self.0.wrapping_add(rhs))
    }
}

impl vstd::std_specs::ops::AddSpecImpl<u32> for SeqNum {
    open spec fn obeys_add_spec() -> bool {
        true
    }

    open spec fn add_req(self, rhs: u32) -> bool {
        true
    }

    open spec fn add_spec(self, rhs: u32) -> SeqNum {
        SeqNum(wrap_add(self.0, rhs))
    }
}

impl core::ops::Add<u32> for Ack {
    type Output = Ack;

    fn add(self, rhs: u32) -> Ack {
        Ack(self.0.wrapping_add(rhs))
    }
}

impl vstd::std_specs::ops::AddSpecImpl<u32> for Ack {
    open spec fn obeys_add_spec() -> bool {
        true
    }

    open spec fn add_req(self, rhs: u32) -> bool {
        true
    }

    open spec fn add_spec(self, rhs: u32) -> Ack {
        Ack(wrap_add(self.0, rhs))
    }
}


impl PacketView {
    pub open spec fn is_syn(self) -> bool {
        Flags(self.flags).spec_is_syn()
    }

    pub open spec fn is_ack(self) -> bool {
        Flags(self.flags).spec_is_ack()
    }

    pub open spec fn is_fin(self) -> bool {
        Flags(self.flags).spec_is_fin()
    }

    /// The segment carries the ACK flag and acknowledges exactly `expected`.
    pub open spec fn acknowledges(self, expected: SeqNum) -> bool {
        self.is_ack() && self.ack == expected.0
    }

    /// The sender's sequence number, if the segment carries SYN.
    pub open spec fn syn_seq(self) -> Option<Ack> {
        if self.is_syn() {
            Some(Ack(self.seq))
        } else {
            None
        }
    }

    /// The sender's sequence number, if the segment acknowledges `expected`.
    pub open spec fn ack_seq(self, expected: SeqNum) -> Option<Ack> {
        if self.acknowledges(expected) {
            Some(Ack(self.seq))
        } else {
            None
        }
    }

    /// The sender's sequence number, if the segment is a SYN+ACK that
    /// acknowledges `expected`.
    pub open spec fn syn_ack_seq(self, expected: SeqNum) -> Option<Ack> {
        if self.acknowledges(expected) && self.is_syn() {
            Some(Ack(self.seq))
        } else {
            None
        }
    }

    /// The sender's sequence number, if the segment is a FIN+ACK that
    /// acknowledges `expected`.
    pub open spec fn fin_ack_seq(self, expected: SeqNum) -> Option<Ack> {
        if self.acknowledges(expected) && self.is_fin() {
            Some(Ack(self.seq))
        } else {
            None
        }
    }
}

impl Packet {
    /// Checksum validation; every segment passes for now.
    pub fn check_sum(&self) -> (r: bool)
        ensures
            r,
    {
        true
    }

    /// The sender's sequence number, as the value the receiver acknowledges.
    pub fn seq(&self) -> (r: Ack)
        ensures
            r.0 == self.seq.0,
    {
        Ack(self.seq.0)
    }

    pub fn fin(&self) -> (r: bool)
        ensures
            r == self@.is_fin(),
    {
        self.flags.is_fin()
    }

    pub fn data(&self) -> (r: &[u8])
        ensures
            r@ == self.data@,
    {
        self.data.as_slice()
    }

    /// The sender's sequence number of a SYN segment.
    pub fn syn(self) -> (r: Option<Ack>)
        ensures
            r == self@.syn_seq(),
    {
        if self.flags.is_syn() {
            Some(Ack(self.seq.0))
        } else {
            None
        }
    }

    /// The sender's sequence number of an ACK of `expected_ack`.
    pub fn ack(self, expected_ack: SeqNum) -> (r: Option<Ack>)
        ensures
            r == self@.ack_seq(expected_ack),
    {
        if self.flags.is_ack() && self.ack.0 == expected_ack.0 {
            Some(Ack(self.seq.0))
        } else {
            None
        }
    }

    /// The sender's sequence number of a SYN+ACK of `expected_ack`.
    pub fn syn_ack(self, expected_ack: SeqNum) -> (r: Option<Ack>)
        ensures
            r == self@.syn_ack_seq(expected_ack),
    {
        if self.flags.is_ack() && self.flags.is_syn() && self.ack.0 == expected_ack.0 {
            Some(Ack(self.seq.0))
        } else {
            None
        }
    }

    /// The sender's sequence number of a FIN+ACK of `expected_ack`.
    pub fn fin_ack(self, expected_ack: SeqNum) -> (r: Option<Ack>)
        ensures
            r == self@.fin_ack_seq(expected_ack),
    {
        if self.flags.is_ack() && self.flags.is_fin() && self.ack.0 == expected_ack.0 {
            Some(Ack(self.seq.0))
        } else {
            None
        }
    }

    /// Whether the segment is an ACK of `expected_ack`.
    pub fn check_ack(self, expected_ack: SeqNum) -> (r: bool)
        ensures
            r == self@.acknowledges(expected_ack),
    {
        self.flags.is_ack() && self.ack.0 == expected_ack.0
    }
}

/// The fields of a segment that its sender chooses beyond the addresses and
/// the sequence number.
pub struct PacketExtra {
    pub ack: Ack,
    pub flags: Flags,
    pub window_size: WindowSize,
    pub urgent: u16,
    pub data: Vec<u8>,
}

impl Default for PacketExtra {
    fn default() -> (r: Self)
        ensures
            r.ack.0 == 0,
            r.flags.0 == 0,
            r.window_size.0 == MAX_PACKET_SIZE,
            r.urgent == 0,
            r.data@.len() == 0,
    {
        PacketExtra {
            ack: Ack(0),
            flags: Flags::default(),
            window_size: WindowSize::default(),
            urgent: 0,
            data: Vec::new(),
        }
    }
}

/// A segment before its header length and checksum are filled in.
pub struct PseudoPacket {
    pub source: Port,
    pub dest: Port,
    pub seq: SeqNum,
    pub extra: PacketExtra,
}

impl PseudoPacket {
    /// Header length beyond the fixed header; no options are sent.
    pub fn data_offset(&self) -> (r: u8)
        ensures
            r == 0,
    {
        0
    }

    /// Checksum of the segment; not computed yet, always zero.
    pub fn checksum(&self) -> (r: u16)
        ensures
            r == 0,
    {
        0
    }
}

impl From<PseudoPacket> for Packet {
    fn from(packet: PseudoPacket) -> Packet {
        let data_offset = packet.data_offset();
        let checksum = packet.checksum();
        Packet {
            source: packet.source,
            dest: packet.dest,
            seq: packet.seq,
            ack: packet.extra.ack,
            data_offset,
            flags: packet.extra.flags,
            window_size: packet.extra.window_size,
            checksum,
            urgent: packet.extra.urgent,
            data: packet.extra.data,
        }
    }
}

impl vstd::std_specs::convert::FromSpecImpl<PseudoPacket> for Packet {
    open spec fn obeys_from_spec() -> bool {
        true
    }

    open spec fn from_spec(packet: PseudoPacket) -> Packet {
        Packet {
            source: packet.source,
            dest: packet.dest,
            seq: packet.seq,
            ack: packet.extra.ack,
            data_offset: 0,
            flags: packet.extra.flags,
            window_size: packet.extra.window_size,
            checksum: 0,
            urgent: packet.extra.urgent,
            data: packet.extra.data,
        }
    }
}

/// Toggling one of SYN, ACK and FIN changes that bit alone and keeps the
/// flags within their twelve bits; and in the header-length word the flags
/// and the header length never disturb each other.
pub proof fn lemma_flag_independence(offset: u8, flags: u16)
    requires
        offset < 16,
        flags < 4096,
    ensures
        Flags(flags ^ SYN_BIT).spec_is_syn() == !Flags(flags).spec_is_syn(),
        Flags(flags ^ SYN_BIT).spec_is_ack() == Flags(flags).spec_is_ack(),
        Flags(flags ^ SYN_BIT).spec_is_fin() == Flags(flags).spec_is_fin(),
        Flags(flags ^ ACK_BIT).spec_is_ack() == !Flags(flags).spec_is_ack(),
        Flags(flags ^ ACK_BIT).spec_is_syn() == Flags(flags).spec_is_syn(),
        Flags(flags ^ ACK_BIT).spec_is_fin() == Flags(flags).spec_is_fin(),
        Flags(flags ^ FIN_BIT).spec_is_fin() == !Flags(flags).spec_is_fin(),
        Flags(flags ^ FIN_BIT).spec_is_syn() == Flags(flags).spec_is_syn(),
        Flags(flags ^ FIN_BIT).spec_is_ack() == Flags(flags).spec_is_ack(),
        flags ^ SYN_BIT < 4096,
        flags ^ ACK_BIT < 4096,
        flags ^ FIN_BIT < 4096,
        header_word(offset, flags) / 4096 == offset,
        header_word(offset, flags) % 4096 == flags,
{
    assert(((flags ^ 2u16) & 2u16 != 0) == !(flags & 2u16 != 0)) by (bit_vector);
    assert(((flags ^ 2u16) & 16u16 != 0) == (flags & 16u16 != 0)) by (bit_vector);
    assert(((flags ^ 2u16) & 1u16 != 0) == (flags & 1u16 != 0)) by (bit_vector);
    assert(((flags ^ 16u16) & 16u16 != 0) == !(flags & 16u16 != 0)) by (bit_vector);
    assert(((flags ^ 16u16) & 2u16 != 0) == (flags & 2u16 != 0)) by (bit_vector);
    assert(((flags ^ 16u16) & 1u16 != 0) == (flags & 1u16 != 0)) by (bit_vector);
    assert(((flags ^ 1u16) & 1u16 != 0) == !(flags & 1u16 != 0)) by (bit_vector);
    assert(((flags ^ 1u16) & 2u16 != 0) == (flags & 2u16 != 0)) by (bit_vector);
    assert(((flags ^ 1u16) & 16u16 != 0) == (flags & 16u16 != 0)) by (bit_vector);
    assert(flags ^ 2u16 < 4096 && flags ^ 16u16 < 4096 && flags ^ 1u16 < 4096) by (bit_vector)
        requires
            flags < 4096,
    ;
    lemma_header_word(offset, flags);
}

/// Giving a well-formed segment other flags changes its encoding in the
/// flag bits alone: every other byte, the header-length nibble included,
/// stays as it was, and decoding gives the header length and window back.
pub proof fn lemma_flags_alone(p: PacketView, flags: u16)
    requires
        p.wf(),
        flags < 4096,
    ensures
        ({
            let q = PacketView { flags, ..p };
            &&& encode(q).len() == encode(p).len()
            &&& forall|k: int| 0 <= k < encode(p).len() && k != 12 && k != 13 ==> #[trigger] encode(q)[k] == encode(p)[k]
            &&& encode(q)[12] / 16 == encode(p)[12] / 16
            &&& decode(encode(q)).data_offset == p.data_offset
            &&& decode(encode(q)).window_size == p.window_size
            &&& decode(encode(q)).flags == flags
        }),
{
    let q = PacketView { flags, ..p };
    lemma_round_trip(p);
    lemma_round_trip(q);
    let wp = header_word(p.data_offset, p.flags);
    let wq = header_word(p.data_offset, flags);
    lemma_header_word(p.data_offset, p.flags);
    lemma_header_word(p.data_offset, flags);
    let front = be16(p.source) + be16(p.dest) + be32(p.seq) + be32(p.ack);
    let back = be16(p.window_size) + be16(p.checksum) + be16(p.urgent) + p.data;
    assert(encode(p) =~= front + be16(wp) + back);
    assert(encode(q) =~= front + be16(wq) + back);
    assert(encode(p)[12] == (wp / 256) as u8);
    assert(encode(q)[12] == (wq / 256) as u8);
}

/// Which of SYN, ACK and FIN the flag words that the endpoints send carry.
pub proof fn lemma_sent_flags()
    ensures
        Flags(SYN_BIT).spec_is_syn() && !Flags(SYN_BIT).spec_is_ack() && !Flags(SYN_BIT).spec_is_fin(),
        Flags(ACK_BIT).spec_is_ack() && !Flags(ACK_BIT).spec_is_syn() && !Flags(ACK_BIT).spec_is_fin(),
        Flags(FIN_BIT).spec_is_fin() && !Flags(FIN_BIT).spec_is_syn() && !Flags(FIN_BIT).spec_is_ack(),
        !Flags(0).spec_is_fin() && !Flags(0).spec_is_syn() && !Flags(0).spec_is_ack(),
        Flags(SYN_BIT | ACK_BIT).spec_is_syn() && Flags(SYN_BIT | ACK_BIT).spec_is_ack()
            && !Flags(SYN_BIT | ACK_BIT).spec_is_fin(),
        Flags(FIN_BIT | ACK_BIT).spec_is_fin() && Flags(FIN_BIT | ACK_BIT).spec_is_ack()
            && !Flags(FIN_BIT | ACK_BIT).spec_is_syn(),
{
    assert(2u16 & 2u16 != 0 && 2u16 & 16u16 == 0 && 2u16 & 1u16 == 0) by (bit_vector);
    assert(16u16 & 16u16 != 0 && 16u16 & 2u16 == 0 && 16u16 & 1u16 == 0) by (bit_vector);
    assert(1u16 & 1u16 != 0 && 1u16 & 2u16 == 0 && 1u16 & 16u16 == 0) by (bit_vector);
    assert(0u16 & 1u16 == 0 && 0u16 & 2u16 == 0 && 0u16 & 16u16 == 0) by (bit_vector);
    assert((2u16 | 16u16) & 2u16 != 0 && (2u16 | 16u16) & 16u16 != 0 && (2u16 | 16u16) & 1u16
        == 0) by (bit_vector);
    assert((1u16 | 16u16) & 1u16 != 0 && (1u16 | 16u16) & 16u16 != 0 && (1u16 | 16u16) & 2u16
        == 0) by (bit_vector);
}

} // verus!
