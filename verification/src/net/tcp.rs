//! TCP: the connection state machine, segment headers and their checksum,
//! congestion control and the table of connections.
//!
//! Sending and the clock stay with the caller: the functions here take the
//! current time and the random part of an initial sequence number as
//! arguments and return the segments to send as `TcpOutgoing` values.
use vstd::prelude::*;
use crate::net::types::{NetworkAddress, NetworkError, NetworkResult};
use crate::net::buffer::PacketBuffer;
use crate::net::wire::{be16, be32, from_be16, from_be32, be_to_u16, be_to_u32, u16_to_be, u32_to_be, push_all, copy_range};
use crate::net::checksum::{word_sum, ones_complement, fold_and_complement, add_words, lemma_word_sum_bound};

verus! {

/// Size of a TCP header without options.
pub const TCP_HEADER_MIN_SIZE: usize = 20;

/// States of a TCP connection (RFC 793).
#[derive(Debug, Clone, Copy, PartialEq, Eq, Structural)]
pub enum TcpState {
    Closed,
    Listen,
    SynSent,
    SynReceived,
    Established,
    FinWait1,
    FinWait2,
    CloseWait,
    Closing,
    LastAck,
    TimeWait,
}

impl TcpState {
    /// Whether data may be sent: `Established` or `CloseWait`.
    pub fn can_send_data(&self) -> (r: bool)
        ensures
            r == (*self == TcpState::Established || *self == TcpState::CloseWait),
    {
        match self {
            TcpState::Established | TcpState::CloseWait => true,
            _ => false,
        }
    }

    /// Whether data may be received: `Established`, `FinWait1` or `FinWait2`.
    pub fn can_recv_data(&self) -> (r: bool)
        ensures
            r == (*self == TcpState::Established || *self == TcpState::FinWait1 || *self == TcpState::FinWait2),
    {
        match self {
            TcpState::Established | TcpState::FinWait1 | TcpState::FinWait2 => true,
            _ => false,
        }
    }

    /// Whether the connection is active: neither `Closed` nor `TimeWait`.
    pub fn is_active(&self) -> (r: bool)
        ensures
            r == !(*self == TcpState::Closed || *self == TcpState::TimeWait),
    {
        match self {
            TcpState::Closed | TcpState::TimeWait => false,
            _ => true,
        }
    }

    /// The state after a local close.
    pub open spec fn on_close_spec(self) -> TcpState {
        match self {
            TcpState::Established => TcpState::FinWait1,
            TcpState::CloseWait => TcpState::LastAck,
            _ => self,
        }
    }

    /// The state after a local close: `Established` goes to `FinWait1`,
    /// `CloseWait` to `LastAck`, any other state stays.
    pub fn on_close(&self) -> (r: TcpState)
        ensures
            r == self.on_close_spec(),
    {
        match self {
            TcpState::Established => TcpState::FinWait1,
            TcpState::CloseWait => TcpState::LastAck,
            _ => *self,
        }
    }
}

/// The control bits of a TCP header.
#[derive(Debug, Clone, Copy, PartialEq, Eq, Structural)]
pub struct TcpFlags {
    pub fin: bool,
    pub syn: bool,
    pub rst: bool,
    pub psh: bool,
    pub ack: bool,
    pub urg: bool,
    pub ece: bool,
    pub cwr: bool,
}

/// The flags that a flags byte encodes, bit 0 (FIN) to bit 7 (CWR).
pub open spec fn flags_of(b: u8) -> TcpFlags {
    TcpFlags {
        fin: b & 0x01 != 0,
        syn: b & 0x02 != 0,
        rst: b & 0x04 != 0,
        psh: b & 0x08 != 0,
        ack: b & 0x10 != 0,
        urg: b & 0x20 != 0,
        ece: b & 0x40 != 0,
        cwr: b & 0x80 != 0,
    }
}

/// The value of one flag bit.
pub open spec fn bit_if(on: bool, mask: u8) -> u8 {
    if on {
        mask
    } else {
        0
    }
}

/// The flags byte of `f`.
pub open spec fn flags_byte(f: TcpFlags) -> u8 {
    bit_if(f.fin, 0x01) | bit_if(f.syn, 0x02) | bit_if(f.rst, 0x04) | bit_if(f.psh, 0x08) | bit_if(f.ack, 0x10)
        | bit_if(f.urg, 0x20) | bit_if(f.ece, 0x40) | bit_if(f.cwr, 0x80)
}

/// No flag set.
pub open spec fn no_flags() -> TcpFlags {
    TcpFlags { fin: false, syn: false, rst: false, psh: false, ack: false, urg: false, ece: false, cwr: false }
}

impl TcpFlags {
    /// No flag set.
    pub fn new() -> (r: Self)
        ensures
            r == no_flags(),
    {
        TcpFlags { fin: false, syn: false, rst: false, psh: false, ack: false, urg: false, ece: false, cwr: false }
    }

    /// The flags of a flags byte.
    pub fn from_byte(flags: u8) -> (r: Self)
        ensures
            r == flags_of(flags),
    {
        TcpFlags {
            fin: (flags & 0x01) != 0,
            syn: (flags & 0x02) != 0,
            rst: (flags & 0x04) != 0,
            psh: (flags & 0x08) != 0,
            ack: (flags & 0x10) != 0,
            urg: (flags & 0x20) != 0,
            ece: (flags & 0x40) != 0,
            cwr: (flags & 0x80) != 0,
        }
    }

    /// The flags byte.
    pub fn to_byte(&self) -> (r: u8)
        ensures
            r == flags_byte(*self),
    {
        bit_value(self.fin, 0x01) | bit_value(self.syn, 0x02) | bit_value(self.rst, 0x04) | bit_value(self.psh, 0x08)
            | bit_value(self.ack, 0x10) | bit_value(self.urg, 0x20) | bit_value(self.ece, 0x40) | bit_value(
            self.cwr,
            0x80,
        )
    }
}

/// `mask` when `on`, zero otherwise.
fn bit_value(on: bool, mask: u8) -> (r: u8)
    ensures
        r == bit_if(on, mask),
{
    if on {
        mask
    } else {
        0
    }
}

/// Decoding the flags byte of `f` gives `f` back.
pub proof fn lemma_flags_roundtrip(f: TcpFlags)
    ensures
        flags_of(flags_byte(f)) == f,
{
    let (a, b, c, d, e, g, h, k) = (f.fin, f.syn, f.rst, f.psh, f.ack, f.urg, f.ece, f.cwr);
    let x = flags_byte(f);
    assert(x == ((if a { 1u8 } else { 0u8 }) | (if b { 2u8 } else { 0u8 }) | (if c { 4u8 } else { 0u8 }) | (if d {
        8u8
    } else {
        0u8
    }) | (if e { 16u8 } else { 0u8 }) | (if g { 32u8 } else { 0u8 }) | (if h { 64u8 } else { 0u8 }) | (if k {
        128u8
    } else {
        0u8
    })));
    assert((x & 1 != 0) == a && (x & 2 != 0) == b && (x & 4 != 0) == c && (x & 8 != 0) == d && (x & 16 != 0) == e
        && (x & 32 != 0) == g && (x & 64 != 0) == h && (x & 128 != 0) == k) by (bit_vector)
        requires
            x == ((if a { 1u8 } else { 0u8 }) | (if b { 2u8 } else { 0u8 }) | (if c { 4u8 } else { 0u8 }) | (if d {
                8u8
            } else {
                0u8
            }) | (if e { 16u8 } else { 0u8 }) | (if g { 32u8 } else { 0u8 }) | (if h { 64u8 } else { 0u8 }) | (
            if k {
                128u8
            } else {
                0u8
            })),
    ;
}

/// Encoding the flags of a byte gives the byte back.
pub proof fn lemma_flags_byte_roundtrip(b: u8)
    ensures
        flags_byte(flags_of(b)) == b,
{
    let f = flags_of(b);
    assert(flags_byte(f) == ((if b & 1 != 0 { 1u8 } else { 0u8 }) | (if b & 2 != 0 { 2u8 } else { 0u8 }) | (if b & 4
        != 0 {
        4u8
    } else {
        0u8
    }) | (if b & 8 != 0 { 8u8 } else { 0u8 }) | (if b & 16 != 0 { 16u8 } else { 0u8 }) | (if b & 32 != 0 {
        32u8
    } else {
        0u8
    }) | (if b & 64 != 0 { 64u8 } else { 0u8 }) | (if b & 128 != 0 { 128u8 } else { 0u8 })));
    assert(((if b & 1 != 0 { 1u8 } else { 0u8 }) | (if b & 2 != 0 { 2u8 } else { 0u8 }) | (if b & 4 != 0 {
        4u8
    } else {
        0u8
    }) | (if b & 8 != 0 { 8u8 } else { 0u8 }) | (if b & 16 != 0 { 16u8 } else { 0u8 }) | (if b & 32 != 0 {
        32u8
    } else {
        0u8
    }) | (if b & 64 != 0 { 64u8 } else { 0u8 }) | (if b & 128 != 0 { 128u8 } else { 0u8 })) == b) by (bit_vector);
}

/// A TCP header.
#[derive(Debug, Clone)]
pub struct TcpHeader {
    pub source_port: u16,
    pub dest_port: u16,
    pub sequence_number: u32,
    pub acknowledgment_number: u32,
    pub data_offset: u8,
    pub flags: TcpFlags,
    pub window_size: u16,
    pub checksum: u16,
    pub urgent_pointer: u16,
    pub options: Vec<u8>,
}

/// The number of option bytes that a header starting at `d` announces.
pub open spec fn options_len_of(d: Seq<u8>) -> int {
    let header_len = ((d[12] >> 4u8) & 0x0fu8) as int * 4;
    if header_len > TCP_HEADER_MIN_SIZE {
        header_len - TCP_HEADER_MIN_SIZE
    } else {
        0
    }
}

/// `h` holds the fields of the header at the start of `d`, with `opt`
/// option bytes.
pub open spec fn header_read(d: Seq<u8>, h: TcpHeader) -> bool {
    &&& h.source_port == from_be16(d[0], d[1])
    &&& h.dest_port == from_be16(d[2], d[3])
    &&& h.sequence_number == from_be32(d[4], d[5], d[6], d[7])
    &&& h.acknowledgment_number == from_be32(d[8], d[9], d[10], d[11])
    &&& h.data_offset == (d[12] >> 4u8) & 0x0fu8
    &&& h.flags == flags_of(d[13])
    &&& h.window_size == from_be16(d[14], d[15])
    &&& h.checksum == from_be16(d[16], d[17])
    &&& h.urgent_pointer == from_be16(d[18], d[19])
    &&& h.options@ == d.subrange(20, 20 + options_len_of(d))
}

/// The sum of the header's 16-bit words without the checksum field.
pub open spec fn header_word_sum(h: TcpHeader) -> nat {
    h.source_port as nat + h.dest_port as nat + (h.sequence_number / 0x10000) as nat + (h.sequence_number
        % 0x10000) as nat + (h.acknowledgment_number / 0x10000) as nat + (h.acknowledgment_number % 0x10000) as nat
        + (h.data_offset as nat * 4096 + flags_byte(h.flags) as nat) + h.window_size as nat
        + h.urgent_pointer as nat
}

/// The sum of the pseudo-header's words for a segment of `tcp_len` bytes
/// between `src` and `dst`; `None` for addresses of different families or
/// that are not IP addresses.
pub open spec fn pseudo_header_sum(src: NetworkAddress, dst: NetworkAddress, tcp_len: u32) -> Option<nat> {
    match (src, dst) {
        (NetworkAddress::IPv4(s), NetworkAddress::IPv4(d)) => Some(
            word_sum(s@) + word_sum(d@) + 6 + tcp_len as nat,
        ),
        (NetworkAddress::IPv6(s), NetworkAddress::IPv6(d)) => Some(
            word_sum(s@) + word_sum(d@) + (tcp_len / 0x10000) as nat + (tcp_len % 0x10000) as nat + 6,
        ),
        _ => None,
    }
}

/// The length the pseudo-header carries: header, options and payload,
/// truncated to 32 bits.
pub open spec fn tcp_length(h: TcpHeader, payload: Seq<u8>) -> u32 {
    (TCP_HEADER_MIN_SIZE + h.options@.len() + payload.len()) as u32
}

/// The word sum that the checksum of `h` and `payload` folds.
pub open spec fn segment_sum(h: TcpHeader, src: NetworkAddress, dst: NetworkAddress, payload: Seq<u8>) -> nat {
    match pseudo_header_sum(src, dst, tcp_length(h, payload)) {
        Some(p) => p + header_word_sum(h) + word_sum(h.options@) + word_sum(payload),
        None => 0,
    }
}

/// The checksum of a segment: zero for addresses of mixed families, the
/// Internet checksum over pseudo-header, header and payload otherwise.
pub open spec fn tcp_checksum_spec(h: TcpHeader, src: NetworkAddress, dst: NetworkAddress, payload: Seq<u8>) -> u16 {
    match pseudo_header_sum(src, dst, tcp_length(h, payload)) {
        Some(_) => ones_complement(segment_sum(h, src, dst, payload)),
        None => 0,
    }
}

/// Adds the words of two bytes arrays' contents to `sum`.
fn add_address_words(sum: u32, s: &[u8], d: &[u8]) -> (r: u32)
    requires
        sum + word_sum(s@) + word_sum(d@) <= u32::MAX,
    ensures
        r == sum + word_sum(s@) + word_sum(d@),
{
    let a = add_words(sum, s);
    add_words(a, d)
}

impl TcpHeader {
    /// The source address; the header alone does not carry it, so this is
    /// the unspecified IPv4 address.
    pub fn source_ip(&self) -> (r: NetworkAddress)
        ensures
            r == NetworkAddress::IPv4([0u8, 0u8, 0u8, 0u8]),
    {
        NetworkAddress::IPv4([0, 0, 0, 0])
    }

    /// The payload length; the header alone does not carry it, so this is
    /// zero.
    pub fn payload_length(&self) -> (r: usize)
        ensures
            r == 0,
    {
        0
    }

    /// Reads a header from the readable bytes of `buffer`. Fewer than 20
    /// bytes give `InvalidPacket` and consume nothing; options that run past
    /// the data give `InvalidPacket` after the fixed 20 bytes were consumed.
    pub fn parse(buffer: &mut PacketBuffer) -> (r: NetworkResult<Self>)
        requires
            old(buffer).wf(),
        ensures
            final(buffer).wf(),
            final(buffer).storage() == old(buffer).storage(),
            final(buffer).write_pos_spec() == old(buffer).write_pos_spec(),
            final(buffer).length_spec() == old(buffer).length_spec(),
            final(buffer).meta() == old(buffer).meta(),
            ({
                let d = old(buffer).readable_spec();
                &&& d.len() < TCP_HEADER_MIN_SIZE ==> r == Err::<TcpHeader, NetworkError>(NetworkError::InvalidPacket)
                    && final(buffer).read_pos_spec() == old(buffer).read_pos_spec()
                &&& d.len() >= TCP_HEADER_MIN_SIZE && d.len() < 20 + options_len_of(d) ==> r == Err::<
                    TcpHeader,
                    NetworkError,
                >(NetworkError::InvalidPacket) && final(buffer).read_pos_spec() == old(buffer).read_pos_spec() + 20
                &&& d.len() >= 20 + options_len_of(d) && d.len() >= TCP_HEADER_MIN_SIZE ==> (r matches Ok(h)
                    && header_read(d, h) && final(buffer).read_pos_spec() == old(buffer).read_pos_spec() + 20
                    + options_len_of(d))
            }),
    {
        let d = buffer.readable_data();
        if d.len() < TCP_HEADER_MIN_SIZE {
            return Err(NetworkError::InvalidPacket);
        }
        let source_port = be_to_u16(d[0], d[1]);
        let dest_port = be_to_u16(d[2], d[3]);
        let sequence_number = be_to_u32(d[4], d[5], d[6], d[7]);
        let acknowledgment_number = be_to_u32(d[8], d[9], d[10], d[11]);
        let data_offset = (d[12] >> 4) & 0x0f;
        let flags = TcpFlags::from_byte(d[13]);
        let window_size = be_to_u16(d[14], d[15]);
        let checksum = be_to_u16(d[16], d[17]);
        let urgent_pointer = be_to_u16(d[18], d[19]);
        let header_length = (data_offset as usize) * 4;
        let options_length = if header_length > TCP_HEADER_MIN_SIZE {
            header_length - TCP_HEADER_MIN_SIZE
        } else {
            0
        };
        if d.len() < TCP_HEADER_MIN_SIZE + options_length {
            buffer.consume(TCP_HEADER_MIN_SIZE);
            return Err(NetworkError::InvalidPacket);
        }
        let options = copy_range(d, TCP_HEADER_MIN_SIZE, TCP_HEADER_MIN_SIZE + options_length);
        buffer.consume(TCP_HEADER_MIN_SIZE + options_length);
        Ok(TcpHeader {
            source_port,
            dest_port,
            sequence_number,
            acknowledgment_number,
            data_offset,
            flags,
            window_size,
            checksum,
            urgent_pointer,
            options,
        })
    }

    /// The checksum of this header with `payload` between `src_ip` and
    /// `dst_ip` (RFC 793 pseudo-header for IPv4, RFC 2460 for IPv6); zero
    /// for addresses of mixed families.
    pub fn calculate_checksum(&self, src_ip: &NetworkAddress, dst_ip: &NetworkAddress, payload: &[u8]) -> (r: u16)
        requires
            TCP_HEADER_MIN_SIZE + self.options@.len() + payload@.len() <= usize::MAX,
            segment_sum(*self, *src_ip, *dst_ip, payload@) <= u32::MAX,
        ensures
            r == tcp_checksum_spec(*self, *src_ip, *dst_ip, payload@),
    {
        let tcp_len = (TCP_HEADER_MIN_SIZE + self.options.len() + payload.len()) as u32;
        let ghost total = segment_sum(*self, *src_ip, *dst_ip, payload@);
        let mut sum: u32 = match (src_ip, dst_ip) {
            (NetworkAddress::IPv4(s), NetworkAddress::IPv4(d)) => {
                let a = add_address_words(0, s, d);
                a + 6 + tcp_len
            },
            (NetworkAddress::IPv6(s), NetworkAddress::IPv6(d)) => {
                let a = add_address_words(0, s, d);
                let hi = tcp_len >> 16;
                let lo = tcp_len & 0xFFFF;
                assert(hi == tcp_len / 0x10000 && lo == tcp_len % 0x10000) by (bit_vector)
                    requires
                        hi == tcp_len >> 16,
                        lo == tcp_len & 0xFFFF,
                ;
                a + hi + lo + 6
            },
            _ => {
                return 0;
            },
        };
        let seq = self.sequence_number;
        let ack = self.acknowledgment_number;
        let off = self.data_offset;
        let fb = self.flags.to_byte();
        let w = ((off as u32) << 12) | (fb as u32);
        assert(w == off as u32 * 4096 + fb as u32) by (bit_vector)
            requires
                w == ((off as u32) << 12) | (fb as u32),
        ;
        assert(seq >> 16 == seq / 0x10000 && seq & 0xFFFF == seq % 0x10000) by (bit_vector);
        assert(ack >> 16 == ack / 0x10000 && ack & 0xFFFF == ack % 0x10000) by (bit_vector);
        sum = sum + (self.source_port as u32) + (self.dest_port as u32) + (seq >> 16) + (seq & 0xFFFF) + (ack >> 16)
            + (ack & 0xFFFF) + w + (self.window_size as u32) + (self.urgent_pointer as u32);
        sum = add_words(sum, self.options.as_slice());
        sum = add_words(sum, payload);
        fold_and_complement(sum)
    }
}

/// A segment to send: addresses, ports, numbers, flags and window, with no
/// payload and no options.
#[derive(Debug, Clone, Copy, PartialEq, Eq)]
pub struct TcpOutgoing {
    pub src_ip: NetworkAddress,
    pub src_port: u16,
    pub dst_ip: NetworkAddress,
    pub dst_port: u16,
    pub sequence: u32,
    pub acknowledgment: u32,
    pub flags: TcpFlags,
    pub window: u16,
}

/// The sum of the words of a segment's 20-byte header, without the
/// checksum field.
pub open spec fn outgoing_header_sum(o: TcpOutgoing) -> nat {
    o.src_port as nat + o.dst_port as nat + (o.sequence / 0x10000) as nat + (o.sequence % 0x10000) as nat + (
    o.acknowledgment / 0x10000) as nat + (o.acknowledgment % 0x10000) as nat + (5 * 4096 + flags_byte(o.flags) as nat)
        + o.window as nat
}

/// The word sum that the checksum of a segment with `payload` folds.
pub open spec fn outgoing_sum(o: TcpOutgoing, payload: Seq<u8>) -> nat {
    match pseudo_header_sum(o.src_ip, o.dst_ip, (TCP_HEADER_MIN_SIZE + payload.len()) as u32) {
        Some(p) => p + outgoing_header_sum(o) + word_sum(payload),
        None => 0,
    }
}

/// The checksum of a segment with `payload`: zero for addresses of mixed
/// families.
pub open spec fn outgoing_checksum(o: TcpOutgoing, payload: Seq<u8>) -> u16 {
    match pseudo_header_sum(o.src_ip, o.dst_ip, (TCP_HEADER_MIN_SIZE + payload.len()) as u32) {
        Some(_) => ones_complement(outgoing_sum(o, payload)),
        None => 0,
    }
}

/// The wire form of a 20-byte header with the given checksum, followed by
/// the payload.
pub open spec fn segment_wire(o: TcpOutgoing, checksum: u16, payload: Seq<u8>) -> Seq<u8> {
    be16(o.src_port) + be16(o.dst_port) + be32(o.sequence) + be32(o.acknowledgment) + be16(
        (0x5000 + flags_byte(o.flags) as int) as u16,
    ) + be16(o.window) + be16(checksum) + be16(0) + payload
}

impl TcpOutgoing {
    /// The bytes of this segment with `payload`: a 20-byte header whose
    /// checksum is computed over the pseudo-header, header and payload.
    pub fn encode(&self, payload: &[u8]) -> (r: Vec<u8>)
        requires
            TCP_HEADER_MIN_SIZE + payload@.len() <= usize::MAX,
            outgoing_sum(*self, payload@) <= u32::MAX,
        ensures
            r@ == segment_wire(*self, outgoing_checksum(*self, payload@), payload@),
    {
        let header = TcpHeader {
            source_port: self.src_port,
            dest_port: self.dst_port,
            sequence_number: self.sequence,
            acknowledgment_number: self.acknowledgment,
            data_offset: 5,
            flags: self.flags,
            window_size: self.window,
            checksum: 0,
            urgent_pointer: 0,
            options: Vec::new(),
        };
        assert(header.options@.len() == 0);
        assert(word_sum(header.options@) == 0);
        assert(segment_sum(header, self.src_ip, self.dst_ip, payload@) == outgoing_sum(*self, payload@));
        let checksum = header.calculate_checksum(&self.src_ip, &self.dst_ip, payload);
        let mut out: Vec<u8> = Vec::new();
        push_all(&mut out, &u16_to_be(self.src_port));
        push_all(&mut out, &u16_to_be(self.dst_port));
        push_all(&mut out, &u32_to_be(self.sequence));
        push_all(&mut out, &u32_to_be(self.acknowledgment));
        let fb = self.flags.to_byte();
        let offset_flags: u16 = 0x5000u16 | (fb as u16);
        assert(offset_flags == 0x5000 + fb as int) by (bit_vector)
            requires
                offset_flags == 0x5000u16 | (fb as u16),
        ;
        push_all(&mut out, &u16_to_be(offset_flags));
        push_all(&mut out, &u16_to_be(self.window));
        push_all(&mut out, &u16_to_be(checksum));
        push_all(&mut out, &u16_to_be(0));
        push_all(&mut out, payload);
        assert(out@ =~= segment_wire(*self, checksum, payload@));
        out
    }
}

/// A TCP connection: endpoints, state, sequence numbers, windows,
/// congestion control, timers and buffers.
#[derive(Debug)]
pub struct TcpConnection {
    pub local_addr: NetworkAddress,
    pub local_port: u16,
    pub remote_addr: NetworkAddress,
    pub remote_port: u16,
    pub state: TcpState,
    pub send_sequence: u32,
    pub send_ack: u32,
    pub recv_sequence: u32,
    pub recv_ack: u32,
    pub send_window: u16,
    pub recv_window: u16,
    pub mss: u16,
    pub rtt: u32,
    pub cwnd: u32,
    pub ssthresh: u32,
    pub retransmit_timeout: u32,
    pub send_buffer: Vec<u8>,
    pub recv_buffer: Vec<u8>,
    pub send_unacked: Vec<u8>,
    pub last_ack_time: u64,
    pub retransmit_count: u8,
    pub keep_alive_time: u64,
    pub user_timeout: u32,
    pub duplicate_acks: u8,
    pub fast_retransmit: bool,
    pub sack_enabled: bool,
    pub window_scale: u8,
    pub timestamps_enabled: bool,
    pub syn_retries: u8,
    pub established_time: u64,
}

/// Key of a connection: local address and port, remote address and port.
pub type ConnectionKey = (NetworkAddress, u16, NetworkAddress, u16);

/// `a` and `b` have the same fields, their buffers the same contents.
pub open spec fn same_connection(a: TcpConnection, b: TcpConnection) -> bool {
    &&& (TcpConnection {
        send_buffer: a.send_buffer,
        recv_buffer: a.recv_buffer,
        send_unacked: a.send_unacked,
        ..b
    }) == a
    &&& a.send_buffer@ == b.send_buffer@
    &&& a.recv_buffer@ == b.recv_buffer@
    &&& a.send_unacked@ == b.send_unacked@
}

/// `c` is a connection just made for the given endpoints at time `now`.
pub open spec fn is_new_connection(
    c: TcpConnection,
    local_addr: NetworkAddress,
    local_port: u16,
    remote_addr: NetworkAddress,
    remote_port: u16,
    now: u64,
) -> bool {
    &&& c.local_addr == local_addr && c.local_port == local_port
    &&& c.remote_addr == remote_addr && c.remote_port == remote_port
    &&& c.state == TcpState::Closed
    &&& c.send_sequence == 0 && c.send_ack == 0 && c.recv_sequence == 0 && c.recv_ack == 0
    &&& c.send_window == 65535 && c.recv_window == 65535
    &&& c.mss == 1460 && c.rtt == 100 && c.cwnd == 1 && c.ssthresh == 65535
    &&& c.retransmit_timeout == 3000
    &&& c.send_buffer@.len() == 0 && c.recv_buffer@.len() == 0 && c.send_unacked@.len() == 0
    &&& c.last_ack_time == now && c.retransmit_count == 0 && c.keep_alive_time == now
    &&& c.user_timeout == 300000 && c.duplicate_acks == 0 && !c.fast_retransmit
    &&& !c.sack_enabled && c.window_scale == 0 && !c.timestamps_enabled
    &&& c.syn_retries == 0 && c.established_time == 0
}

/// The larger of two values.
pub open spec fn max_u32(a: u32, b: u32) -> u32 {
    if a >= b {
        a
    } else {
        b
    }
}

/// The slow-start threshold after a loss: half the window, at least two
/// segments.
pub open spec fn halved_threshold(c: TcpConnection) -> u32 {
    max_u32(c.cwnd / 2, (2 * c.mss) as u32)
}

/// The connection after one more duplicate ACK: the third starts fast
/// retransmit (threshold halved, window threshold plus three segments), later
/// ones inflate the window by a segment.
pub open spec fn dup_ack_spec(c: TcpConnection) -> TcpConnection {
    let d = (c.duplicate_acks + 1) as u8;
    if d >= 3 && !c.fast_retransmit {
        TcpConnection {
            duplicate_acks: d,
            fast_retransmit: true,
            ssthresh: halved_threshold(c),
            cwnd: (halved_threshold(c) + 3 * c.mss) as u32,
            ..c
        }
    } else if c.fast_retransmit {
        TcpConnection { duplicate_acks: d, cwnd: (c.cwnd + c.mss) as u32, ..c }
    } else {
        TcpConnection { duplicate_acks: d, ..c }
    }
}

/// Whether one more duplicate ACK can be counted without overflow.
pub open spec fn dup_ack_fits(c: TcpConnection) -> bool {
    &&& c.duplicate_acks < u8::MAX
    &&& (c.duplicate_acks + 1 >= 3 && !c.fast_retransmit) ==> halved_threshold(c) + 3 * c.mss <= u32::MAX
    &&& c.fast_retransmit ==> c.cwnd + c.mss <= u32::MAX
}

/// The connection after the duplicate ACK count is reset: fast recovery
/// ends with the window at the threshold.
pub open spec fn reset_dup_spec(c: TcpConnection) -> TcpConnection {
    if c.fast_retransmit {
        TcpConnection { duplicate_acks: 0, fast_retransmit: false, cwnd: c.ssthresh, ..c }
    } else {
        TcpConnection { duplicate_acks: 0, ..c }
    }
}

/// The connection after `acked` bytes were acknowledged: slow start below
/// the threshold, congestion avoidance above it.
pub open spec fn cwnd_spec(c: TcpConnection, acked: u32) -> TcpConnection {
    if c.cwnd < c.ssthresh {
        TcpConnection { cwnd: (c.cwnd + acked) as u32, ..c }
    } else {
        TcpConnection { cwnd: (c.cwnd + (acked * c.mss) / (c.cwnd as int)) as u32, ..c }
    }
}

/// Whether the window can grow by `acked` bytes without overflow or a
/// division by zero.
pub open spec fn cwnd_fits(c: TcpConnection, acked: u32) -> bool {
    if c.cwnd < c.ssthresh {
        c.cwnd + acked <= u32::MAX
    } else {
        c.cwnd != 0 && acked * c.mss <= u32::MAX && c.cwnd + (acked * c.mss) / (c.cwnd as int) <= u32::MAX
    }
}

/// Whether the connection has timed out at `now`: 75 s to open, the user
/// timeout when established or closing by the peer, 60 s to close, four
/// minutes in `TimeWait`.
pub open spec fn timed_out_spec(c: TcpConnection, now: u64) -> bool {
    match c.state {
        TcpState::SynSent | TcpState::SynReceived => now - c.last_ack_time > 75000,
        TcpState::Established | TcpState::CloseWait => now - c.last_ack_time > c.user_timeout,
        TcpState::FinWait1 | TcpState::FinWait2 | TcpState::Closing | TcpState::LastAck => now - c.last_ack_time
            > 60000,
        TcpState::TimeWait => now - c.last_ack_time > 240000,
        _ => false,
    }
}

impl TcpConnection {
    /// A closed connection between the given endpoints, with its timers
    /// started at `now` (milliseconds).
    pub fn new(
        local_addr: NetworkAddress,
        local_port: u16,
        remote_addr: NetworkAddress,
        remote_port: u16,
        now: u64,
    ) -> (r: Self)
        ensures
            is_new_connection(r, local_addr, local_port, remote_addr, remote_port, now),
    {
        TcpConnection {
            local_addr,
            local_port,
            remote_addr,
            remote_port,
            state: TcpState::Closed,
            send_sequence: 0,
            send_ack: 0,
            recv_sequence: 0,
            recv_ack: 0,
            send_window: 65535,
            recv_window: 65535,
            mss: 1460,
            rtt: 100,
            cwnd: 1,
            ssthresh: 65535,
            retransmit_timeout: 3000,
            send_buffer: Vec::new(),
            recv_buffer: Vec::new(),
            send_unacked: Vec::new(),
            last_ack_time: now,
            retransmit_count: 0,
            keep_alive_time: now,
            user_timeout: 300000,
            duplicate_acks: 0,
            fast_retransmit: false,
            sack_enabled: false,
            window_scale: 0,
            timestamps_enabled: false,
            syn_retries: 0,
            established_time: 0,
        }
    }

    /// A copy of the connection.
    pub fn duplicate(&self) -> (r: Self)
        ensures
            same_connection(r, *self),
    {
        let send_buffer = copy_range(self.send_buffer.as_slice(), 0, self.send_buffer.len());
        let recv_buffer = copy_range(self.recv_buffer.as_slice(), 0, self.recv_buffer.len());
        let send_unacked = copy_range(self.send_unacked.as_slice(), 0, self.send_unacked.len());
        assert(send_buffer@ =~= self.send_buffer@);
        assert(recv_buffer@ =~= self.recv_buffer@);
        assert(send_unacked@ =~= self.send_unacked@);
        TcpConnection {
            local_addr: self.local_addr,
            local_port: self.local_port,
            remote_addr: self.remote_addr,
            remote_port: self.remote_port,
            state: self.state,
            send_sequence: self.send_sequence,
            send_ack: self.send_ack,
            recv_sequence: self.recv_sequence,
            recv_ack: self.recv_ack,
            send_window: self.send_window,
            recv_window: self.recv_window,
            mss: self.mss,
            rtt: self.rtt,
            cwnd: self.cwnd,
            ssthresh: self.ssthresh,
            retransmit_timeout: self.retransmit_timeout,
            send_buffer,
            recv_buffer,
            send_unacked,
            last_ack_time: self.last_ack_time,
            retransmit_count: self.retransmit_count,
            keep_alive_time: self.keep_alive_time,
            user_timeout: self.user_timeout,
            duplicate_acks: self.duplicate_acks,
            fast_retransmit: self.fast_retransmit,
            sack_enabled: self.sack_enabled,
            window_scale: self.window_scale,
            timestamps_enabled: self.timestamps_enabled,
            syn_retries: self.syn_retries,
            established_time: self.established_time,
        }
    }

    /// Sets the initial send sequence number from the clock (milliseconds,
    /// truncated to 32 bits) plus a random value.
    pub fn generate_isn(&mut self, time_ms: u64, random: u32)
        ensures
            *final(self) == (TcpConnection {
                send_sequence: (time_ms as u32).wrapping_add(random),
                ..*old(self)
            }),
    {
        let time_component = time_ms as u32;
        self.send_sequence = time_component.wrapping_add(random);
    }

    /// Whether the connection has timed out at `now`.
    pub fn is_timed_out(&self, now: u64) -> (r: bool)
        requires
            self.state != TcpState::Closed && self.state != TcpState::Listen ==> now >= self.last_ack_time,
        ensures
            r == timed_out_spec(*self, now),
    {
        match self.state {
            TcpState::SynSent | TcpState::SynReceived => now - self.last_ack_time > 75000,
            TcpState::Established | TcpState::CloseWait => now - self.last_ack_time > self.user_timeout as u64,
            TcpState::FinWait1 | TcpState::FinWait2 | TcpState::Closing | TcpState::LastAck => now
                - self.last_ack_time > 60000,
            TcpState::TimeWait => now - self.last_ack_time > 240000,
            _ => false,
        }
    }

    /// Counts a duplicate ACK (fast retransmit after three).
    pub fn handle_duplicate_ack(&mut self)
        requires
            dup_ack_fits(*old(self)),
        ensures
            *final(self) == dup_ack_spec(*old(self)),
    {
        self.duplicate_acks = self.duplicate_acks + 1;
        if self.duplicate_acks >= 3 && !self.fast_retransmit {
            self.fast_retransmit = true;
            let half = self.cwnd / 2;
            let two = 2 * (self.mss as u32);
            self.ssthresh = if half >= two {
                half
            } else {
                two
            };
            self.cwnd = self.ssthresh + 3 * (self.mss as u32);
        } else if self.fast_retransmit {
            self.cwnd = self.cwnd + self.mss as u32;
        }
    }

    /// Resets the duplicate ACK count; fast recovery ends with the window at
    /// the threshold.
    pub fn reset_duplicate_acks(&mut self)
        ensures
            *final(self) == reset_dup_spec(*old(self)),
    {
        self.duplicate_acks = 0;
        if self.fast_retransmit {
            self.fast_retransmit = false;
            self.cwnd = self.ssthresh;
        }
    }

    /// Whether an established connection has been idle for more than two
    /// hours at `now`.
    pub fn should_send_keepalive(&self, now: u64) -> (r: bool)
        requires
            self.state == TcpState::Established ==> now >= self.keep_alive_time,
        ensures
            r == (self.state == TcpState::Established && now - self.keep_alive_time > 7200000),
    {
        if self.state != TcpState::Established {
            return false;
        }
        now - self.keep_alive_time > 7200000
    }

    /// Restarts the keep-alive timer at `now`.
    pub fn update_keepalive(&mut self, now: u64)
        ensures
            *final(self) == (TcpConnection { keep_alive_time: now, ..*old(self) }),
    {
        self.keep_alive_time = now;
    }

    /// Folds a measured round-trip time into the estimate (7/8 old, 1/8
    /// new) and sets the retransmission timeout to twice the estimate.
    pub fn update_rtt(&mut self, measured_rtt: u32)
        requires
            old(self).rtt * 7 + measured_rtt <= u32::MAX,
        ensures
            *final(self) == (TcpConnection {
                rtt: ((old(self).rtt * 7 + measured_rtt) / 8) as u32,
                retransmit_timeout: (((old(self).rtt * 7 + measured_rtt) / 8) * 2) as u32,
                ..*old(self)
            }),
    {
        self.rtt = (self.rtt * 7 + measured_rtt) / 8;
        self.retransmit_timeout = self.rtt * 2;
    }

    /// Grows the congestion window for `acked_bytes` acknowledged bytes.
    pub fn update_cwnd(&mut self, acked_bytes: u32)
        requires
            cwnd_fits(*old(self), acked_bytes),
        ensures
            *final(self) == cwnd_spec(*old(self), acked_bytes),
    {
        if self.cwnd < self.ssthresh {
            self.cwnd = self.cwnd + acked_bytes;
        } else {
            self.cwnd = self.cwnd + (acked_bytes * (self.mss as u32)) / self.cwnd;
        }
    }

    /// Reacts to congestion: the threshold is halved (at least two
    /// segments) and the window drops to one segment.
    pub fn handle_congestion(&mut self)
        ensures
            *final(self) == (TcpConnection {
                ssthresh: halved_threshold(*old(self)),
                cwnd: old(self).mss as u32,
                ..*old(self)
            }),
    {
        let half = self.cwnd / 2;
        let two = 2 * (self.mss as u32);
        self.ssthresh = if half >= two {
            half
        } else {
            two
        };
        self.cwnd = self.mss as u32;
    }

    /// The key of the connection.
    pub open spec fn key(&self) -> ConnectionKey {
        (self.local_addr, self.local_port, self.remote_addr, self.remote_port)
    }
}

/// A segment from `c` carrying `flags`, with its send and receive numbers
/// and receive window.
pub open spec fn segment_from(c: TcpConnection, flags: TcpFlags) -> TcpOutgoing {
    TcpOutgoing {
        src_ip: c.local_addr,
        src_port: c.local_port,
        dst_ip: c.remote_addr,
        dst_port: c.remote_port,
        sequence: c.send_sequence,
        acknowledgment: c.recv_sequence,
        flags,
        window: c.recv_window,
    }
}

/// An ACK from `c`.
pub open spec fn ack_segment(c: TcpConnection) -> TcpOutgoing {
    segment_from(c, TcpFlags { ack: true, ..no_flags() })
}

/// A SYN-ACK from `c`.
pub open spec fn syn_ack_segment(c: TcpConnection) -> TcpOutgoing {
    segment_from(c, TcpFlags { syn: true, ack: true, ..no_flags() })
}

/// A FIN (with ACK) from `c`.
pub open spec fn fin_segment(c: TcpConnection) -> TcpOutgoing {
    segment_from(c, TcpFlags { fin: true, ack: true, ..no_flags() })
}

/// A reset with sequence number `seq`, no acknowledgment and no window.
pub open spec fn rst_segment(
    local_addr: NetworkAddress,
    local_port: u16,
    remote_addr: NetworkAddress,
    remote_port: u16,
    seq: u32,
) -> TcpOutgoing {
    TcpOutgoing {
        src_ip: local_addr,
        src_port: local_port,
        dst_ip: remote_addr,
        dst_port: remote_port,
        sequence: seq,
        acknowledgment: 0,
        flags: TcpFlags { rst: true, ..no_flags() },
        window: 0,
    }
}

/// A reset from `c`'s endpoints.
pub open spec fn rst_from(c: TcpConnection, seq: u32) -> TcpOutgoing {
    rst_segment(c.local_addr, c.local_port, c.remote_addr, c.remote_port, seq)
}

fn make_segment(c: &TcpConnection, flags: TcpFlags) -> (r: TcpOutgoing)
    ensures
        r == segment_from(*c, flags),
{
    TcpOutgoing {
        src_ip: c.local_addr,
        src_port: c.local_port,
        dst_ip: c.remote_addr,
        dst_port: c.remote_port,
        sequence: c.send_sequence,
        acknowledgment: c.recv_sequence,
        flags,
        window: c.recv_window,
    }
}

fn ack_of(c: &TcpConnection) -> (r: TcpOutgoing)
    ensures
        r == ack_segment(*c),
{
    make_segment(c, TcpFlags { ack: true, ..TcpFlags::new() })
}

fn syn_ack_of(c: &TcpConnection) -> (r: TcpOutgoing)
    ensures
        r == syn_ack_segment(*c),
{
    make_segment(c, TcpFlags { syn: true, ack: true, ..TcpFlags::new() })
}

fn fin_of(c: &TcpConnection) -> (r: TcpOutgoing)
    ensures
        r == fin_segment(*c),
{
    make_segment(c, TcpFlags { fin: true, ack: true, ..TcpFlags::new() })
}

fn rst_of(
    local_addr: NetworkAddress,
    local_port: u16,
    remote_addr: NetworkAddress,
    remote_port: u16,
    seq: u32,
) -> (r: TcpOutgoing)
    ensures
        r == rst_segment(local_addr, local_port, remote_addr, remote_port, seq),
{
    TcpOutgoing {
        src_ip: local_addr,
        src_port: local_port,
        dst_ip: remote_addr,
        dst_port: remote_port,
        sequence: seq,
        acknowledgment: 0,
        flags: TcpFlags { rst: true, ..TcpFlags::new() },
        window: 0,
    }
}

/// Whether the sequence number of `h` falls in the receive window of `c`
/// (equals the next expected number when the window is zero).
pub open spec fn seq_acceptable(c: TcpConnection, h: TcpHeader) -> bool {
    if c.recv_window == 0 {
        h.sequence_number == c.recv_sequence
    } else {
        h.sequence_number.wrapping_sub(c.recv_sequence) < c.recv_window
    }
}

/// The `Listen` state: a SYN opens (`SynReceived`, answered by a SYN-ACK),
/// a reset is ignored, anything else is answered by a reset.
pub open spec fn listen_step(c: TcpConnection, h: TcpHeader, now: u64, random: u32) -> (TcpConnection, Seq<TcpOutgoing>) {
    if h.flags.syn && !h.flags.ack {
        let c2 = TcpConnection {
            recv_sequence: h.sequence_number.wrapping_add(1),
            send_sequence: (now as u32).wrapping_add(random),
            state: TcpState::SynReceived,
            established_time: now,
            ..c
        };
        (c2, seq![syn_ack_segment(c2)])
    } else if h.flags.rst {
        (c, Seq::empty())
    } else {
        (c, seq![rst_from(c, h.sequence_number.wrapping_add(1))])
    }
}

/// The `SynSent` state: the SYN-ACK that acknowledges our SYN establishes
/// the connection (answered by an ACK), a wrong one is answered by a reset;
/// a bare SYN means a simultaneous open; a reset closes.
pub open spec fn syn_sent_step(c: TcpConnection, h: TcpHeader, now: u64) -> (TcpConnection, Seq<TcpOutgoing>) {
    if h.flags.syn && h.flags.ack {
        if h.acknowledgment_number == c.send_sequence.wrapping_add(1) {
            let c2 = TcpConnection {
                send_sequence: c.send_sequence.wrapping_add(1),
                recv_sequence: h.sequence_number.wrapping_add(1),
                state: TcpState::Established,
                established_time: now,
                ..c
            };
            (TcpConnection { syn_retries: 0, ..c2 }, seq![ack_segment(c2)])
        } else {
            (c, seq![rst_from(c, h.acknowledgment_number)])
        }
    } else if h.flags.syn && !h.flags.ack {
        let c2 = TcpConnection {
            recv_sequence: h.sequence_number.wrapping_add(1),
            state: TcpState::SynReceived,
            ..c
        };
        (c2, seq![syn_ack_segment(c2)])
    } else if h.flags.rst {
        (TcpConnection { state: TcpState::Closed, ..c }, Seq::empty())
    } else {
        (c, Seq::empty())
    }
}

/// The `SynReceived` state: the ACK of our SYN establishes the connection,
/// a wrong one is answered by a reset; a reset closes.
pub open spec fn syn_received_step(c: TcpConnection, h: TcpHeader, now: u64) -> (TcpConnection, Seq<TcpOutgoing>) {
    if h.flags.ack && !h.flags.syn {
        if h.acknowledgment_number == c.send_sequence.wrapping_add(1) {
            (
                TcpConnection {
                    send_sequence: c.send_sequence.wrapping_add(1),
                    state: TcpState::Established,
                    established_time: now,
                    ..c
                },
                Seq::empty(),
            )
        } else {
            (c, seq![rst_from(c, h.acknowledgment_number)])
        }
    } else if h.flags.rst {
        (TcpConnection { state: TcpState::Closed, ..c }, Seq::empty())
    } else {
        (c, Seq::empty())
    }
}

/// Whether `p` is in-order data for `c`.
pub open spec fn in_order(c: TcpConnection, h: TcpHeader, p: Seq<u8>) -> bool {
    p.len() > 0 && h.sequence_number == c.recv_sequence
}

/// `c` after in-order data was taken in.
pub open spec fn est_data(c: TcpConnection, h: TcpHeader, p: Seq<u8>) -> TcpConnection {
    if in_order(c, h, p) {
        reset_dup_spec(TcpConnection { recv_sequence: c.recv_sequence.wrapping_add(p.len() as u32), ..c })
    } else {
        c
    }
}

/// The ACKs sent for data: one for in-order data (after it was taken in),
/// one repeating the last for data from the future.
pub open spec fn est_data_segments(c: TcpConnection, h: TcpHeader, p: Seq<u8>) -> Seq<TcpOutgoing> {
    if in_order(c, h, p) {
        seq![ack_segment(TcpConnection { recv_sequence: c.recv_sequence.wrapping_add(p.len() as u32), ..c })]
    } else if p.len() > 0 && h.sequence_number > c.recv_sequence {
        seq![ack_segment(c)]
    } else {
        Seq::empty()
    }
}

/// Whether `h` acknowledges new data sent by `c`.
pub open spec fn ack_advances(c: TcpConnection, h: TcpHeader) -> bool {
    h.flags.ack && h.acknowledgment_number > c.send_ack && h.acknowledgment_number <= c.send_sequence
}

/// `c` after the acknowledgment of `h`: new data acknowledged grows the
/// window, a repeated acknowledgment counts as a duplicate.
pub open spec fn est_ack(c: TcpConnection, h: TcpHeader) -> TcpConnection {
    if ack_advances(c, h) {
        reset_dup_spec(
            cwnd_spec(
                TcpConnection { send_ack: h.acknowledgment_number, ..c },
                h.acknowledgment_number.wrapping_sub(c.send_ack),
            ),
        )
    } else if h.flags.ack && h.acknowledgment_number == c.send_ack {
        dup_ack_spec(c)
    } else {
        c
    }
}

/// `c` after a FIN: the peer's FIN is counted and the state is `CloseWait`.
pub open spec fn est_fin(c: TcpConnection, h: TcpHeader) -> TcpConnection {
    if h.flags.fin {
        TcpConnection { recv_sequence: c.recv_sequence.wrapping_add(1), state: TcpState::CloseWait, ..c }
    } else {
        c
    }
}

/// The `Established` state, apart from the buffers: data, acknowledgment,
/// FIN and reset in turn.
pub open spec fn established_step(c: TcpConnection, h: TcpHeader, p: Seq<u8>) -> (TcpConnection, Seq<TcpOutgoing>) {
    let c2 = est_data(c, h, p);
    let c3 = est_ack(c2, h);
    let c4 = est_fin(c3, h);
    let c5 = if h.flags.rst {
        TcpConnection { state: TcpState::Closed, ..c4 }
    } else {
        c4
    };
    (
        c5,
        est_data_segments(c, h, p) + if h.flags.fin {
            seq![ack_segment(c4)]
        } else {
            Seq::<TcpOutgoing>::empty()
        },
    )
}

/// The receive buffer after the `Established` state took in `p`.
pub open spec fn established_recv(c: TcpConnection, h: TcpHeader, p: Seq<u8>) -> Seq<u8> {
    if in_order(c, h, p) {
        c.recv_buffer@ + p
    } else {
        c.recv_buffer@
    }
}

/// The unacknowledged bytes after the `Established` state: acknowledged
/// bytes leave the front when there are that many.
pub open spec fn established_unacked(c: TcpConnection, h: TcpHeader, p: Seq<u8>) -> Seq<u8> {
    let acked = h.acknowledgment_number.wrapping_sub(c.send_ack);
    if ack_advances(c, h) && acked <= c.send_unacked@.len() {
        c.send_unacked@.subrange(acked as int, c.send_unacked@.len() as int)
    } else {
        c.send_unacked@
    }
}

/// The `Established` state can count what `h` brings without overflow.
pub open spec fn established_fits(c: TcpConnection, h: TcpHeader, p: Seq<u8>) -> bool {
    let c2 = est_data(c, h, p);
    &&& ack_advances(c2, h) ==> cwnd_fits(
        TcpConnection { send_ack: h.acknowledgment_number, ..c2 },
        h.acknowledgment_number.wrapping_sub(c2.send_ack),
    )
    &&& (h.flags.ack && !ack_advances(c2, h) && h.acknowledgment_number == c2.send_ack) ==> dup_ack_fits(c2)
}

/// The `FinWait1` state: the ACK of our FIN leads to `FinWait2`; a FIN is
/// acknowledged and leads to `TimeWait` after our FIN was acknowledged,
/// to `Closing` otherwise; a reset closes.
pub open spec fn fin_wait1_step(c: TcpConnection, h: TcpHeader) -> (TcpConnection, Seq<TcpOutgoing>) {
    let c2 = if h.flags.ack && h.acknowledgment_number == c.send_sequence.wrapping_add(1) {
        TcpConnection { send_sequence: c.send_sequence.wrapping_add(1), state: TcpState::FinWait2, ..c }
    } else {
        c
    };
    let c3 = if h.flags.fin {
        TcpConnection { recv_sequence: c2.recv_sequence.wrapping_add(1), ..c2 }
    } else {
        c2
    };
    let c4 = if h.flags.fin {
        TcpConnection {
            state: if c3.state == TcpState::FinWait2 {
                TcpState::TimeWait
            } else {
                TcpState::Closing
            },
            ..c3
        }
    } else {
        c3
    };
    let c5 = if h.flags.rst {
        TcpConnection { state: TcpState::Closed, ..c4 }
    } else {
        c4
    };
    (
        c5,
        if h.flags.fin {
            seq![ack_segment(c3)]
        } else {
            Seq::empty()
        },
    )
}

/// The `FinWait2` state: a FIN is acknowledged and leads to `TimeWait`; a
/// reset closes.
pub open spec fn fin_wait2_step(c: TcpConnection, h: TcpHeader) -> (TcpConnection, Seq<TcpOutgoing>) {
    let c2 = if h.flags.fin {
        TcpConnection { recv_sequence: c.recv_sequence.wrapping_add(1), state: TcpState::TimeWait, ..c }
    } else {
        c
    };
    let c3 = if h.flags.rst {
        TcpConnection { state: TcpState::Closed, ..c2 }
    } else {
        c2
    };
    (
        c3,
        if h.flags.fin {
            seq![ack_segment(c2)]
        } else {
            Seq::empty()
        },
    )
}

/// The `CloseWait` state: more than 30 s after the connection was
/// established it sends its FIN and goes to `LastAck`; a reset closes.
pub open spec fn close_wait_step(c: TcpConnection, h: TcpHeader, now: u64) -> (TcpConnection, Seq<TcpOutgoing>) {
    let expired = now - c.established_time > 30000;
    let c2 = if expired {
        TcpConnection { state: TcpState::LastAck, ..c }
    } else {
        c
    };
    let c3 = if h.flags.rst {
        TcpConnection { state: TcpState::Closed, ..c2 }
    } else {
        c2
    };
    (
        c3,
        if expired {
            seq![fin_segment(c2)]
        } else {
            Seq::empty()
        },
    )
}

/// The `Closing` and `LastAck` states: the ACK of our FIN leads to `next`;
/// a reset closes.
pub open spec fn await_fin_ack_step(c: TcpConnection, h: TcpHeader, next: TcpState) -> TcpConnection {
    let c2 = if h.flags.ack && h.acknowledgment_number == c.send_sequence.wrapping_add(1) {
        TcpConnection { state: next, ..c }
    } else {
        c
    };
    if h.flags.rst {
        TcpConnection { state: TcpState::Closed, ..c2 }
    } else {
        c2
    }
}

/// The `TimeWait` state: a repeated FIN is acknowledged; four minutes after
/// the last activity the connection closes.
pub open spec fn time_wait_step(c: TcpConnection, h: TcpHeader, now: u64) -> (TcpConnection, Seq<TcpOutgoing>) {
    (
        if now - c.last_ack_time > 240000 {
            TcpConnection { state: TcpState::Closed, ..c }
        } else {
            c
        },
        if h.flags.fin {
            seq![ack_segment(c)]
        } else {
            Seq::empty()
        },
    )
}

/// What the current state of `c` does with `h`, apart from the buffers.
pub open spec fn state_step(c: TcpConnection, h: TcpHeader, p: Seq<u8>, now: u64, random: u32) -> (
    TcpConnection,
    Seq<TcpOutgoing>,
) {
    match c.state {
        TcpState::Listen => listen_step(c, h, now, random),
        TcpState::SynSent => syn_sent_step(c, h, now),
        TcpState::SynReceived => syn_received_step(c, h, now),
        TcpState::Established => established_step(c, h, p),
        TcpState::FinWait1 => fin_wait1_step(c, h),
        TcpState::FinWait2 => fin_wait2_step(c, h),
        TcpState::CloseWait => close_wait_step(c, h, now),
        TcpState::Closing => (await_fin_ack_step(c, h, TcpState::TimeWait), Seq::empty()),
        TcpState::LastAck => (await_fin_ack_step(c, h, TcpState::Closed), Seq::empty()),
        TcpState::TimeWait => time_wait_step(c, h, now),
        TcpState::Closed => (c, seq![rst_from(c, (h.sequence_number + 1) as u32)]),
    }
}

/// `c` with its last activity at `now`.
pub open spec fn touched(c: TcpConnection, now: u64) -> TcpConnection {
    TcpConnection { last_ack_time: now, ..c }
}

/// What an incoming segment does to a connection, apart from its buffers,
/// and the segments it answers with: a sequence number outside the receive
/// window is answered by an ACK, anything else goes to the current state.
pub open spec fn packet_step(c: TcpConnection, h: TcpHeader, p: Seq<u8>, now: u64, random: u32) -> (
    TcpConnection,
    Seq<TcpOutgoing>,
) {
    let c1 = touched(c, now);
    if !seq_acceptable(c1, h) {
        (c1, seq![ack_segment(c1)])
    } else {
        state_step(c1, h, p, now, random)
    }
}

/// Whether the `Established` state takes the segment.
pub open spec fn reaches_established(c: TcpConnection, h: TcpHeader, now: u64) -> bool {
    seq_acceptable(touched(c, now), h) && c.state == TcpState::Established
}

/// The receive buffer after an incoming segment.
pub open spec fn packet_recv(c: TcpConnection, h: TcpHeader, p: Seq<u8>, now: u64) -> Seq<u8> {
    if reaches_established(c, h, now) {
        established_recv(touched(c, now), h, p)
    } else {
        c.recv_buffer@
    }
}

/// The unacknowledged bytes after an incoming segment.
pub open spec fn packet_unacked(c: TcpConnection, h: TcpHeader, p: Seq<u8>, now: u64) -> Seq<u8> {
    if reaches_established(c, h, now) {
        established_unacked(touched(c, now), h, p)
    } else {
        c.send_unacked@
    }
}

/// An incoming segment can be handled without overflow: the counters of the
/// `Established` state fit, the clock has not gone back before the
/// connection was established in `CloseWait`, and a reset in `Closed` can
/// count one past the sequence number.
pub open spec fn packet_fits(c: TcpConnection, h: TcpHeader, p: Seq<u8>, now: u64) -> bool {
    let c1 = touched(c, now);
    seq_acceptable(c1, h) ==> {
        &&& c.state == TcpState::Established ==> established_fits(c1, h, p)
        &&& c.state == TcpState::CloseWait ==> now >= c.established_time
        &&& c.state == TcpState::Closed ==> h.sequence_number < u32::MAX
    }
}

fn seq_ok(c: &TcpConnection, h: &TcpHeader) -> (r: bool)
    ensures
        r == seq_acceptable(*c, *h),
{
    let window = c.recv_window as u32;
    if window == 0 {
        h.sequence_number == c.recv_sequence
    } else {
        h.sequence_number.wrapping_sub(c.recv_sequence) < window
    }
}

fn handle_listen_state(conn: &mut TcpConnection, h: &TcpHeader, now: u64, random: u32) -> (r: Vec<TcpOutgoing>)
    ensures
        *final(conn) == listen_step(*old(conn), *h, now, random).0,
        r@ == listen_step(*old(conn), *h, now, random).1,
{
    let mut out: Vec<TcpOutgoing> = Vec::new();
    if h.flags.syn && !h.flags.ack {
        conn.recv_sequence = h.sequence_number.wrapping_add(1);
        conn.generate_isn(now, random);
        conn.state = TcpState::SynReceived;
        conn.established_time = now;
        out.push(syn_ack_of(conn));
    } else if h.flags.rst {
    } else {
        out.push(rst_of(conn.local_addr, conn.local_port, conn.remote_addr, conn.remote_port, h.sequence_number.wrapping_add(1)));
    }
    out
}

fn handle_syn_sent_state(conn: &mut TcpConnection, h: &TcpHeader, now: u64) -> (r: Vec<TcpOutgoing>)
    ensures
        *final(conn) == syn_sent_step(*old(conn), *h, now).0,
        r@ == syn_sent_step(*old(conn), *h, now).1,
{
    let mut out: Vec<TcpOutgoing> = Vec::new();
    if h.flags.syn && h.flags.ack {
        if h.acknowledgment_number == conn.send_sequence.wrapping_add(1) {
            conn.send_sequence = conn.send_sequence.wrapping_add(1);
            conn.recv_sequence = h.sequence_number.wrapping_add(1);
            conn.state = TcpState::Established;
            conn.established_time = now;
            out.push(ack_of(conn));
            conn.syn_retries = 0;
        } else {
            out.push(rst_of(conn.local_addr, conn.local_port, conn.remote_addr, conn.remote_port, h.acknowledgment_number));
        }
    } else if h.flags.syn && !h.flags.ack {
        conn.recv_sequence = h.sequence_number.wrapping_add(1);
        conn.state = TcpState::SynReceived;
        out.push(syn_ack_of(conn));
    } else if h.flags.rst {
        conn.state = TcpState::Closed;
    }
    out
}

fn handle_syn_received_state(conn: &mut TcpConnection, h: &TcpHeader, now: u64) -> (r: Vec<TcpOutgoing>)
    ensures
        *final(conn) == syn_received_step(*old(conn), *h, now).0,
        r@ == syn_received_step(*old(conn), *h, now).1,
{
    let mut out: Vec<TcpOutgoing> = Vec::new();
    if h.flags.ack && !h.flags.syn {
        if h.acknowledgment_number == conn.send_sequence.wrapping_add(1) {
            conn.send_sequence = conn.send_sequence.wrapping_add(1);
            conn.state = TcpState::Established;
            conn.established_time = now;
        } else {
            out.push(rst_of(conn.local_addr, conn.local_port, conn.remote_addr, conn.remote_port, h.acknowledgment_number));
        }
    } else if h.flags.rst {
        conn.state = TcpState::Closed;
    }
    out
}

fn established_data(conn: &mut TcpConnection, h: &TcpHeader, payload: &[u8]) -> (r: Vec<TcpOutgoing>)
    ensures
        *final(conn) == (TcpConnection { recv_buffer: final(conn).recv_buffer, ..est_data(*old(conn), *h, payload@) }),
        final(conn).recv_buffer@ == established_recv(*old(conn), *h, payload@),
        r@ == est_data_segments(*old(conn), *h, payload@),
{
    let mut out: Vec<TcpOutgoing> = Vec::new();
    if payload.len() > 0 {
        if h.sequence_number == conn.recv_sequence {
            push_all(&mut conn.recv_buffer, payload);
            conn.recv_sequence = conn.recv_sequence.wrapping_add(payload.len() as u32);
            out.push(ack_of(conn));
            conn.reset_duplicate_acks();
        } else if h.sequence_number > conn.recv_sequence {
            out.push(ack_of(conn));
        }
    }
    out
}

fn established_ack(conn: &mut TcpConnection, h: &TcpHeader)
    requires
        ack_advances(*old(conn), *h) ==> cwnd_fits(
            TcpConnection { send_ack: h.acknowledgment_number, ..*old(conn) },
            h.acknowledgment_number.wrapping_sub(old(conn).send_ack),
        ),
        (h.flags.ack && !ack_advances(*old(conn), *h) && h.acknowledgment_number == old(conn).send_ack)
            ==> dup_ack_fits(*old(conn)),
    ensures
        *final(conn) == (TcpConnection { send_unacked: final(conn).send_unacked, ..est_ack(*old(conn), *h) }),
        final(conn).send_unacked@ == ({
            let acked = h.acknowledgment_number.wrapping_sub(old(conn).send_ack);
            if ack_advances(*old(conn), *h) && acked <= old(conn).send_unacked@.len() {
                old(conn).send_unacked@.subrange(acked as int, old(conn).send_unacked@.len() as int)
            } else {
                old(conn).send_unacked@
            }
        }),
{
    if h.flags.ack {
        let ack_num = h.acknowledgment_number;
        if ack_num > conn.send_ack && ack_num <= conn.send_sequence {
            let acked = ack_num.wrapping_sub(conn.send_ack);
            conn.send_ack = ack_num;
            conn.update_cwnd(acked);
            if (acked as usize) <= conn.send_unacked.len() {
                let rest = copy_range(conn.send_unacked.as_slice(), acked as usize, conn.send_unacked.len());
                conn.send_unacked = rest;
            }
            conn.reset_duplicate_acks();
        } else if ack_num == conn.send_ack {
            conn.handle_duplicate_ack();
        }
    }
}

fn handle_established_state(conn: &mut TcpConnection, h: &TcpHeader, payload: &[u8]) -> (r: Vec<TcpOutgoing>)
    requires
        established_fits(*old(conn), *h, payload@),
    ensures
        *final(conn) == (TcpConnection {
            recv_buffer: final(conn).recv_buffer,
            send_unacked: final(conn).send_unacked,
            ..established_step(*old(conn), *h, payload@).0
        }),
        final(conn).recv_buffer@ == established_recv(*old(conn), *h, payload@),
        final(conn).send_unacked@ == established_unacked(*old(conn), *h, payload@),
        r@ == established_step(*old(conn), *h, payload@).1,
{
    let ghost c0 = *conn;
    let mut out = established_data(conn, h, payload);
    let ghost c2 = *conn;
    assert(c2.send_ack == c0.send_ack && c2.send_unacked == c0.send_unacked);
    established_ack(conn, h);
    let ghost c3 = *conn;
    assert(c3 == (TcpConnection {
        recv_buffer: c3.recv_buffer,
        send_unacked: c3.send_unacked,
        ..est_ack(est_data(c0, *h, payload@), *h)
    }));
    if h.flags.fin {
        conn.recv_sequence = conn.recv_sequence.wrapping_add(1);
        conn.state = TcpState::CloseWait;
        out.push(ack_of(conn));
    }
    if h.flags.rst {
        conn.state = TcpState::Closed;
    }
    out
}

fn handle_fin_wait1_state(conn: &mut TcpConnection, h: &TcpHeader) -> (r: Vec<TcpOutgoing>)
    ensures
        *final(conn) == fin_wait1_step(*old(conn), *h).0,
        r@ == fin_wait1_step(*old(conn), *h).1,
{
    let mut out: Vec<TcpOutgoing> = Vec::new();
    if h.flags.ack {
        if h.acknowledgment_number == conn.send_sequence.wrapping_add(1) {
            conn.send_sequence = conn.send_sequence.wrapping_add(1);
            conn.state = TcpState::FinWait2;
        }
    }
    if h.flags.fin {
        conn.recv_sequence = conn.recv_sequence.wrapping_add(1);
        out.push(ack_of(conn));
        if conn.state == TcpState::FinWait2 {
            conn.state = TcpState::TimeWait;
        } else {
            conn.state = TcpState::Closing;
        }
    }
    if h.flags.rst {
        conn.state = TcpState::Closed;
    }
    out
}

fn handle_fin_wait2_state(conn: &mut TcpConnection, h: &TcpHeader) -> (r: Vec<TcpOutgoing>)
    ensures
        *final(conn) == fin_wait2_step(*old(conn), *h).0,
        r@ == fin_wait2_step(*old(conn), *h).1,
{
    let mut out: Vec<TcpOutgoing> = Vec::new();
    if h.flags.fin {
        conn.recv_sequence = conn.recv_sequence.wrapping_add(1);
        conn.state = TcpState::TimeWait;
        out.push(ack_of(conn));
    }
    if h.flags.rst {
        conn.state = TcpState::Closed;
    }
    out
}

fn handle_close_wait_state(conn: &mut TcpConnection, h: &TcpHeader, now: u64) -> (r: Vec<TcpOutgoing>)
    requires
        now >= old(conn).established_time,
    ensures
        *final(conn) == close_wait_step(*old(conn), *h, now).0,
        r@ == close_wait_step(*old(conn), *h, now).1,
{
    let mut out: Vec<TcpOutgoing> = Vec::new();
    if now - conn.established_time > 30000 {
        conn.state = TcpState::LastAck;
        out.push(fin_of(conn));
    }
    if h.flags.rst {
        conn.state = TcpState::Closed;
    }
    out
}

fn handle_await_fin_ack(conn: &mut TcpConnection, h: &TcpHeader, next: TcpState)
    ensures
        *final(conn) == await_fin_ack_step(*old(conn), *h, next),
{
    if h.flags.ack {
        if h.acknowledgment_number == conn.send_sequence.wrapping_add(1) {
            conn.state = next;
        }
    }
    if h.flags.rst {
        conn.state = TcpState::Closed;
    }
}

fn handle_time_wait_state(conn: &mut TcpConnection, h: &TcpHeader, now: u64) -> (r: Vec<TcpOutgoing>)
    requires
        now >= old(conn).last_ack_time,
    ensures
        *final(conn) == time_wait_step(*old(conn), *h, now).0,
        r@ == time_wait_step(*old(conn), *h, now).1,
{
    let mut out: Vec<TcpOutgoing> = Vec::new();
    if h.flags.fin {
        out.push(ack_of(conn));
    }
    if now - conn.last_ack_time > 240000 {
        conn.state = TcpState::Closed;
    }
    out
}

/// Handles an incoming segment for an existing connection at `now`: marks
/// the activity, checks the sequence number against the receive window and
/// runs the state machine. Returns the segments to send, in order; `random`
/// is the random part of an initial sequence number, if one is chosen.
#[verifier::rlimit(50)]
pub fn process_connection_packet(
    conn: &mut TcpConnection,
    header: &TcpHeader,
    payload: &[u8],
    now: u64,
    random: u32,
) -> (r: Vec<TcpOutgoing>)
    requires
        packet_fits(*old(conn), *header, payload@, now),
    ensures
        *final(conn) == (TcpConnection {
            recv_buffer: final(conn).recv_buffer,
            send_unacked: final(conn).send_unacked,
            ..packet_step(*old(conn), *header, payload@, now, random).0
        }),
        final(conn).recv_buffer@ == packet_recv(*old(conn), *header, payload@, now),
        final(conn).send_unacked@ == packet_unacked(*old(conn), *header, payload@, now),
        r@ == packet_step(*old(conn), *header, payload@, now, random).1,
{
    conn.last_ack_time = now;
    if !seq_ok(conn, header) {
        let mut out: Vec<TcpOutgoing> = Vec::new();
        out.push(ack_of(conn));
        return out;
    }
    match conn.state {
        TcpState::Listen => handle_listen_state(conn, header, now, random),
        TcpState::SynSent => handle_syn_sent_state(conn, header, now),
        TcpState::SynReceived => handle_syn_received_state(conn, header, now),
        TcpState::Established => handle_established_state(conn, header, payload),
        TcpState::FinWait1 => handle_fin_wait1_state(conn, header),
        TcpState::FinWait2 => handle_fin_wait2_state(conn, header),
        TcpState::CloseWait => handle_close_wait_state(conn, header, now),
        TcpState::Closing => {
            handle_await_fin_ack(conn, header, TcpState::TimeWait);
            Vec::new()
        },
        TcpState::LastAck => {
            handle_await_fin_ack(conn, header, TcpState::Closed);
            Vec::new()
        },
        TcpState::TimeWait => handle_time_wait_state(conn, header, now),
        TcpState::Closed => {
            let mut out: Vec<TcpOutgoing> = Vec::new();
            out.push(rst_of(conn.local_addr, conn.local_port, conn.remote_addr, conn.remote_port, header.sequence_number + 1));
            out
        },
    }
}

fn key_eq(a: &ConnectionKey, b: &ConnectionKey) -> (r: bool)
    ensures
        r == (*a == *b),
{
    a.0.same(&b.0) && a.1 == b.1 && a.2.same(&b.2) && a.3 == b.3
}

/// The entries agree with the table, and keys are unique.
spec fn table_wf(entries: Seq<(ConnectionKey, TcpConnection)>, table: Map<ConnectionKey, TcpConnection>) -> bool {
    &&& forall|i: int, j: int| 0 <= i < j < entries.len() ==> (#[trigger] entries[i]).0 != (#[trigger] entries[j]).0
    &&& forall|i: int|
        0 <= i < entries.len() ==> table.contains_key((#[trigger] entries[i]).0) && table[entries[i].0]
            == entries[i].1
    &&& forall|k: ConnectionKey| table.contains_key(k) ==> exists|i: int| 0 <= i < entries.len() && (#[trigger] entries[i]).0 == k
}

/// The table of TCP connections, by key, and the next local port to hand
/// out.
pub struct TcpManager {
    connections: Vec<(ConnectionKey, TcpConnection)>,
    table: Ghost<Map<ConnectionKey, TcpConnection>>,
    next_port: u16,
}

impl TcpManager {
    /// The connections by key.
    pub closed spec fn table_spec(&self) -> Map<ConnectionKey, TcpConnection> {
        self.table@
    }

    /// The next port `allocate_port` hands out.
    pub closed spec fn next_port_spec(&self) -> u16 {
        self.next_port
    }

    /// The entries agree with the table.
    pub closed spec fn wf(&self) -> bool {
        table_wf(self.connections@, self.table@)
    }

    /// An empty table; ports are handed out from 32768.
    pub fn new() -> (r: Self)
        ensures
            r.wf(),
            r.table_spec() == Map::<ConnectionKey, TcpConnection>::empty(),
            r.next_port_spec() == 32768,
    {
        TcpManager { connections: Vec::new(), table: Ghost(Map::empty()), next_port: 32768 }
    }

    /// Hands out the next local port; after 65535 it starts again at 32768.
    pub fn allocate_port(&mut self) -> (r: u16)
        requires
            old(self).wf(),
        ensures
            final(self).wf(),
            r == old(self).next_port_spec(),
            final(self).next_port_spec() == if r >= 65535 {
                32768
            } else {
                (r + 1) as u16
            },
            final(self).table_spec() == old(self).table_spec(),
    {
        let port = self.next_port;
        self.next_port = if port >= 65535 {
            32768
        } else {
            port + 1
        };
        port
    }

    fn find(&self, key: &ConnectionKey) -> (r: Option<usize>)
        requires
            self.wf(),
        ensures
            r is None <==> !self.table@.contains_key(*key),
            r matches Some(i) ==> i < self.connections@.len() && self.connections@[i as int].0 == *key,
    {
        let mut i: usize = 0;
        while i < self.connections.len()
            invariant
                self.wf(),
                i <= self.connections@.len(),
                forall|j: int| 0 <= j < i ==> (#[trigger] self.connections@[j]).0 != *key,
            decreases self.connections@.len() - i,
        {
            if key_eq(&self.connections[i].0, key) {
                return Some(i);
            }
            i = i + 1;
        }
        proof {
            if self.table@.contains_key(*key) {
                let j = choose|j: int| 0 <= j < self.connections@.len() && (#[trigger] self.connections@[j]).0 == *key;
                assert(self.connections@[j].0 != *key);
            }
        }
        None
    }

    fn put(&mut self, key: ConnectionKey, connection: TcpConnection)
        requires
            old(self).wf(),
        ensures
            final(self).wf(),
            final(self).table@ == old(self).table@.insert(key, connection),
            final(self).next_port == old(self).next_port,
    {
        let ghost old_entries = self.connections@;
        let ghost c = connection;
        match self.find(&key) {
            Some(i) => {
                self.connections.set(i, (key, connection));
                self.table = Ghost(self.table@.insert(key, c));
                assert forall|a: int, b: int| 0 <= a < b < self.connections@.len() implies (#[trigger] self.connections@[a]).0
                    != (#[trigger] self.connections@[b]).0 by {
                    assert(old_entries[a].0 != old_entries[b].0);
                }
                assert forall|k: ConnectionKey| self.table@.contains_key(k) implies exists|j: int|
                    0 <= j < self.connections@.len() && (#[trigger] self.connections@[j]).0 == k by {
                    if k == key {
                        assert(self.connections@[i as int].0 == k);
                    } else {
                        let j = choose|j: int| 0 <= j < old_entries.len() && (#[trigger] old_entries[j]).0 == k;
                        assert(self.connections@[j].0 == k);
                    }
                }
            },
            None => {
                self.connections.push((key, connection));
                self.table = Ghost(self.table@.insert(key, c));
                assert forall|a: int, b: int| 0 <= a < b < self.connections@.len() implies (#[trigger] self.connections@[a]).0
                    != (#[trigger] self.connections@[b]).0 by {
                    if b < old_entries.len() {
                        assert(old_entries[a].0 != old_entries[b].0);
                    } else {
                        assert(old_entries[a].0 != key);
                    }
                }
                assert forall|k: ConnectionKey| self.table@.contains_key(k) implies exists|j: int|
                    0 <= j < self.connections@.len() && (#[trigger] self.connections@[j]).0 == k by {
                    if k == key {
                        assert(self.connections@[old_entries.len() as int].0 == k);
                    } else {
                        let j = choose|j: int| 0 <= j < old_entries.len() && (#[trigger] old_entries[j]).0 == k;
                        assert(self.connections@[j].0 == k);
                    }
                }
                assert forall|j: int| 0 <= j < self.connections@.len() implies self.table@.contains_key(
                    (#[trigger] self.connections@[j]).0,
                ) && self.table@[self.connections@[j].0] == self.connections@[j].1 by {
                    if j < old_entries.len() {
                        assert(old_entries[j].0 != key);
                    }
                }
            },
        }
    }

    /// Adds a closed connection for the given endpoints, made at `now`;
    /// `AddressInUse` when the key is taken.
    pub fn create_connection(
        &mut self,
        local_addr: NetworkAddress,
        local_port: u16,
        remote_addr: NetworkAddress,
        remote_port: u16,
        now: u64,
    ) -> (r: NetworkResult<()>)
        requires
            old(self).wf(),
        ensures
            final(self).wf(),
            final(self).next_port_spec() == old(self).next_port_spec(),
            ({
                let key = (local_addr, local_port, remote_addr, remote_port);
                &&& old(self).table_spec().contains_key(key) ==> r == Err::<(), NetworkError>(
                    NetworkError::AddressInUse,
                ) && final(self).table_spec() == old(self).table_spec()
                &&& !old(self).table_spec().contains_key(key) ==> r is Ok && final(self).table_spec()
                    == old(self).table_spec().insert(key, final(self).table_spec()[key]) && is_new_connection(
                    final(self).table_spec()[key],
                    local_addr,
                    local_port,
                    remote_addr,
                    remote_port,
                    now,
                )
            }),
    {
        let key = (local_addr, local_port, remote_addr, remote_port);
        if self.find(&key).is_some() {
            return Err(NetworkError::AddressInUse);
        }
        let connection = TcpConnection::new(local_addr, local_port, remote_addr, remote_port, now);
        self.put(key, connection);
        Ok(())
    }

    /// A copy of the connection with the given key.
    pub fn get_connection(
        &self,
        local_addr: &NetworkAddress,
        local_port: u16,
        remote_addr: &NetworkAddress,
        remote_port: u16,
    ) -> (r: Option<TcpConnection>)
        requires
            self.wf(),
        ensures
            ({
                let key = (*local_addr, local_port, *remote_addr, remote_port);
                &&& r is Some <==> self.table_spec().contains_key(key)
                &&& r matches Some(c) ==> same_connection(c, self.table_spec()[key])
            }),
    {
        let key = (*local_addr, local_port, *remote_addr, remote_port);
        match self.find(&key) {
            Some(i) => Some(self.connections[i].1.duplicate()),
            None => None,
        }
    }

    /// Replaces the connection with the given key; `InvalidAddress` when
    /// there is none.
    pub fn update_connection(&mut self, key: ConnectionKey, connection: TcpConnection) -> (r: NetworkResult<()>)
        requires
            old(self).wf(),
        ensures
            final(self).wf(),
            final(self).next_port_spec() == old(self).next_port_spec(),
            old(self).table_spec().contains_key(key) ==> r is Ok && final(self).table_spec()
                == old(self).table_spec().insert(key, connection),
            !old(self).table_spec().contains_key(key) ==> r == Err::<(), NetworkError>(NetworkError::InvalidAddress)
                && final(self).table_spec() == old(self).table_spec(),
    {
        if self.find(&key).is_none() {
            return Err(NetworkError::InvalidAddress);
        }
        self.put(key, connection);
        Ok(())
    }

    /// Removes the connection with the given key; `InvalidAddress` when
    /// there is none.
    pub fn remove_connection(
        &mut self,
        local_addr: &NetworkAddress,
        local_port: u16,
        remote_addr: &NetworkAddress,
        remote_port: u16,
    ) -> (r: NetworkResult<()>)
        requires
            old(self).wf(),
        ensures
            final(self).wf(),
            final(self).next_port_spec() == old(self).next_port_spec(),
            ({
                let key = (*local_addr, local_port, *remote_addr, remote_port);
                &&& old(self).table_spec().contains_key(key) ==> r is Ok && final(self).table_spec()
                    == old(self).table_spec().remove(key)
                &&& !old(self).table_spec().contains_key(key) ==> r == Err::<(), NetworkError>(
                    NetworkError::InvalidAddress,
                ) && final(self).table_spec() == old(self).table_spec()
            }),
    {
        let key = (*local_addr, local_port, *remote_addr, remote_port);
        match self.find(&key) {
            Some(i) => {
                let ghost old_entries = self.connections@;
                self.connections.remove(i);
                self.table = Ghost(self.table@.remove(key));
                assert forall|a: int, b: int| 0 <= a < b < self.connections@.len() implies (#[trigger] self.connections@[a]).0
                    != (#[trigger] self.connections@[b]).0 by {
                    let a0 = if a < i { a } else { a + 1 };
                    let b0 = if b < i { b } else { b + 1 };
                    assert(old_entries[a0].0 != old_entries[b0].0);
                }
                assert forall|j: int| 0 <= j < self.connections@.len() implies self.table@.contains_key(
                    (#[trigger] self.connections@[j]).0,
                ) && self.table@[self.connections@[j].0] == self.connections@[j].1 by {
                    let j0 = if j < i { j } else { j + 1 };
                    assert(old_entries[j0].0 != old_entries[i as int].0);
                }
                assert forall|k: ConnectionKey| self.table@.contains_key(k) implies exists|j: int|
                    0 <= j < self.connections@.len() && (#[trigger] self.connections@[j]).0 == k by {
                    let j0 = choose|j: int| 0 <= j < old_entries.len() && (#[trigger] old_entries[j]).0 == k;
                    assert(j0 != i);
                    let j = if j0 < i { j0 } else { j0 - 1 };
                    assert(self.connections@[j].0 == k);
                }
                Ok(())
            },
            None => Err(NetworkError::InvalidAddress),
        }
    }
}

/// A connection opened by a SYN at `now`: a new connection for the
/// endpoints, in `SynReceived`, expecting one past the SYN's sequence
/// number, with an initial sequence number from the clock and `random`.
pub open spec fn is_opened_connection(
    c: TcpConnection,
    local_addr: NetworkAddress,
    local_port: u16,
    remote_addr: NetworkAddress,
    remote_port: u16,
    h: TcpHeader,
    now: u64,
    random: u32,
) -> bool {
    is_new_connection(
        TcpConnection {
            state: TcpState::Closed,
            recv_sequence: 0,
            send_sequence: 0,
            ..c
        },
        local_addr,
        local_port,
        remote_addr,
        remote_port,
        now,
    ) && c.state == TcpState::SynReceived && c.recv_sequence == h.sequence_number + 1 && c.send_sequence == (
    now as u32).wrapping_add(random)
}

/// Opens a connection for a SYN: stores it (replacing any under the same
/// key) and returns the SYN-ACK to send.
pub fn handle_new_connection(
    manager: &mut TcpManager,
    local_addr: NetworkAddress,
    local_port: u16,
    remote_addr: NetworkAddress,
    remote_port: u16,
    header: &TcpHeader,
    now: u64,
    random: u32,
) -> (r: TcpOutgoing)
    requires
        old(manager).wf(),
        header.sequence_number < u32::MAX,
    ensures
        final(manager).wf(),
        final(manager).next_port_spec() == old(manager).next_port_spec(),
        ({
            let key = (local_addr, local_port, remote_addr, remote_port);
            let c = final(manager).table_spec()[key];
            &&& final(manager).table_spec() == old(manager).table_spec().insert(key, c)
            &&& is_opened_connection(c, local_addr, local_port, remote_addr, remote_port, *header, now, random)
            &&& r == syn_ack_segment(c)
        }),
{
    let mut connection = TcpConnection::new(local_addr, local_port, remote_addr, remote_port, now);
    connection.state = TcpState::Listen;
    connection.recv_sequence = header.sequence_number + 1;
    connection.generate_isn(now, random);
    connection.state = TcpState::SynReceived;
    let segment = syn_ack_of(&connection);
    let key = (local_addr, local_port, remote_addr, remote_port);
    manager.put(key, connection);
    segment
}

/// What to do with an incoming segment.
#[derive(Debug)]
pub enum TcpPacketAction {
    /// Send the segments in order; once all were sent, store the connection
    /// under the key.
    Update { key: ConnectionKey, connection: TcpConnection, segments: Vec<TcpOutgoing> },
    /// Send one segment.
    Reply(TcpOutgoing),
}

/// The state machine reads a connection's fields and the contents of its
/// buffers only.
#[verifier::rlimit(60)]
#[verifier::spinoff_prover]
proof fn lemma_packet_step_same(a: TcpConnection, b: TcpConnection, h: TcpHeader, p: Seq<u8>, now: u64, random: u32)
    requires
        same_connection(a, b),
    ensures
        same_connection(packet_step(a, h, p, now, random).0, packet_step(b, h, p, now, random).0),
        packet_step(a, h, p, now, random).1 == packet_step(b, h, p, now, random).1,
        packet_recv(a, h, p, now) == packet_recv(b, h, p, now),
        packet_unacked(a, h, p, now) == packet_unacked(b, h, p, now),
{
    let a1 = touched(a, now);
    let b1 = touched(b, now);
    assert(same_connection(a1, b1));
    if seq_acceptable(a1, h) {
        match a.state {
            TcpState::Established => {
                let a2 = est_data(a1, h, p);
                let b2 = est_data(b1, h, p);
                assert(same_connection(a2, b2));
                let a3 = est_ack(a2, h);
                let b3 = est_ack(b2, h);
                assert(same_connection(a3, b3));
                assert(same_connection(est_fin(a3, h), est_fin(b3, h)));
            },
            TcpState::FinWait1 => {
                assert(same_connection(fin_wait1_step(a1, h).0, fin_wait1_step(b1, h).0));
            },
            _ => {},
        }
    }
}

/// The key under which a segment from `src_ip` to `dst_ip` with header `h`
/// is found: local is the destination, remote the source.
pub open spec fn incoming_key(src_ip: NetworkAddress, dst_ip: NetworkAddress, h: TcpHeader) -> ConnectionKey {
    (dst_ip, h.dest_port, src_ip, h.source_port)
}

/// A segment with header `h` can be handled without overflow.
pub open spec fn incoming_fits(
    table: Map<ConnectionKey, TcpConnection>,
    src_ip: NetworkAddress,
    dst_ip: NetworkAddress,
    h: TcpHeader,
    p: Seq<u8>,
    now: u64,
) -> bool {
    let key = incoming_key(src_ip, dst_ip, h);
    if table.contains_key(key) {
        packet_fits(table[key], h, p, now)
    } else {
        h.sequence_number < u32::MAX
    }
}

/// Handles an incoming TCP segment from `src_ip` to `dst_ip` at `now`.
/// For a known connection the state machine runs on a copy, returned with
/// the segments to send; a SYN for an unknown key opens a connection at
/// once and is answered by a SYN-ACK; anything else is answered by a reset.
pub fn process_packet(
    manager: &mut TcpManager,
    src_ip: NetworkAddress,
    dst_ip: NetworkAddress,
    packet: &mut PacketBuffer,
    now: u64,
    random: u32,
) -> (r: NetworkResult<TcpPacketAction>)
    requires
        old(manager).wf(),
        old(packet).wf(),
        forall|h: TcpHeader|
            #![trigger header_read(old(packet).readable_spec(), h)]
            header_read(old(packet).readable_spec(), h) ==> incoming_fits(
                old(manager).table_spec(),
                src_ip,
                dst_ip,
                h,
                old(packet).readable_spec().subrange(
                    20 + options_len_of(old(packet).readable_spec()),
                    old(packet).readable_spec().len() as int,
                ),
                now,
            ),
    ensures
        final(manager).wf(),
        final(manager).next_port_spec() == old(manager).next_port_spec(),
        final(packet).wf(),
        final(packet).storage() == old(packet).storage(),
        ({
            let d = old(packet).readable_spec();
            let complete = d.len() >= TCP_HEADER_MIN_SIZE && d.len() >= 20 + options_len_of(d);
            &&& !complete ==> r == Err::<TcpPacketAction, NetworkError>(NetworkError::InvalidPacket)
                && final(manager).table_spec() == old(manager).table_spec()
            &&& complete ==> exists|h: TcpHeader| #[trigger]
                header_read(d, h) && {
                    let p = d.subrange(20 + options_len_of(d), d.len() as int);
                    let key = incoming_key(src_ip, dst_ip, h);
                    let table = old(manager).table_spec();
                    &&& final(packet).read_pos_spec() == old(packet).read_pos_spec() + 20 + options_len_of(d)
                    &&& table.contains_key(key) ==> final(manager).table_spec() == table && (r matches Ok(
                        TcpPacketAction::Update { key: k, connection: c, segments: s },
                    ) && k == key && same_connection(c, TcpConnection {
                        recv_buffer: c.recv_buffer,
                        send_unacked: c.send_unacked,
                        ..packet_step(table[key], h, p, now, random).0
                    }) && c.recv_buffer@ == packet_recv(table[key], h, p, now) && c.send_unacked@
                        == packet_unacked(table[key], h, p, now) && s@ == packet_step(
                        table[key],
                        h,
                        p,
                        now,
                        random,
                    ).1)
                    &&& !table.contains_key(key) && h.flags.syn && !h.flags.ack ==> ({
                        let c = final(manager).table_spec()[key];
                        &&& final(manager).table_spec() == table.insert(key, c)
                        &&& is_opened_connection(c, dst_ip, h.dest_port, src_ip, h.source_port, h, now, random)
                        &&& r == Ok::<TcpPacketAction, NetworkError>(TcpPacketAction::Reply(syn_ack_segment(c)))
                    })
                    &&& !table.contains_key(key) && !(h.flags.syn && !h.flags.ack) ==> final(manager).table_spec()
                        == table && r == Ok::<TcpPacketAction, NetworkError>(
                        TcpPacketAction::Reply(
                            rst_segment(dst_ip, h.dest_port, src_ip, h.source_port, (h.sequence_number + 1) as u32),
                        ),
                    )
                }
        }),
{
    let ghost d = packet.readable_spec();
    proof {
        packet.lemma_wf();
    }
    let header = match TcpHeader::parse(packet) {
        Ok(h) => h,
        Err(e) => {
            return Err(e);
        },
    };
    assert(header_read(d, header));
    proof {
        packet.lemma_wf();
    }
    let payload = packet.readable_data();
    assert(payload@ =~= d.subrange(20 + options_len_of(d), d.len() as int));
    let key = (dst_ip, header.dest_port, src_ip, header.source_port);
    match manager.find(&key) {
        Some(i) => {
            let mut connection = manager.connections[i].1.duplicate();
            let ghost c0 = connection;
            let segments = process_connection_packet(&mut connection, &header, payload, now, random);
            proof {
                lemma_packet_step_same(c0, manager.table@[key], header, payload@, now, random);
            }
            Ok(TcpPacketAction::Update { key, connection, segments })
        },
        None => {
            if header.flags.syn && !header.flags.ack {
                let segment = handle_new_connection(
                    manager,
                    dst_ip,
                    header.dest_port,
                    src_ip,
                    header.source_port,
                    &header,
                    now,
                    random,
                );
                Ok(TcpPacketAction::Reply(segment))
            } else {
                Ok(
                    TcpPacketAction::Reply(
                        rst_of(dst_ip, header.dest_port, src_ip, header.source_port, header.sequence_number + 1),
                    ),
                )
            }
        },
    }
}

/// Opens a connection to `remote_addr:remote_port` from a newly allocated
/// local port at `now`: the connection goes to `SynSent` with an initial
/// sequence number from the clock and `random`. Returns the port and the SYN
/// to send (sequence number 0, window 65535); `AddressInUse` when the key is
/// taken, after the port was allocated.
pub fn tcp_connect(
    manager: &mut TcpManager,
    local_addr: NetworkAddress,
    remote_addr: NetworkAddress,
    remote_port: u16,
    now: u64,
    random: u32,
) -> (r: NetworkResult<(u16, TcpOutgoing)>)
    requires
        old(manager).wf(),
    ensures
        final(manager).wf(),
        ({
            let port = old(manager).next_port_spec();
            let key = (local_addr, port, remote_addr, remote_port);
            let table = old(manager).table_spec();
            &&& final(manager).next_port_spec() == if port >= 65535 {
                32768
            } else {
                (port + 1) as u16
            }
            &&& table.contains_key(key) ==> r == Err::<(u16, TcpOutgoing), NetworkError>(NetworkError::AddressInUse)
                && final(manager).table_spec() == table
            &&& !table.contains_key(key) ==> ({
                let c = final(manager).table_spec()[key];
                &&& final(manager).table_spec() == table.insert(key, c)
                &&& is_new_connection(
                    TcpConnection { state: TcpState::Closed, send_sequence: 0, ..c },
                    local_addr,
                    port,
                    remote_addr,
                    remote_port,
                    now,
                )
                &&& c.state == TcpState::SynSent
                &&& c.send_sequence == (now as u32).wrapping_add(random)
                &&& r == Ok::<(u16, TcpOutgoing), NetworkError>(
                    (
                        port,
                        TcpOutgoing {
                            src_ip: local_addr,
                            src_port: port,
                            dst_ip: remote_addr,
                            dst_port: remote_port,
                            sequence: 0,
                            acknowledgment: 0,
                            flags: TcpFlags { syn: true, ..no_flags() },
                            window: 65535,
                        },
                    ),
                )
            })
        }),
{
    let local_port = manager.allocate_port();
    let key = (local_addr, local_port, remote_addr, remote_port);
    if manager.find(&key).is_some() {
        return Err(NetworkError::AddressInUse);
    }
    let mut connection = TcpConnection::new(local_addr, local_port, remote_addr, remote_port, now);
    connection.generate_isn(now, random);
    connection.state = TcpState::SynSent;
    manager.put(key, connection);
    let segment = TcpOutgoing {
        src_ip: local_addr,
        src_port: local_port,
        dst_ip: remote_addr,
        dst_port: remote_port,
        sequence: 0,
        acknowledgment: 0,
        flags: TcpFlags { syn: true, ..TcpFlags::new() },
        window: 65535,
    };
    Ok((local_port, segment))
}

/// The placeholder remote end of a listening connection.
pub open spec fn listen_remote() -> NetworkAddress {
    NetworkAddress::IPv4([0u8, 0u8, 0u8, 0u8])
}

/// Adds a listening connection on `local_addr:local_port` (remote end
/// 0.0.0.0:0) made at `now`; `AddressInUse` when that key is taken.
pub fn tcp_listen(manager: &mut TcpManager, local_addr: NetworkAddress, local_port: u16, now: u64) -> (r: NetworkResult<()>)
    requires
        old(manager).wf(),
    ensures
        final(manager).wf(),
        final(manager).next_port_spec() == old(manager).next_port_spec(),
        ({
            let key = (local_addr, local_port, listen_remote(), 0u16);
            let table = old(manager).table_spec();
            &&& table.contains_key(key) ==> r == Err::<(), NetworkError>(NetworkError::AddressInUse)
                && final(manager).table_spec() == table
            &&& !table.contains_key(key) ==> r is Ok && ({
                let c = final(manager).table_spec()[key];
                &&& final(manager).table_spec() == table.insert(key, c)
                &&& is_new_connection(
                    TcpConnection { state: TcpState::Closed, ..c },
                    local_addr,
                    local_port,
                    listen_remote(),
                    0,
                    now,
                )
                &&& c.state == TcpState::Listen
            })
        }),
{
    let remote = NetworkAddress::IPv4([0, 0, 0, 0]);
    let key = (local_addr, local_port, remote, 0u16);
    if manager.find(&key).is_some() {
        return Err(NetworkError::AddressInUse);
    }
    let mut connection = TcpConnection::new(local_addr, local_port, remote, 0, now);
    connection.state = TcpState::Listen;
    manager.put(key, connection);
    Ok(())
}

/// Starts closing a connection: `Established` goes to `FinWait1` and
/// `CloseWait` to `LastAck`, each sending a FIN; `Listen` and `SynSent` are
/// removed; other states are left as they are. `InvalidAddress` when there
/// is no such connection.
pub fn tcp_close(
    manager: &mut TcpManager,
    local_addr: NetworkAddress,
    local_port: u16,
    remote_addr: NetworkAddress,
    remote_port: u16,
) -> (r: NetworkResult<Option<TcpOutgoing>>)
    requires
        old(manager).wf(),
    ensures
        final(manager).wf(),
        final(manager).next_port_spec() == old(manager).next_port_spec(),
        ({
            let key = (local_addr, local_port, remote_addr, remote_port);
            let table = old(manager).table_spec();
            let c = table[key];
            &&& !table.contains_key(key) ==> r == Err::<Option<TcpOutgoing>, NetworkError>(NetworkError::InvalidAddress)
                && final(manager).table_spec() == table
            &&& table.contains_key(key) && (c.state == TcpState::Established || c.state == TcpState::CloseWait) ==> ({
                let c2 = final(manager).table_spec()[key];
                &&& final(manager).table_spec() == table.insert(key, c2)
                &&& same_connection(c2, TcpConnection { state: c.state.on_close_spec(), ..c })
                &&& r == Ok::<Option<TcpOutgoing>, NetworkError>(Some(fin_segment(c)))
            })
            &&& table.contains_key(key) && (c.state == TcpState::Listen || c.state == TcpState::SynSent) ==> r
                == Ok::<Option<TcpOutgoing>, NetworkError>(None) && final(manager).table_spec() == table.remove(key)
            &&& table.contains_key(key) && !(c.state == TcpState::Established || c.state == TcpState::CloseWait
                || c.state == TcpState::Listen || c.state == TcpState::SynSent) ==> r == Ok::<
                Option<TcpOutgoing>,
                NetworkError,
            >(None) && final(manager).table_spec() == table
        }),
{
    let key = (local_addr, local_port, remote_addr, remote_port);
    let i = match manager.find(&key) {
        Some(i) => i,
        None => {
            return Err(NetworkError::InvalidAddress);
        },
    };
    let state = manager.connections[i].1.state;
    match state {
        TcpState::Established | TcpState::CloseWait => {
            let mut connection = manager.connections[i].1.duplicate();
            let fin = fin_of(&connection);
            connection.state = state.on_close();
            manager.put(key, connection);
            Ok(Some(fin))
        },
        TcpState::Listen | TcpState::SynSent => {
            let _ = manager.remove_connection(&local_addr, local_port, &remote_addr, remote_port);
            Ok(None)
        },
        _ => Ok(None),
    }
}

/// The three-way handshake completes on the ACK of our SYN. In
/// `SynReceived`, for an incoming segment at the expected sequence number:
/// an ACK without SYN that acknowledges our initial sequence number plus
/// one (modulo 2^32) establishes the connection at `now`, with our sequence
/// number advanced to the acknowledged one, and sends nothing; an ACK of
/// any other number leaves the connection in `SynReceived` with its
/// sequence number and answers with exactly one reset carrying that
/// number; a reset without ACK closes the connection and sends nothing.
pub proof fn lemma_handshake_completes(c: TcpConnection, h: TcpHeader, p: Seq<u8>, now: u64, random: u32)
    requires
        c.state == TcpState::SynReceived,
        h.sequence_number == c.recv_sequence,
    ensures
        ({
            let (n, out) = packet_step(c, h, p, now, random);
            &&& (h.flags.ack && !h.flags.syn && h.acknowledgment_number as int == (c.send_sequence as int + 1)
                % 0x1_0000_0000) ==> {
                &&& n.state == TcpState::Established
                &&& n.send_sequence == h.acknowledgment_number
                &&& n.established_time == now
                &&& n.recv_sequence == c.recv_sequence
                &&& out.len() == 0
            }
            &&& (h.flags.ack && !h.flags.syn && h.acknowledgment_number as int != (c.send_sequence as int + 1)
                % 0x1_0000_0000) ==> {
                &&& n.state == TcpState::SynReceived
                &&& n.send_sequence == c.send_sequence
                &&& n.established_time == c.established_time
                &&& out.len() == 1
                &&& out[0].flags.rst
                &&& !out[0].flags.ack && !out[0].flags.syn
                &&& out[0].sequence == h.acknowledgment_number
                &&& out[0].src_port == c.local_port && out[0].dst_port == c.remote_port
            }
            &&& (!h.flags.ack && h.flags.rst) ==> n.state == TcpState::Closed && out.len() == 0
            &&& (!h.flags.ack && !h.flags.rst) ==> n.state == TcpState::SynReceived && out.len() == 0
        }),
{
    let c1 = touched(c, now);
    assert(seq_acceptable(c1, h)) by {
        assert(h.sequence_number.wrapping_sub(c1.recv_sequence) == 0u32);
    }
}

/// A listening connection opens on a SYN. In `Listen`, for an incoming
/// segment at the expected sequence number: a SYN without ACK moves the
/// connection to `SynReceived`, expecting the byte after the peer's initial
/// sequence number, and answers with one SYN-ACK that acknowledges it and
/// carries our new initial sequence number; a reset is ignored; anything
/// else stays in `Listen` and is answered with a reset.
pub proof fn lemma_listen_opens(c: TcpConnection, h: TcpHeader, p: Seq<u8>, now: u64, random: u32)
    requires
        c.state == TcpState::Listen,
        h.sequence_number == c.recv_sequence,
    ensures
        ({
            let (n, out) = packet_step(c, h, p, now, random);
            &&& (h.flags.syn && !h.flags.ack) ==> {
                &&& n.state == TcpState::SynReceived
                &&& n.recv_sequence as int == (h.sequence_number as int + 1) % 0x1_0000_0000
                &&& out.len() == 1
                &&& out[0].flags.syn && out[0].flags.ack && !out[0].flags.rst && !out[0].flags.fin
                &&& out[0].acknowledgment == n.recv_sequence
                &&& out[0].sequence == n.send_sequence
            }
            &&& !(h.flags.syn && !h.flags.ack) && h.flags.rst ==> n.state == TcpState::Listen && out.len() == 0
            &&& !(h.flags.syn && !h.flags.ack) && !h.flags.rst ==> {
                &&& n.state == TcpState::Listen
                &&& out.len() == 1
                &&& out[0].flags.rst
                &&& out[0].sequence as int == (h.sequence_number as int + 1) % 0x1_0000_0000
            }
        }),
{
    let c1 = touched(c, now);
    assert(seq_acceptable(c1, h)) by {
        assert(h.sequence_number.wrapping_sub(c1.recv_sequence) == 0u32);
    }
}

/// An active open completes on the SYN-ACK of our SYN. In `SynSent`, for
/// an incoming segment at the expected sequence number: a SYN-ACK that
/// acknowledges our initial sequence number plus one establishes the
/// connection at `now`, with our sequence number at the acknowledged one
/// and the peer's initial sequence number plus one expected next, and is
/// answered by one ACK of that number; a SYN-ACK of any other number leaves
/// the state as it was and is answered by a reset carrying that number; a
/// bare SYN (simultaneous open) leads to `SynReceived` with a SYN-ACK; a
/// reset without SYN closes the connection.
pub proof fn lemma_syn_sent_completes(c: TcpConnection, h: TcpHeader, p: Seq<u8>, now: u64, random: u32)
    requires
        c.state == TcpState::SynSent,
        h.sequence_number == c.recv_sequence,
    ensures
        ({
            let (n, out) = packet_step(c, h, p, now, random);
            &&& (h.flags.syn && h.flags.ack && h.acknowledgment_number as int == (c.send_sequence as int + 1) % 0x1_0000_0000) ==> {
                &&& n.state == TcpState::Established
                &&& n.established_time == now
                &&& n.send_sequence == h.acknowledgment_number
                &&& n.recv_sequence as int == (h.sequence_number as int + 1) % 0x1_0000_0000
                &&& out.len() == 1
                &&& out[0].flags.ack && !out[0].flags.syn && !out[0].flags.rst
                &&& out[0].acknowledgment == n.recv_sequence
                &&& out[0].sequence == n.send_sequence
            }
            &&& (h.flags.syn && h.flags.ack && h.acknowledgment_number as int != (c.send_sequence as int + 1) % 0x1_0000_0000) ==> {
                &&& n.state == TcpState::SynSent
                &&& n.send_sequence == c.send_sequence
                &&& out.len() == 1
                &&& out[0].flags.rst
                &&& out[0].sequence == h.acknowledgment_number
            }
            &&& (h.flags.syn && !h.flags.ack) ==> {
                &&& n.state == TcpState::SynReceived
                &&& n.recv_sequence as int == (h.sequence_number as int + 1) % 0x1_0000_0000
                &&& out.len() == 1
                &&& out[0].flags.syn && out[0].flags.ack
                &&& out[0].acknowledgment == n.recv_sequence
            }
            &&& (!h.flags.syn && h.flags.rst) ==> n.state == TcpState::Closed && out.len() == 0
            &&& (!h.flags.syn && !h.flags.rst) ==> n.state == TcpState::SynSent && out.len() == 0
        }),
{
    let c1 = touched(c, now);
    assert(seq_acceptable(c1, h)) by {
        assert(h.sequence_number.wrapping_sub(c1.recv_sequence) == 0u32);
    }
}

/// An established connection takes in-order data and the peer's FIN. In
/// `Established`, for a segment at the expected sequence number without
/// reset: data without FIN is appended to the receive buffer, moves the
/// expected sequence number past it and is acknowledged by one ACK of that
/// number; a FIN without data moves the connection to `CloseWait`, counts
/// the FIN in the expected sequence number and is acknowledged by one ACK of
/// it; a segment with neither changes no sequence number and sends
/// nothing. A reset closes the connection. An ACK of new data (above what
/// was acknowledged, up to what was sent) becomes the acknowledged number
/// and drops that many bytes from the front of the unacknowledged data.
pub proof fn lemma_established_segment(c: TcpConnection, h: TcpHeader, p: Seq<u8>, now: u64, random: u32)
    requires
        c.state == TcpState::Established,
        h.sequence_number == c.recv_sequence,
        p.len() <= u32::MAX,
    ensures
        ({
            let (n, out) = packet_step(c, h, p, now, random);
            &&& (p.len() > 0 && !h.flags.fin && !h.flags.rst) ==> {
                &&& n.state == TcpState::Established
                &&& n.recv_sequence as int == (c.recv_sequence as int + p.len()) % 0x1_0000_0000
                &&& packet_recv(c, h, p, now) == c.recv_buffer@ + p
                &&& out.len() == 1
                &&& out[0].flags.ack && !out[0].flags.fin && !out[0].flags.rst
                &&& out[0].acknowledgment == n.recv_sequence
            }
            &&& (p.len() == 0 && h.flags.fin && !h.flags.rst) ==> {
                &&& n.state == TcpState::CloseWait
                &&& n.recv_sequence as int == (c.recv_sequence as int + 1) % 0x1_0000_0000
                &&& packet_recv(c, h, p, now) == c.recv_buffer@
                &&& out.len() == 1
                &&& out[0].flags.ack && !out[0].flags.rst
                &&& out[0].acknowledgment == n.recv_sequence
            }
            &&& (p.len() == 0 && !h.flags.fin && !h.flags.rst) ==> {
                &&& n.state == TcpState::Established
                &&& n.recv_sequence == c.recv_sequence
                &&& n.send_sequence == c.send_sequence
                &&& out.len() == 0
            }
            &&& h.flags.rst ==> n.state == TcpState::Closed
            &&& (h.flags.ack && c.send_ack < h.acknowledgment_number <= c.send_sequence) ==> {
                &&& n.send_ack == h.acknowledgment_number
                &&& (h.acknowledgment_number - c.send_ack <= c.send_unacked@.len() ==> packet_unacked(c, h, p, now)
                    == c.send_unacked@.subrange(h.acknowledgment_number - c.send_ack, c.send_unacked@.len() as int))
            }
        }),
{
    let c1 = touched(c, now);
    assert(seq_acceptable(c1, h)) by {
        assert(h.sequence_number.wrapping_sub(c1.recv_sequence) == 0u32);
    }
}

/// The closing handshake. For a segment at the expected sequence number
/// without reset: in `FinWait1` the ACK of our FIN (our sequence number
/// plus one) without a FIN leads to `FinWait2` and sends nothing, and a
/// FIN together with that ACK leads to `TimeWait`, a FIN without it to
/// `Closing`, either acknowledged by one ACK of the peer's FIN; in
/// `FinWait2` a FIN leads to `TimeWait` and is acknowledged by one ACK of
/// it; in `LastAck` the ACK of our FIN closes the connection, and in
/// `Closing` it leads to `TimeWait`. A reset in any of these states closes
/// the connection. In `Closed`, every segment is answered by one reset.
pub proof fn lemma_closing_handshake(c: TcpConnection, h: TcpHeader, p: Seq<u8>, now: u64, random: u32)
    requires
        h.sequence_number == c.recv_sequence,
    ensures
        ({
            let (n, out) = packet_step(c, h, p, now, random);
            let acks_fin = h.flags.ack && h.acknowledgment_number as int == (c.send_sequence as int + 1) % 0x1_0000_0000;
            &&& (c.state == TcpState::FinWait1 && acks_fin && !h.flags.fin && !h.flags.rst) ==> n.state
                == TcpState::FinWait2 && out.len() == 0
            &&& (c.state == TcpState::FinWait1 && acks_fin && h.flags.fin && !h.flags.rst) ==> n.state
                == TcpState::TimeWait && out.len() == 1 && out[0].flags.ack && out[0].acknowledgment as int == (
                c.recv_sequence as int + 1) % 0x1_0000_0000
            &&& (c.state == TcpState::FinWait1 && !acks_fin && h.flags.fin && !h.flags.rst) ==> n.state
                == TcpState::Closing && out.len() == 1 && out[0].flags.ack && out[0].acknowledgment as int == (
                c.recv_sequence as int + 1) % 0x1_0000_0000
            &&& (c.state == TcpState::FinWait2 && h.flags.fin && !h.flags.rst) ==> n.state == TcpState::TimeWait
                && out.len() == 1 && out[0].flags.ack && out[0].acknowledgment as int == (c.recv_sequence as int + 1)
                % 0x1_0000_0000
            &&& (c.state == TcpState::LastAck && acks_fin && !h.flags.rst) ==> n.state == TcpState::Closed
            &&& (c.state == TcpState::Closing && acks_fin && !h.flags.rst) ==> n.state == TcpState::TimeWait
            &&& (c.state == TcpState::LastAck && !acks_fin && !h.flags.rst) ==> n.state == TcpState::LastAck
            &&& (c.state == TcpState::Closing && !acks_fin && !h.flags.rst) ==> n.state == TcpState::Closing
            &&& ((c.state == TcpState::FinWait1 || c.state == TcpState::FinWait2 || c.state == TcpState::LastAck
                || c.state == TcpState::Closing || c.state == TcpState::CloseWait) && h.flags.rst) ==> n.state
                == TcpState::Closed
            &&& (c.state == TcpState::Closed && h.sequence_number < u32::MAX) ==> n.state == TcpState::Closed
                && out.len() == 1 && out[0].flags.rst && out[0].sequence == h.sequence_number + 1
        }),
{
    let c1 = touched(c, now);
    assert(seq_acceptable(c1, h)) by {
        assert(h.sequence_number.wrapping_sub(c1.recv_sequence) == 0u32);
    }
}

/// A connection the peer has closed sends its own FIN once 30 s have
/// passed since it was established: in `CloseWait`, for a segment at the
/// expected sequence number without reset, more than 30000 ms after the
/// connection was established the connection moves to `LastAck` and sends
/// one FIN (with ACK) carrying our sequence number; before that it stays in
/// `CloseWait` and sends nothing.
pub proof fn lemma_close_wait_sends_fin(c: TcpConnection, h: TcpHeader, p: Seq<u8>, now: u64, random: u32)
    requires
        c.state == TcpState::CloseWait,
        h.sequence_number == c.recv_sequence,
        !h.flags.rst,
        c.established_time <= now,
    ensures
        ({
            let (n, out) = packet_step(c, h, p, now, random);
            &&& now > c.established_time + 30000 ==> {
                &&& n.state == TcpState::LastAck
                &&& out.len() == 1
                &&& out[0].flags.fin && out[0].flags.ack && !out[0].flags.rst
                &&& out[0].sequence == c.send_sequence
            }
            &&& now <= c.established_time + 30000 ==> n.state == TcpState::CloseWait && out.len() == 0
        }),
{
    let c1 = touched(c, now);
    assert(seq_acceptable(c1, h)) by {
        assert(h.sequence_number.wrapping_sub(c1.recv_sequence) == 0u32);
    }
}

/// A segment outside the receive window changes no state and is answered
/// by one ACK of what is expected: with an open window, a segment whose
/// sequence number lies a window or more past the expected one (modulo
/// 2^32) leaves the connection's state and sequence numbers as they were
/// and is answered by one ACK carrying our sequence number and the
/// expected one.
pub proof fn lemma_out_of_window_acked(c: TcpConnection, h: TcpHeader, p: Seq<u8>, now: u64, random: u32)
    requires
        c.recv_window > 0,
        (h.sequence_number as int - c.recv_sequence as int) % 0x1_0000_0000 >= c.recv_window,
    ensures
        ({
            let (n, out) = packet_step(c, h, p, now, random);
            &&& n.state == c.state
            &&& n.recv_sequence == c.recv_sequence
            &&& n.send_sequence == c.send_sequence
            &&& n.last_ack_time == now
            &&& out.len() == 1
            &&& out[0].flags.ack && !out[0].flags.rst && !out[0].flags.syn && !out[0].flags.fin
            &&& out[0].acknowledgment == c.recv_sequence
            &&& out[0].sequence == c.send_sequence
        }),
{
    let c1 = touched(c, now);
    assert(!seq_acceptable(c1, h));
}

} // verus!
