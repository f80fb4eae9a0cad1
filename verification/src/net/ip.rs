//! IP: IPv4 and IPv6 headers (reading, checksum, writing), what becomes of
//! an incoming packet, forwarding, and the frames that carry outgoing
//! packets and ICMP error messages.
//!
//! Routes, the interfaces' addresses and the ARP cache stay with the
//! caller, which hands their answers in and sends what these functions
//! build.
use vstd::prelude::*;
use crate::net::types::{NetworkAddress, NetworkError, NetworkResult};
use crate::net::buffer::PacketBuffer;
use crate::net::wire::{be16, be32, from_be16, from_be32, be_to_u16, be_to_u32, u16_to_be, u32_to_be, push_all, copy_range};
use crate::net::checksum::{word_sum, ones_complement, fold_and_complement, add_words, lemma_word_sum_bound, internet_checksum, internet_checksum_spec};

verus! {

/// Size of an IPv4 header without options.
pub const IPV4_HEADER_MIN_SIZE: usize = 20;

/// Size of an IPv6 header.
pub const IPV6_HEADER_SIZE: usize = 40;

/// Transport protocols by their IP protocol number.
#[derive(Debug, Clone, Copy, PartialEq, Eq, Structural)]
pub enum Protocol {
    ICMP,
    TCP,
    UDP,
    IPv6inIPv4,
    GRE,
    ICMPv6,
}

/// The protocol of a protocol number; unknown numbers read as TCP.
pub open spec fn protocol_of(value: u8) -> Protocol {
    if value == 1 {
        Protocol::ICMP
    } else if value == 6 {
        Protocol::TCP
    } else if value == 17 {
        Protocol::UDP
    } else if value == 41 {
        Protocol::IPv6inIPv4
    } else if value == 47 {
        Protocol::GRE
    } else if value == 58 {
        Protocol::ICMPv6
    } else {
        Protocol::TCP
    }
}

impl From<u8> for Protocol {
    fn from(value: u8) -> (r: Self) {
        match value {
            1 => Protocol::ICMP,
            6 => Protocol::TCP,
            17 => Protocol::UDP,
            41 => Protocol::IPv6inIPv4,
            47 => Protocol::GRE,
            58 => Protocol::ICMPv6,
            _ => Protocol::TCP,
        }
    }
}

impl vstd::std_specs::convert::FromSpecImpl<u8> for Protocol {
    open spec fn obeys_from_spec() -> bool {
        true
    }

    open spec fn from_spec(value: u8) -> Self {
        protocol_of(value)
    }
}

/// An IPv4 header.
#[derive(Debug, Clone)]
pub struct IPv4Header {
    pub version_ihl: u8,
    pub tos: u8,
    pub total_length: u16,
    pub identification: u16,
    pub flags_fragment: u16,
    pub ttl: u8,
    pub protocol: u8,
    pub checksum: u16,
    pub source: NetworkAddress,
    pub destination: NetworkAddress,
    pub options: Vec<u8>,
}

/// The header length that the first byte of an IPv4 header gives.
pub open spec fn ihl_length(d: Seq<u8>) -> int {
    ((d[0] % 16) * 4) as int
}

/// `h` is the IPv4 header written at the start of `d`.
pub open spec fn ipv4_read(d: Seq<u8>, h: IPv4Header) -> bool {
    &&& h.version_ihl == d[0]
    &&& h.tos == d[1]
    &&& h.total_length == from_be16(d[2], d[3])
    &&& h.identification == from_be16(d[4], d[5])
    &&& h.flags_fragment == from_be16(d[6], d[7])
    &&& h.ttl == d[8]
    &&& h.protocol == d[9]
    &&& h.checksum == from_be16(d[10], d[11])
    &&& h.source == NetworkAddress::IPv4([d[12], d[13], d[14], d[15]])
    &&& h.destination == NetworkAddress::IPv4([d[16], d[17], d[18], d[19]])
    &&& h.options@ == d.subrange(20, ihl_length(d))
}

/// The words of an IPv4 address (none for another family).
pub open spec fn ipv4_words(a: NetworkAddress) -> nat {
    match a {
        NetworkAddress::IPv4(b) => word_sum(b@),
        _ => 0,
    }
}

/// The sum of the header's 16-bit words without the checksum field.
pub open spec fn ipv4_header_sum(h: IPv4Header) -> nat {
    (h.version_ihl as nat) * 256 + h.tos as nat + h.total_length as nat + h.identification as nat
        + h.flags_fragment as nat + (h.ttl as nat) * 256 + h.protocol as nat + ipv4_words(h.source)
        + ipv4_words(h.destination) + word_sum(h.options@)
}

/// The bytes of an IPv4 address (none for another family).
pub open spec fn ipv4_bytes(a: NetworkAddress) -> Seq<u8> {
    match a {
        NetworkAddress::IPv4(b) => b@,
        _ => Seq::empty(),
    }
}

/// The header as written on the wire.
pub open spec fn ipv4_header_bytes(h: IPv4Header) -> Seq<u8> {
    seq![h.version_ihl, h.tos] + be16(h.total_length) + be16(h.identification) + be16(h.flags_fragment)
        + seq![h.ttl, h.protocol] + be16(h.checksum) + ipv4_bytes(h.source) + ipv4_bytes(h.destination)
        + h.options@
}

/// Whether a header belongs to a fragment: more fragments follow or the
/// offset is not zero.
pub open spec fn fragmented(flags_fragment: u16) -> bool {
    (flags_fragment & 0x2000) != 0 || (flags_fragment & 0x1FFF) != 0
}

proof fn lemma_ipv4_sum_bound(h: IPv4Header)
    requires
        h.options@.len() <= 40,
    ensures
        ipv4_header_sum(h) <= u32::MAX,
{
    lemma_word_sum_bound(h.options@);
    match h.source {
        NetworkAddress::IPv4(b) => lemma_word_sum_bound(b@),
        _ => {},
    }
    match h.destination {
        NetworkAddress::IPv4(b) => lemma_word_sum_bound(b@),
        _ => {},
    }
}

/// The sum of the words of an address's bytes, added to `sum`.
fn add_ipv4_words(sum: u32, a: &NetworkAddress) -> (r: u32)
    requires
        sum + ipv4_words(*a) <= u32::MAX,
    ensures
        r == sum + ipv4_words(*a),
{
    match a {
        NetworkAddress::IPv4(b) => add_words(sum, b),
        _ => sum,
    }
}

impl IPv4Header {
    /// Reads a header from the readable bytes of `buffer`. Fewer than 20
    /// bytes give `InvalidPacket` and consume nothing; a version other
    /// than 4, or a header length under 20 or past the data, give
    /// `InvalidPacket` after one byte was consumed; a header consumes its
    /// length.
    pub fn parse(buffer: &mut PacketBuffer) -> (r: NetworkResult<Self>)
        requires
            old(buffer).wf(),
        ensures
            final(buffer).wf(),
            final(buffer).storage() == old(buffer).storage(),
            final(buffer).write_pos_spec() == old(buffer).write_pos_spec(),
            final(buffer).length_spec() == old(buffer).length_spec(),
            final(buffer).meta() == old(buffer).meta(),
            ({
                let d = old(buffer).readable_spec();
                let p = old(buffer).read_pos_spec();
                &&& d.len() < IPV4_HEADER_MIN_SIZE ==> r == Err::<IPv4Header, NetworkError>(NetworkError::InvalidPacket)
                    && final(buffer).read_pos_spec() == p
                &&& d.len() >= IPV4_HEADER_MIN_SIZE && (d[0] / 16 != 4 || ihl_length(d) < 20 || d.len() < ihl_length(d))
                    ==> r == Err::<IPv4Header, NetworkError>(NetworkError::InvalidPacket) && final(buffer).read_pos_spec() == p + 1
                &&& d.len() >= IPV4_HEADER_MIN_SIZE && d[0] / 16 == 4 && ihl_length(d) >= 20 && d.len() >= ihl_length(d)
                    ==> (r matches Ok(h) && ipv4_read(d, h) && final(buffer).read_pos_spec() == p + ihl_length(d))
            }),
    {
        let d = buffer.readable_data();
        if d.len() < IPV4_HEADER_MIN_SIZE {
            return Err(NetworkError::InvalidPacket);
        }
        let version_ihl = d[0];
        let version = (version_ihl >> 4) & 0x0f;
        let ihl = version_ihl & 0x0f;
        assert(version == version_ihl / 16 && ihl == version_ihl % 16) by (bit_vector)
            requires
                version == (version_ihl >> 4) & 0x0f,
                ihl == version_ihl & 0x0f,
        ;
        let header_length = (ihl as usize) * 4;
        if version != 4 || header_length < IPV4_HEADER_MIN_SIZE || d.len() < header_length {
            buffer.consume(1);
            return Err(NetworkError::InvalidPacket);
        }
        let header = IPv4Header {
            version_ihl,
            tos: d[1],
            total_length: be_to_u16(d[2], d[3]),
            identification: be_to_u16(d[4], d[5]),
            flags_fragment: be_to_u16(d[6], d[7]),
            ttl: d[8],
            protocol: d[9],
            checksum: be_to_u16(d[10], d[11]),
            source: NetworkAddress::IPv4([d[12], d[13], d[14], d[15]]),
            destination: NetworkAddress::IPv4([d[16], d[17], d[18], d[19]]),
            options: copy_range(d, IPV4_HEADER_MIN_SIZE, header_length),
        };
        buffer.consume(header_length);
        Ok(header)
    }

    /// The header checksum: the Internet checksum of the header's words
    /// with the checksum field left out.
    pub fn calculate_checksum(&self) -> (r: u16)
        requires
            ipv4_header_sum(*self) <= u32::MAX,
        ensures
            r == ones_complement(ipv4_header_sum(*self)),
    {
        let mut sum: u32 = (self.version_ihl as u32) * 256 + (self.tos as u32);
        sum = sum + self.total_length as u32;
        sum = sum + self.identification as u32;
        sum = sum + self.flags_fragment as u32;
        sum = sum + (self.ttl as u32) * 256 + (self.protocol as u32);
        sum = add_ipv4_words(sum, &self.source);
        sum = add_ipv4_words(sum, &self.destination);
        sum = add_words(sum, self.options.as_slice());
        fold_and_complement(sum)
    }

    /// Whether the packet is a fragment.
    pub fn is_fragmented(&self) -> (r: bool)
        ensures
            r == fragmented(self.flags_fragment),
    {
        let more_fragments = (self.flags_fragment & 0x2000) != 0;
        let fragment_offset = self.flags_fragment & 0x1FFF;
        more_fragments || fragment_offset != 0
    }

    /// The header as written on the wire.
    pub fn to_bytes(&self) -> (r: Vec<u8>)
        requires
            self.options@.len() + 40 <= usize::MAX,
        ensures
            r@ == ipv4_header_bytes(*self),
    {
        let mut out: Vec<u8> = Vec::new();
        out.push(self.version_ihl);
        out.push(self.tos);
        push_all(&mut out, &u16_to_be(self.total_length));
        push_all(&mut out, &u16_to_be(self.identification));
        push_all(&mut out, &u16_to_be(self.flags_fragment));
        out.push(self.ttl);
        out.push(self.protocol);
        push_all(&mut out, &u16_to_be(self.checksum));
        if let NetworkAddress::IPv4(src) = self.source {
            push_all(&mut out, &src);
        }
        if let NetworkAddress::IPv4(dst) = self.destination {
            push_all(&mut out, &dst);
        }
        push_all(&mut out, self.options.as_slice());
        assert(out@ =~= ipv4_header_bytes(*self));
        out
    }
}

/// An IPv6 header.
#[derive(Debug, Clone, Copy)]
pub struct IPv6Header {
    pub version_tc_fl: u32,
    pub payload_length: u16,
    pub next_header: u8,
    pub hop_limit: u8,
    pub source: NetworkAddress,
    pub destination: NetworkAddress,
}

/// `h` is the IPv6 header written at the start of `d`.
pub open spec fn ipv6_read(d: Seq<u8>, h: IPv6Header) -> bool {
    &&& h.version_tc_fl == from_be32(d[0], d[1], d[2], d[3])
    &&& h.payload_length == from_be16(d[4], d[5])
    &&& h.next_header == d[6]
    &&& h.hop_limit == d[7]
    &&& h.source == NetworkAddress::IPv6(
        [d[8], d[9], d[10], d[11], d[12], d[13], d[14], d[15], d[16], d[17], d[18], d[19], d[20], d[21], d[22], d[23]],
    )
    &&& h.destination == NetworkAddress::IPv6(
        [d[24], d[25], d[26], d[27], d[28], d[29], d[30], d[31], d[32], d[33], d[34], d[35], d[36], d[37], d[38], d[39]],
    )
}

/// The bytes of an IPv6 address (none for another family).
pub open spec fn ipv6_bytes(a: NetworkAddress) -> Seq<u8> {
    match a {
        NetworkAddress::IPv6(b) => b@,
        _ => Seq::empty(),
    }
}

/// The IPv6 header as written on the wire.
pub open spec fn ipv6_header_bytes(h: IPv6Header) -> Seq<u8> {
    be32(h.version_tc_fl) + be16(h.payload_length) + seq![h.next_header, h.hop_limit] + ipv6_bytes(h.source)
        + ipv6_bytes(h.destination)
}

/// The 16 bytes of `d` from `at` as an array.
fn bytes16(d: &[u8], at: usize) -> (r: [u8; 16])
    requires
        at + 16 <= d@.len(),
    ensures
        r@ == d@.subrange(at as int, at + 16),
{
    let r = [
        d[at],
        d[at + 1],
        d[at + 2],
        d[at + 3],
        d[at + 4],
        d[at + 5],
        d[at + 6],
        d[at + 7],
        d[at + 8],
        d[at + 9],
        d[at + 10],
        d[at + 11],
        d[at + 12],
        d[at + 13],
        d[at + 14],
        d[at + 15],
    ];
    assert(r@ =~= d@.subrange(at as int, at + 16));
    r
}

impl IPv6Header {
    /// Reads a header from the readable bytes of `buffer`. Fewer than 40
    /// bytes give `InvalidPacket` and consume nothing; a version other
    /// than 6 gives `InvalidPacket` after four bytes were consumed; a
    /// header consumes 40 bytes.
    pub fn parse(buffer: &mut PacketBuffer) -> (r: NetworkResult<Self>)
        requires
            old(buffer).wf(),
        ensures
            final(buffer).wf(),
            final(buffer).storage() == old(buffer).storage(),
            final(buffer).write_pos_spec() == old(buffer).write_pos_spec(),
            final(buffer).length_spec() == old(buffer).length_spec(),
            final(buffer).meta() == old(buffer).meta(),
            ({
                let d = old(buffer).readable_spec();
                let p = old(buffer).read_pos_spec();
                &&& d.len() < IPV6_HEADER_SIZE ==> r == Err::<IPv6Header, NetworkError>(NetworkError::InvalidPacket)
                    && final(buffer).read_pos_spec() == p
                &&& d.len() >= IPV6_HEADER_SIZE && d[0] / 16 != 6 ==> r == Err::<IPv6Header, NetworkError>(
                    NetworkError::InvalidPacket,
                ) && final(buffer).read_pos_spec() == p + 4
                &&& d.len() >= IPV6_HEADER_SIZE && d[0] / 16 == 6 ==> (r matches Ok(h) && ipv6_read(d, h)
                    && final(buffer).read_pos_spec() == p + IPV6_HEADER_SIZE)
            }),
    {
        let d = buffer.readable_data();
        if d.len() < IPV6_HEADER_SIZE {
            return Err(NetworkError::InvalidPacket);
        }
        let version_tc_fl = be_to_u32(d[0], d[1], d[2], d[3]);
        let version = (version_tc_fl >> 28) & 0x0f;
        let b0 = d[0];
        let b1 = d[1];
        let b2 = d[2];
        let b3 = d[3];
        assert(version == b0 / 16) by (bit_vector)
            requires
                version == (version_tc_fl >> 28) & 0x0f,
                version_tc_fl == b0 as u32 * 0x1000000 + b1 as u32 * 0x10000 + b2 as u32 * 256 + b3 as u32,
        ;
        if version != 6 {
            buffer.consume(4);
            return Err(NetworkError::InvalidPacket);
        }
        let src = bytes16(d, 8);
        let dst = bytes16(d, 24);
        let header = IPv6Header {
            version_tc_fl,
            payload_length: be_to_u16(d[4], d[5]),
            next_header: d[6],
            hop_limit: d[7],
            source: NetworkAddress::IPv6(src),
            destination: NetworkAddress::IPv6(dst),
        };
        assert(src =~= [d@[8], d@[9], d@[10], d@[11], d@[12], d@[13], d@[14], d@[15], d@[16], d@[17], d@[18], d@[19], d@[20], d@[21], d@[22], d@[23]]);
        assert(dst =~= [d@[24], d@[25], d@[26], d@[27], d@[28], d@[29], d@[30], d@[31], d@[32], d@[33], d@[34], d@[35], d@[36], d@[37], d@[38], d@[39]]);
        buffer.consume(IPV6_HEADER_SIZE);
        Ok(header)
    }

    /// The header as written on the wire.
    pub fn to_bytes(&self) -> (r: Vec<u8>)
        ensures
            r@ == ipv6_header_bytes(*self),
    {
        let mut out: Vec<u8> = Vec::new();
        push_all(&mut out, &u32_to_be(self.version_tc_fl));
        push_all(&mut out, &u16_to_be(self.payload_length));
        out.push(self.next_header);
        out.push(self.hop_limit);
        if let NetworkAddress::IPv6(src) = self.source {
            push_all(&mut out, &src);
        }
        if let NetworkAddress::IPv6(dst) = self.destination {
            push_all(&mut out, &dst);
        }
        assert(out@ =~= ipv6_header_bytes(*self));
        out
    }
}


/// What becomes of an incoming packet after its header.
#[derive(Debug, Clone, Copy, PartialEq, Eq, Structural)]
pub enum IpNext {
    Icmp,
    Icmpv6,
    Tcp,
    Udp,
    Forward,
    Drop,
}

/// The limited broadcast address `255.255.255.255`, and the all-ones
/// hardware address.
pub open spec fn is_broadcast(a: NetworkAddress) -> bool {
    match a {
        NetworkAddress::IPv4(b) => b[0] == 255 && b[1] == 255 && b[2] == 255 && b[3] == 255,
        NetworkAddress::Mac(b) => b[0] == 255 && b[1] == 255 && b[2] == 255 && b[3] == 255 && b[4] == 255
            && b[5] == 255,
        NetworkAddress::IPv6(_) => false,
    }
}

/// Multicast addresses: IPv4 224.0.0.0/4 and IPv6 ff00::/8.
pub open spec fn is_multicast(a: NetworkAddress) -> bool {
    match a {
        NetworkAddress::IPv4(b) => (b[0] & 0xf0) == 0xe0,
        NetworkAddress::IPv6(b) => b[0] == 0xff,
        NetworkAddress::Mac(_) => false,
    }
}

/// Whether `a` is a broadcast address (`is_broadcast`).
pub fn is_broadcast_address(a: &NetworkAddress) -> (r: bool)
    ensures
        r == is_broadcast(*a),
{
    match a {
        NetworkAddress::IPv4(b) => b[0] == 255 && b[1] == 255 && b[2] == 255 && b[3] == 255,
        NetworkAddress::Mac(b) => b[0] == 255 && b[1] == 255 && b[2] == 255 && b[3] == 255 && b[4] == 255 && b[5]
            == 255,
        NetworkAddress::IPv6(_) => false,
    }
}

/// Whether `a` is a multicast address (`is_multicast`).
pub fn is_multicast_address(a: &NetworkAddress) -> (r: bool)
    ensures
        r == is_multicast(*a),
{
    match a {
        NetworkAddress::IPv4(b) => (b[0] & 0xf0) == 0xe0,
        NetworkAddress::IPv6(b) => b[0] == 0xff,
        NetworkAddress::Mac(_) => false,
    }
}

/// A packet for `dst` is ours: `dst` is one of our addresses, the IPv4
/// broadcast address, or multicast.
pub open spec fn for_us(dst: NetworkAddress, local: Seq<NetworkAddress>) -> bool {
    local.contains(dst) || match dst {
        NetworkAddress::IPv4(b) => (b[0] == 255 && b[1] == 255 && b[2] == 255 && b[3] == 255) || (b[0] & 0xf0)
            == 0xe0,
        NetworkAddress::IPv6(b) => b[0] == 0xff,
        NetworkAddress::Mac(_) => false,
    }
}

/// Whether a packet for `destination` is ours (`for_us`), given our
/// interfaces' addresses.
pub fn is_packet_for_us(destination: &NetworkAddress, local_addresses: &Vec<NetworkAddress>) -> (r: bool)
    ensures
        r == for_us(*destination, local_addresses@),
{
    let mut i: usize = 0;
    while i < local_addresses.len()
        invariant
            i <= local_addresses@.len(),
            forall|j: int| 0 <= j < i ==> local_addresses@[j] != *destination,
        decreases local_addresses@.len() - i,
    {
        if local_addresses[i].same(destination) {
            assert(local_addresses@.contains(*destination));
            return true;
        }
        i = i + 1;
    }
    match destination {
        NetworkAddress::IPv4(b) => (b[0] == 255 && b[1] == 255 && b[2] == 255 && b[3] == 255) || (b[0] & 0xf0)
            == 0xe0,
        NetworkAddress::IPv6(b) => b[0] == 0xff,
        NetworkAddress::Mac(_) => false,
    }
}

/// The header's checksum field is right.
pub open spec fn ipv4_checksum_ok(h: IPv4Header) -> bool {
    ones_complement(ipv4_header_sum(h)) == h.checksum
}

/// The readable bytes `d` start with an IPv4 header.
pub open spec fn ipv4_valid(d: Seq<u8>) -> bool {
    d.len() >= IPV4_HEADER_MIN_SIZE && d[0] / 16 == 4 && ihl_length(d) >= 20 && d.len() >= ihl_length(d)
}

/// Where an IPv4 packet with header `h` goes.
pub open spec fn ipv4_next(h: IPv4Header, local: Seq<NetworkAddress>) -> IpNext {
    if !for_us(h.destination, local) {
        IpNext::Forward
    } else if fragmented(h.flags_fragment) {
        IpNext::Drop
    } else {
        match protocol_of(h.protocol) {
            Protocol::ICMP => IpNext::Icmp,
            Protocol::TCP => IpNext::Tcp,
            Protocol::UDP => IpNext::Udp,
            _ => IpNext::Drop,
        }
    }
}

/// Two headers read from the same bytes agree on the checksum test and on
/// where the packet goes.
pub proof fn lemma_ipv4_read_unique(d: Seq<u8>, h1: IPv4Header, h2: IPv4Header, local: Seq<NetworkAddress>)
    requires
        ipv4_read(d, h1),
        ipv4_read(d, h2),
    ensures
        ipv4_checksum_ok(h1) == ipv4_checksum_ok(h2),
        ipv4_next(h1, local) == ipv4_next(h2, local),
{
}

/// Reads the IPv4 header of `packet` and decides where the packet goes:
/// `InvalidPacket` for a header that does not read or whose checksum is
/// wrong; otherwise the header and its destination (`ipv4_next`). The
/// payload stays in `packet` after the header.
pub fn process_ipv4_packet(packet: &mut PacketBuffer, local_addresses: &Vec<NetworkAddress>) -> (r: NetworkResult<
    (IPv4Header, IpNext),
>)
    requires
        old(packet).wf(),
    ensures
        final(packet).wf(),
        final(packet).storage() == old(packet).storage(),
        final(packet).write_pos_spec() == old(packet).write_pos_spec(),
        ({
            let d = old(packet).readable_spec();
            &&& !ipv4_valid(d) ==> r == Err::<(IPv4Header, IpNext), NetworkError>(NetworkError::InvalidPacket)
            &&& ipv4_valid(d) ==> final(packet).read_pos_spec() == old(packet).read_pos_spec() + ihl_length(d)
            &&& r matches Err(e) ==> e == NetworkError::InvalidPacket
            &&& (ipv4_valid(d) && r is Err) ==> exists|h: IPv4Header| #[trigger] ipv4_read(d, h) && !ipv4_checksum_ok(h)
            &&& r matches Ok((h, next)) ==> ipv4_valid(d) && ipv4_read(d, h) && ipv4_checksum_ok(h) && next
                == ipv4_next(h, local_addresses@)
        }),
{
    let header = IPv4Header::parse(packet)?;
    proof {
        lemma_ipv4_sum_bound(header);
    }
    if header.calculate_checksum() != header.checksum {
        return Err(NetworkError::InvalidPacket);
    }
    if !is_packet_for_us(&header.destination, local_addresses) {
        return Ok((header, IpNext::Forward));
    }
    if header.is_fragmented() {
        return Ok((header, IpNext::Drop));
    }
    let next = match Protocol::from(header.protocol) {
        Protocol::ICMP => IpNext::Icmp,
        Protocol::TCP => IpNext::Tcp,
        Protocol::UDP => IpNext::Udp,
        _ => IpNext::Drop,
    };
    Ok((header, next))
}

/// The readable bytes `d` start with an IPv6 header.
pub open spec fn ipv6_valid(d: Seq<u8>) -> bool {
    d.len() >= IPV6_HEADER_SIZE && d[0] / 16 == 6
}

/// Where an IPv6 packet with header `h` goes.
pub open spec fn ipv6_next(h: IPv6Header, local: Seq<NetworkAddress>) -> IpNext {
    if !for_us(h.destination, local) {
        IpNext::Forward
    } else if h.next_header == 58 {
        IpNext::Icmpv6
    } else if h.next_header == 6 {
        IpNext::Tcp
    } else if h.next_header == 17 {
        IpNext::Udp
    } else {
        IpNext::Drop
    }
}

/// Reads the IPv6 header of `packet` and decides where the packet goes:
/// `InvalidPacket` for a header that does not read; otherwise the header
/// and its destination (`ipv6_next`).
pub fn process_ipv6_packet(packet: &mut PacketBuffer, local_addresses: &Vec<NetworkAddress>) -> (r: NetworkResult<
    (IPv6Header, IpNext),
>)
    requires
        old(packet).wf(),
    ensures
        final(packet).wf(),
        final(packet).storage() == old(packet).storage(),
        final(packet).write_pos_spec() == old(packet).write_pos_spec(),
        ({
            let d = old(packet).readable_spec();
            &&& !ipv6_valid(d) ==> r == Err::<(IPv6Header, IpNext), NetworkError>(NetworkError::InvalidPacket)
            &&& ipv6_valid(d) ==> (r matches Ok((h, next)) && ipv6_read(d, h) && next == ipv6_next(
                h,
                local_addresses@,
            ) && final(packet).read_pos_spec() == old(packet).read_pos_spec() + IPV6_HEADER_SIZE)
        }),
{
    let header = IPv6Header::parse(packet)?;
    if !is_packet_for_us(&header.destination, local_addresses) {
        return Ok((header, IpNext::Forward));
    }
    let next = if header.next_header == 58 {
        IpNext::Icmpv6
    } else if header.next_header == 6 {
        IpNext::Tcp
    } else if header.next_header == 17 {
        IpNext::Udp
    } else {
        IpNext::Drop
    };
    Ok((header, next))
}

/// What forwarding a packet comes to: its hop budget is spent (answer
/// with Time Exceeded), or these bytes go to the next hop.
#[derive(Debug)]
pub enum ForwardStep {
    TimeExceeded,
    Send(Vec<u8>),
}

/// The header `h` one hop later: TTL one less and the checksum redone.
pub open spec fn ipv4_hop(h: IPv4Header) -> IPv4Header {
    let t = IPv4Header { ttl: (h.ttl - 1) as u8, ..h };
    IPv4Header { checksum: ones_complement(ipv4_header_sum(t)), ..t }
}

/// Forwarding an IPv4 packet with header `header` and `payload`: Time
/// Exceeded where the TTL is at most one, else the packet with the TTL one
/// less and the checksum redone.
pub fn forward_ipv4_packet(header: &IPv4Header, payload: &[u8]) -> (r: ForwardStep)
    requires
        ipv4_header_sum(*header) <= u32::MAX,
        header.options@.len() + payload@.len() + 40 <= usize::MAX,
    ensures
        header.ttl <= 1 ==> r is TimeExceeded,
        header.ttl > 1 ==> (r matches ForwardStep::Send(v) && v@ == ipv4_header_bytes(ipv4_hop(*header)) + payload@),
{
    if header.ttl <= 1 {
        return ForwardStep::TimeExceeded;
    }
    let mut h = IPv4Header {
        version_ihl: header.version_ihl,
        tos: header.tos,
        total_length: header.total_length,
        identification: header.identification,
        flags_fragment: header.flags_fragment,
        ttl: header.ttl - 1,
        protocol: header.protocol,
        checksum: header.checksum,
        source: header.source,
        destination: header.destination,
        options: copy_range(header.options.as_slice(), 0, header.options.len()),
    };
    assert(header.options@.subrange(0, header.options@.len() as int) =~= header.options@);
    h.checksum = h.calculate_checksum();
    let mut out = h.to_bytes();
    push_all(&mut out, payload);
    assert(h.options@ == ipv4_hop(*header).options@);
    assert(ipv4_header_bytes(h) == ipv4_header_bytes(ipv4_hop(*header)));
    ForwardStep::Send(out)
}

/// The header `h` one hop later: hop limit one less.
pub open spec fn ipv6_hop(h: IPv6Header) -> IPv6Header {
    IPv6Header { hop_limit: (h.hop_limit - 1) as u8, ..h }
}

/// Forwarding an IPv6 packet: Time Exceeded where the hop limit is at
/// most one, else the packet with the hop limit one less.
pub fn forward_ipv6_packet(header: &IPv6Header, payload: &[u8]) -> (r: ForwardStep)
    requires
        payload@.len() + 40 <= usize::MAX,
    ensures
        header.hop_limit <= 1 ==> r is TimeExceeded,
        header.hop_limit > 1 ==> (r matches ForwardStep::Send(v) && v@ == ipv6_header_bytes(ipv6_hop(*header))
            + payload@),
{
    if header.hop_limit <= 1 {
        return ForwardStep::TimeExceeded;
    }
    let h = IPv6Header { hop_limit: header.hop_limit - 1, ..*header };
    let mut out = h.to_bytes();
    push_all(&mut out, payload);
    ForwardStep::Send(out)
}

/// The IP header checksum of `data` (the Internet checksum).
pub fn calculate_ip_checksum(data: &[u8]) -> (r: u16)
    requires
        word_sum(data@) <= u32::MAX,
    ensures
        r == internet_checksum_spec(data@),
{
    internet_checksum(data)
}

/// The sum that the ICMPv6 checksum folds: the pseudo-header (addresses,
/// length, next header 58) and the message.
pub open spec fn v6_pseudo_sum(src: Seq<u8>, dst: Seq<u8>, packet: Seq<u8>) -> nat {
    let len = packet.len() as u32;
    word_sum(src) + word_sum(dst) + (len / 0x10000) as nat + (len % 0x10000) as nat + 58 + word_sum(packet)
}

/// The two 16-bit halves of a length taken as 32 bits.
fn length_halves(len: usize) -> (r: (u32, u32))
    ensures
        r.0 == (len as u32) / 0x10000,
        r.1 == (len as u32) % 0x10000,
{
    let packet_len = len as u32;
    let hi = packet_len >> 16;
    let lo = packet_len & 0xFFFF;
    assert(hi == packet_len / 0x10000 && lo == packet_len % 0x10000) by (bit_vector)
        requires
            hi == packet_len >> 16,
            lo == packet_len & 0xFFFF,
    ;
    (hi, lo)
}

/// The ICMPv6 checksum of `packet` between `src` and `dst` (RFC 4443).
pub fn calculate_icmpv6_checksum(src: &[u8; 16], dst: &[u8; 16], packet: &[u8]) -> (r: u16)
    requires
        v6_pseudo_sum(src@, dst@, packet@) <= u32::MAX,
    ensures
        r == ones_complement(v6_pseudo_sum(src@, dst@, packet@)),
{
    let mut sum = add_words(0, src);
    sum = add_words(sum, dst);
    let (hi, lo) = length_halves(packet.len());
    sum = sum + hi;
    sum = sum + lo;
    sum = sum + 58;
    sum = add_words(sum, packet);
    fold_and_complement(sum)
}

/// An ICMP error message of type `message_type` with code zero: type,
/// code, checksum and four unused bytes.
pub open spec fn icmp_error_bytes(message_type: u8) -> Seq<u8> {
    seq![message_type, 0u8] + be16(internet_checksum_spec(seq![message_type, 0u8, 0u8, 0u8, 0u8, 0u8, 0u8, 0u8]))
        + seq![0u8, 0u8, 0u8, 0u8]
}

/// The ICMP error message of type `message_type` (11 Time Exceeded, 3
/// Destination Unreachable) that the router sends back.
pub fn icmp_error_packet(message_type: u8) -> (r: Vec<u8>)
    ensures
        r@ == icmp_error_bytes(message_type),
{
    let mut m: Vec<u8> = vec![message_type, 0, 0, 0, 0, 0, 0, 0];
    proof {
        lemma_word_sum_bound(m@);
    }
    let checksum = calculate_ip_checksum(m.as_slice());
    let c = u16_to_be(checksum);
    m.set(2, c[0]);
    m.set(3, c[1]);
    assert(m@ =~= icmp_error_bytes(message_type));
    m
}

/// An ICMPv6 error message of type `message_type` with code zero between
/// `src` and `dst`.
pub open spec fn icmpv6_error_bytes(message_type: u8, src: Seq<u8>, dst: Seq<u8>) -> Seq<u8> {
    seq![message_type, 0u8] + be16(
        ones_complement(v6_pseudo_sum(src, dst, seq![message_type, 0u8, 0u8, 0u8, 0u8, 0u8, 0u8, 0u8])),
    ) + seq![0u8, 0u8, 0u8, 0u8]
}

/// The ICMPv6 error message of type `message_type` (3 Time Exceeded, 1
/// Destination Unreachable) from `src` to `dst`.
pub fn icmpv6_error_packet(message_type: u8, src: &[u8; 16], dst: &[u8; 16]) -> (r: Vec<u8>)
    ensures
        r@ == icmpv6_error_bytes(message_type, src@, dst@),
{
    let mut m: Vec<u8> = vec![message_type, 0, 0, 0, 0, 0, 0, 0];
    proof {
        lemma_word_sum_bound(m@);
        lemma_word_sum_bound(src@);
        lemma_word_sum_bound(dst@);
    }
    let checksum = calculate_icmpv6_checksum(src, dst, m.as_slice());
    let c = u16_to_be(checksum);
    m.set(2, c[0]);
    m.set(3, c[1]);
    assert(m@ =~= icmpv6_error_bytes(message_type, src@, dst@));
    m
}


/// The 20-byte header of an outgoing IPv4 packet before its checksum:
/// version 4, length 20, don't fragment, TTL 64.
pub open spec fn outgoing_v4_header(src: Seq<u8>, dst: Seq<u8>, protocol: u8, total_length: u16) -> Seq<u8> {
    seq![0x45u8, 0u8] + be16(total_length) + seq![0u8, 0u8, 0x40u8, 0u8, 64u8, protocol, 0u8, 0u8] + src + dst
}

/// The same header with its checksum in place.
pub open spec fn with_checksum(h: Seq<u8>) -> Seq<u8> {
    h.update(10, be16(internet_checksum_spec(h))[0]).update(11, be16(internet_checksum_spec(h))[1])
}

/// The hardware address of an outgoing IPv4 frame: all ones for a
/// broadcast destination, else what the ARP cache holds, else all ones.
pub open spec fn v4_frame_destination(dst: NetworkAddress, arp_entry: Option<NetworkAddress>) -> NetworkAddress {
    if is_broadcast(dst) {
        NetworkAddress::Mac([255u8, 255u8, 255u8, 255u8, 255u8, 255u8])
    } else {
        match arp_entry {
            Some(m) => m,
            None => NetworkAddress::Mac([255u8, 255u8, 255u8, 255u8, 255u8, 255u8]),
        }
    }
}

/// Whether sending an IPv4 packet from `src` to `dst` calls for an ARP
/// request first: both addresses are IPv4, there is an interface, the
/// destination is not a broadcast address and the ARP cache holds nothing
/// for it. The frame then goes to the broadcast address
/// (`v4_frame_destination`) and the request is sent beside it.
pub open spec fn arp_request_due_spec(
    src: NetworkAddress,
    dst: NetworkAddress,
    interface_mac: Option<NetworkAddress>,
    arp_entry: Option<NetworkAddress>,
) -> bool {
    &&& src is IPv4
    &&& dst is IPv4
    &&& interface_mac is Some
    &&& !is_broadcast(dst)
    &&& arp_entry is None
}

/// Whether `send_ipv4_packet` with these arguments calls for an ARP
/// request for `dst` (`arp_request_due_spec`).
pub fn arp_request_due(
    src: &NetworkAddress,
    dst: &NetworkAddress,
    interface_mac: &Option<NetworkAddress>,
    arp_entry: &Option<NetworkAddress>,
) -> (r: bool)
    ensures
        r == arp_request_due_spec(*src, *dst, *interface_mac, *arp_entry),
{
    let both_v4 = match (src, dst) {
        (NetworkAddress::IPv4(_), NetworkAddress::IPv4(_)) => true,
        _ => false,
    };
    both_v4 && interface_mac.is_some() && !is_broadcast_address(dst) && arp_entry.is_none()
}

/// The bytes of a hardware address (none for another family).
pub open spec fn mac_bytes(a: NetworkAddress) -> Seq<u8> {
    match a {
        NetworkAddress::Mac(b) => b@,
        _ => Seq::empty(),
    }
}

/// The length a total-length field holds for `n` payload bytes.
pub open spec fn total_length_of(n: nat) -> u16 {
    (IPV4_HEADER_MIN_SIZE + n) as u16
}

fn total_length_for(n: usize) -> (r: u16)
    requires
        n + IPV4_HEADER_MIN_SIZE <= usize::MAX,
    ensures
        r == total_length_of(n as nat),
{
    (IPV4_HEADER_MIN_SIZE + n) as u16
}

fn payload_length_for(n: usize) -> (r: u16)
    ensures
        r == n as u16,
{
    n as u16
}

/// The Ethernet frame that carries `payload` from `src_ip` to `dst_ip`
/// over IPv4, for the caller to transmit on the interface whose hardware
/// address is `interface_mac` (`None`: there is no interface), with
/// `arp_entry` what the ARP cache holds for `dst_ip`. `InvalidAddress` for
/// addresses that are not IPv4 or hardware addresses that are not MACs;
/// `NetworkUnreachable` without an interface. On a cache miss the frame
/// goes to the broadcast address and an ARP request for `dst_ip` is due
/// beside it (`arp_request_due`).
pub fn send_ipv4_packet(
    src_ip: NetworkAddress,
    dst_ip: NetworkAddress,
    protocol: u8,
    payload: &[u8],
    interface_mac: Option<NetworkAddress>,
    arp_entry: Option<NetworkAddress>,
) -> (r: NetworkResult<Vec<u8>>)
    requires
        payload@.len() + 64 <= usize::MAX,
    ensures
        !(src_ip is IPv4) ==> r == Err::<Vec<u8>, NetworkError>(NetworkError::InvalidAddress),
        src_ip is IPv4 && !(dst_ip is IPv4) ==> r == Err::<Vec<u8>, NetworkError>(NetworkError::InvalidAddress),
        src_ip is IPv4 && dst_ip is IPv4 && interface_mac is None ==> r == Err::<Vec<u8>, NetworkError>(
            NetworkError::NetworkUnreachable,
        ),
        src_ip is IPv4 && dst_ip is IPv4 && interface_mac is Some ==> ({
            let dest = v4_frame_destination(dst_ip, arp_entry);
            let smac = interface_mac.unwrap();
            &&& !(dest is Mac && smac is Mac) ==> r == Err::<Vec<u8>, NetworkError>(NetworkError::InvalidAddress)
            &&& (dest is Mac && smac is Mac) ==> (r matches Ok(f) && f@ == mac_bytes(dest) + mac_bytes(smac) + seq![
                0x08u8,
                0x00u8,
            ] + with_checksum(
                outgoing_v4_header(
                    ipv4_bytes(src_ip),
                    ipv4_bytes(dst_ip),
                    protocol,
                    total_length_of(payload@.len()),
                ),
            ) + payload@)
        }),
{
    let src = match src_ip {
        NetworkAddress::IPv4(a) => a,
        _ => {
            return Err(NetworkError::InvalidAddress);
        },
    };
    let dst = match dst_ip {
        NetworkAddress::IPv4(a) => a,
        _ => {
            return Err(NetworkError::InvalidAddress);
        },
    };
    let total_length = total_length_for(payload.len());
    let mut header: Vec<u8> = vec![0x45, 0x00];
    push_all(&mut header, &u16_to_be(total_length));
    push_all(&mut header, &[0x00, 0x00, 0x40, 0x00, 64, protocol, 0x00, 0x00]);
    push_all(&mut header, &src);
    push_all(&mut header, &dst);
    let ghost h0 = header@;
    assert(h0 =~= outgoing_v4_header(src@, dst@, protocol, total_length));
    proof {
        lemma_word_sum_bound(h0);
    }
    let checksum = calculate_ip_checksum(header.as_slice());
    let c = u16_to_be(checksum);
    header.set(10, c[0]);
    header.set(11, c[1]);
    assert(header@ =~= with_checksum(h0));
    let smac = match interface_mac {
        Some(m) => m,
        None => {
            return Err(NetworkError::NetworkUnreachable);
        },
    };
    let dest_mac = if is_broadcast_address(&dst_ip) {
        NetworkAddress::Mac([0xFF, 0xFF, 0xFF, 0xFF, 0xFF, 0xFF])
    } else {
        match arp_entry {
            Some(m) => m,
            None => NetworkAddress::Mac([0xFF, 0xFF, 0xFF, 0xFF, 0xFF, 0xFF]),
        }
    };
    let mut frame: Vec<u8> = Vec::new();
    match dest_mac {
        NetworkAddress::Mac(m) => push_all(&mut frame, &m),
        _ => {
            return Err(NetworkError::InvalidAddress);
        },
    }
    match smac {
        NetworkAddress::Mac(m) => push_all(&mut frame, &m),
        _ => {
            return Err(NetworkError::InvalidAddress);
        },
    }
    push_all(&mut frame, &[0x08, 0x00]);
    push_all(&mut frame, header.as_slice());
    push_all(&mut frame, payload);
    Ok(frame)
}

/// The hardware address of an outgoing IPv6 frame: `33:33` and the last
/// four bytes of a multicast destination, else all ones.
pub open spec fn v6_frame_destination(dst: NetworkAddress) -> NetworkAddress {
    match dst {
        NetworkAddress::IPv6(a) => if is_broadcast(dst) || is_multicast(dst) {
            NetworkAddress::Mac([0x33u8, 0x33u8, a[12], a[13], a[14], a[15]])
        } else {
            NetworkAddress::Mac([255u8, 255u8, 255u8, 255u8, 255u8, 255u8])
        },
        _ => NetworkAddress::Mac([255u8, 255u8, 255u8, 255u8, 255u8, 255u8]),
    }
}

/// The 40-byte header of an outgoing IPv6 packet: version 6, hop limit 64.
pub open spec fn outgoing_v6_header(src: Seq<u8>, dst: Seq<u8>, next_header: u8, payload_length: u16) -> Seq<u8> {
    be32(0x60000000u32) + be16(payload_length) + seq![next_header, 64u8] + src + dst
}

/// The Ethernet frame that carries `payload` from `src_ip` to `dst_ip`
/// over IPv6, for the caller to transmit on the interface whose hardware
/// address is `interface_mac` (`None`: there is no interface).
/// `InvalidAddress` for addresses that are not IPv6 or an interface
/// address that is not a MAC; `NetworkUnreachable` without an interface.
pub fn send_ipv6_packet(
    src_ip: NetworkAddress,
    dst_ip: NetworkAddress,
    next_header: u8,
    payload: &[u8],
    interface_mac: Option<NetworkAddress>,
) -> (r: NetworkResult<Vec<u8>>)
    requires
        payload@.len() + 64 <= usize::MAX,
    ensures
        !(src_ip is IPv6) ==> r == Err::<Vec<u8>, NetworkError>(NetworkError::InvalidAddress),
        src_ip is IPv6 && !(dst_ip is IPv6) ==> r == Err::<Vec<u8>, NetworkError>(NetworkError::InvalidAddress),
        src_ip is IPv6 && dst_ip is IPv6 && interface_mac is None ==> r == Err::<Vec<u8>, NetworkError>(
            NetworkError::NetworkUnreachable,
        ),
        src_ip is IPv6 && dst_ip is IPv6 && interface_mac is Some ==> ({
            let smac = interface_mac.unwrap();
            &&& !(smac is Mac) ==> r == Err::<Vec<u8>, NetworkError>(NetworkError::InvalidAddress)
            &&& smac is Mac ==> (r matches Ok(f) && f@ == mac_bytes(v6_frame_destination(dst_ip)) + mac_bytes(smac)
                + seq![0x86u8, 0xDDu8] + outgoing_v6_header(
                ipv6_bytes(src_ip),
                ipv6_bytes(dst_ip),
                next_header,
                payload@.len() as u16,
            ) + payload@)
        }),
{
    let src = match src_ip {
        NetworkAddress::IPv6(a) => a,
        _ => {
            return Err(NetworkError::InvalidAddress);
        },
    };
    let dst = match dst_ip {
        NetworkAddress::IPv6(a) => a,
        _ => {
            return Err(NetworkError::InvalidAddress);
        },
    };
    let payload_length = payload_length_for(payload.len());
    let mut header: Vec<u8> = Vec::new();
    push_all(&mut header, &u32_to_be(0x60000000u32));
    push_all(&mut header, &u16_to_be(payload_length));
    header.push(next_header);
    header.push(64);
    push_all(&mut header, &src);
    push_all(&mut header, &dst);
    push_all(&mut header, payload);
    let smac = match interface_mac {
        Some(m) => m,
        None => {
            return Err(NetworkError::NetworkUnreachable);
        },
    };
    let dest_mac = if is_broadcast_address(&dst_ip) || is_multicast_address(&dst_ip) {
        NetworkAddress::Mac([0x33, 0x33, dst[12], dst[13], dst[14], dst[15]])
    } else {
        NetworkAddress::Mac([0xFF, 0xFF, 0xFF, 0xFF, 0xFF, 0xFF])
    };
    let mut frame: Vec<u8> = Vec::new();
    match dest_mac {
        NetworkAddress::Mac(m) => push_all(&mut frame, &m),
        _ => {},
    }
    match smac {
        NetworkAddress::Mac(m) => push_all(&mut frame, &m),
        _ => {
            return Err(NetworkError::InvalidAddress);
        },
    }
    push_all(&mut frame, &[0x86, 0xDD]);
    push_all(&mut frame, header.as_slice());
    assert(frame@ =~= mac_bytes(v6_frame_destination(dst_ip)) + mac_bytes(smac) + seq![0x86u8, 0xDDu8]
        + outgoing_v6_header(src@, dst@, next_header, payload@.len() as u16) + payload@);
    Ok(frame)
}


/// Reading an IPv6 header that was written gives it back.
pub proof fn lemma_ipv6_header_roundtrip(h: IPv6Header)
    requires
        h.source is IPv6,
        h.destination is IPv6,
    ensures
        ipv6_header_bytes(h).len() == IPV6_HEADER_SIZE,
        ipv6_read(ipv6_header_bytes(h), h),
{
    let d = ipv6_header_bytes(h);
    crate::net::wire::lemma_be32_roundtrip(h.version_tc_fl);
    crate::net::wire::lemma_be16_roundtrip(h.payload_length);
    match (h.source, h.destination) {
        (NetworkAddress::IPv6(s), NetworkAddress::IPv6(t)) => {
            assert(d.subrange(8, 24) =~= s@);
            assert(d.subrange(24, 40) =~= t@);
            assert(s =~= [d[8], d[9], d[10], d[11], d[12], d[13], d[14], d[15], d[16], d[17], d[18], d[19], d[20], d[21], d[22], d[23]]);
            assert(t =~= [d[24], d[25], d[26], d[27], d[28], d[29], d[30], d[31], d[32], d[33], d[34], d[35], d[36], d[37], d[38], d[39]]);
        },
        _ => {},
    }
}

/// Reading an IPv4 header that was written gives it back, where its
/// header length field counts its options.
pub proof fn lemma_ipv4_header_roundtrip(h: IPv4Header)
    requires
        h.source is IPv4,
        h.destination is IPv4,
        (h.version_ihl % 16) * 4 == 20 + h.options@.len(),
    ensures
        ipv4_header_bytes(h).len() == 20 + h.options@.len(),
        ipv4_read(ipv4_header_bytes(h), h),
{
    let d = ipv4_header_bytes(h);
    crate::net::wire::lemma_be16_roundtrip(h.total_length);
    crate::net::wire::lemma_be16_roundtrip(h.identification);
    crate::net::wire::lemma_be16_roundtrip(h.flags_fragment);
    crate::net::wire::lemma_be16_roundtrip(h.checksum);
    assert(d.subrange(20, ihl_length(d)) =~= h.options@);
    match (h.source, h.destination) {
        (NetworkAddress::IPv4(s), NetworkAddress::IPv4(t)) => {
            assert(s =~= [d[12], d[13], d[14], d[15]]);
            assert(t =~= [d[16], d[17], d[18], d[19]]);
        },
        _ => {},
    }
}

/// A forwarded header carries a right checksum: the next router's check
/// accepts it.
pub proof fn lemma_forwarded_checksum_ok(h: IPv4Header)
    ensures
        ipv4_checksum_ok(ipv4_hop(h)),
{
}

} // verus!
