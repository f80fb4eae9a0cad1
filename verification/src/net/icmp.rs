//! ICMP and ICMPv6: message headers and their checksums, echo (ping)
//! sessions, the IPv6 neighbor cache, and what an incoming message asks
//! for.
//!
//! The clock, the interfaces and sending stay with the caller: the
//! functions here take the current time and the interfaces' addresses as
//! arguments and return the messages to send.
use vstd::prelude::*;
use crate::net::types::{NetworkAddress, NetworkError, NetworkResult};
use crate::net::buffer::PacketBuffer;
use crate::net::wire::{be16, from_be16, be_to_u16, u16_to_be, push_all, copy_range};
use crate::net::checksum::{word_sum, ones_complement, fold_and_complement, add_words, lemma_word_sum_bound};
use crate::net::ip::{calculate_icmpv6_checksum, v6_pseudo_sum};

verus! {

/// ICMP (IPv4) message types.
#[derive(Debug, Clone, Copy, PartialEq, Eq, Structural)]
pub enum IcmpType {
    EchoReply,
    DestinationUnreachable,
    SourceQuench,
    Redirect,
    EchoRequest,
    RouterAdvertisement,
    RouterSolicitation,
    TimeExceeded,
    ParameterProblem,
    TimestampRequest,
    TimestampReply,
    InformationRequest,
    InformationReply,
}

/// The type number of an ICMP message type.
pub open spec fn v4_type_number(t: IcmpType) -> u8 {
    match t {
        IcmpType::EchoReply => 0,
        IcmpType::DestinationUnreachable => 3,
        IcmpType::SourceQuench => 4,
        IcmpType::Redirect => 5,
        IcmpType::EchoRequest => 8,
        IcmpType::RouterAdvertisement => 9,
        IcmpType::RouterSolicitation => 10,
        IcmpType::TimeExceeded => 11,
        IcmpType::ParameterProblem => 12,
        IcmpType::TimestampRequest => 13,
        IcmpType::TimestampReply => 14,
        IcmpType::InformationRequest => 15,
        IcmpType::InformationReply => 16,
    }
}

impl IcmpType {
    /// The type number.
    pub fn number(&self) -> (r: u8)
        ensures
            r == v4_type_number(*self),
    {
        match self {
            IcmpType::EchoReply => 0,
            IcmpType::DestinationUnreachable => 3,
            IcmpType::SourceQuench => 4,
            IcmpType::Redirect => 5,
            IcmpType::EchoRequest => 8,
            IcmpType::RouterAdvertisement => 9,
            IcmpType::RouterSolicitation => 10,
            IcmpType::TimeExceeded => 11,
            IcmpType::ParameterProblem => 12,
            IcmpType::TimestampRequest => 13,
            IcmpType::TimestampReply => 14,
            IcmpType::InformationRequest => 15,
            IcmpType::InformationReply => 16,
        }
    }
}

/// ICMPv6 message types.
#[derive(Debug, Clone, Copy, PartialEq, Eq, Structural)]
pub enum Icmpv6Type {
    DestinationUnreachable,
    PacketTooBig,
    TimeExceeded,
    ParameterProblem,
    EchoRequest,
    EchoReply,
    RouterSolicitation,
    RouterAdvertisement,
    NeighborSolicitation,
    NeighborAdvertisement,
    Redirect,
}

/// The type number of an ICMPv6 message type.
pub open spec fn v6_type_number(t: Icmpv6Type) -> u8 {
    match t {
        Icmpv6Type::DestinationUnreachable => 1,
        Icmpv6Type::PacketTooBig => 2,
        Icmpv6Type::TimeExceeded => 3,
        Icmpv6Type::ParameterProblem => 4,
        Icmpv6Type::EchoRequest => 128,
        Icmpv6Type::EchoReply => 129,
        Icmpv6Type::RouterSolicitation => 133,
        Icmpv6Type::RouterAdvertisement => 134,
        Icmpv6Type::NeighborSolicitation => 135,
        Icmpv6Type::NeighborAdvertisement => 136,
        Icmpv6Type::Redirect => 137,
    }
}

impl Icmpv6Type {
    /// The type number.
    pub fn number(&self) -> (r: u8)
        ensures
            r == v6_type_number(*self),
    {
        match self {
            Icmpv6Type::DestinationUnreachable => 1,
            Icmpv6Type::PacketTooBig => 2,
            Icmpv6Type::TimeExceeded => 3,
            Icmpv6Type::ParameterProblem => 4,
            Icmpv6Type::EchoRequest => 128,
            Icmpv6Type::EchoReply => 129,
            Icmpv6Type::RouterSolicitation => 133,
            Icmpv6Type::RouterAdvertisement => 134,
            Icmpv6Type::NeighborSolicitation => 135,
            Icmpv6Type::NeighborAdvertisement => 136,
            Icmpv6Type::Redirect => 137,
        }
    }
}

/// The 8-byte header of an ICMP or ICMPv6 message.
#[derive(Debug, Clone, Copy)]
pub struct IcmpHeader {
    pub icmp_type: u8,
    pub code: u8,
    pub checksum: u16,
    pub rest: [u8; 4],
}

/// The ICMPv6 header has the same layout.
pub type Icmpv6Header = IcmpHeader;

/// `h` is the header written at the start of `d`.
pub open spec fn header_read(d: Seq<u8>, h: IcmpHeader) -> bool {
    &&& h.icmp_type == d[0]
    &&& h.code == d[1]
    &&& h.checksum == from_be16(d[2], d[3])
    &&& h.rest@ == d.subrange(4, 8)
}

/// The words that an ICMP checksum sums: type and code, the rest of the
/// header and the payload (the checksum field left out).
pub open spec fn message_sum(h: IcmpHeader, payload: Seq<u8>) -> nat {
    word_sum(seq![h.icmp_type, h.code]) + word_sum(h.rest@) + word_sum(payload)
}

/// The header as written on the wire.
pub open spec fn header_bytes(h: IcmpHeader) -> Seq<u8> {
    seq![h.icmp_type, h.code] + be16(h.checksum) + h.rest@
}

/// The four bytes of `d` from `at` as an array.
fn bytes4(d: &[u8], at: usize) -> (r: [u8; 4])
    requires
        at + 4 <= d@.len(),
    ensures
        r@ == d@.subrange(at as int, at + 4),
{
    let r = [d[at], d[at + 1], d[at + 2], d[at + 3]];
    assert(r@ =~= d@.subrange(at as int, at + 4));
    r
}

impl IcmpHeader {
    /// Reads a header from the readable bytes of `buffer`: `InvalidPacket`
    /// for fewer than 8 bytes (nothing consumed), else the header (8 bytes
    /// consumed).
    pub fn parse(buffer: &mut PacketBuffer) -> (r: NetworkResult<Self>)
        requires
            old(buffer).wf(),
        ensures
            final(buffer).wf(),
            final(buffer).storage() == old(buffer).storage(),
            final(buffer).write_pos_spec() == old(buffer).write_pos_spec(),
            final(buffer).length_spec() == old(buffer).length_spec(),
            final(buffer).meta() == old(buffer).meta(),
            ({
                let d = old(buffer).readable_spec();
                &&& d.len() < 8 ==> r == Err::<IcmpHeader, NetworkError>(NetworkError::InvalidPacket)
                    && final(buffer).read_pos_spec() == old(buffer).read_pos_spec()
                &&& d.len() >= 8 ==> (r matches Ok(h) && header_read(d, h) && final(buffer).read_pos_spec()
                    == old(buffer).read_pos_spec() + 8)
            }),
    {
        let d = buffer.readable_data();
        if d.len() < 8 {
            return Err(NetworkError::InvalidPacket);
        }
        let header = IcmpHeader { icmp_type: d[0], code: d[1], checksum: be_to_u16(d[2], d[3]), rest: bytes4(d, 4) };
        buffer.consume(8);
        Ok(header)
    }

    /// The checksum of this header with `payload`: the Internet checksum of
    /// type and code, the rest of the header and the payload.
    pub fn calculate_checksum(&self, payload: &[u8]) -> (r: u16)
        requires
            message_sum(*self, payload@) <= u32::MAX,
        ensures
            r == ones_complement(message_sum(*self, payload@)),
    {
        let sum = add_words(0, &[self.icmp_type, self.code]);
        let sum = add_words(sum, &self.rest);
        let sum = add_words(sum, payload);
        assert([self.icmp_type, self.code]@ =~= seq![self.icmp_type, self.code]);
        fold_and_complement(sum)
    }

    /// The header as written on the wire.
    pub fn to_bytes(&self) -> (r: Vec<u8>)
        ensures
            r@ == header_bytes(*self),
    {
        let mut out: Vec<u8> = vec![self.icmp_type, self.code];
        push_all(&mut out, &u16_to_be(self.checksum));
        push_all(&mut out, &self.rest);
        assert(out@ =~= header_bytes(*self));
        out
    }
}


/// The space after the write position of `b`.
pub open spec fn space_of(b: PacketBuffer) -> int {
    b.storage().len() - b.write_pos_spec()
}

/// `b1` is `b0` after writing the first `n` bytes of `bytes` at its write
/// position.
pub open spec fn wrote_prefix(b0: PacketBuffer, b1: PacketBuffer, bytes: Seq<u8>, n: int) -> bool {
    let w = b0.write_pos_spec() as int;
    &&& b1.storage() == b0.storage().subrange(0, w) + bytes.subrange(0, n) + b0.storage().subrange(
        w + n,
        b0.storage().len() as int,
    )
    &&& b1.write_pos_spec() == w + n
    &&& b1.length_spec() == if b0.length_spec() > w + n {
        b0.length_spec() as int
    } else {
        w + n
    }
    &&& b1.read_pos_spec() == b0.read_pos_spec()
    &&& b1.meta() == b0.meta()
}

/// Writing nothing leaves a well-formed buffer as it was.
proof fn lemma_prefix_none(b: PacketBuffer, bytes: Seq<u8>)
    requires
        b.write_pos_spec() <= b.length_spec() <= b.storage().len(),
    ensures
        wrote_prefix(b, b, bytes, 0),
{
    let w = b.write_pos_spec() as int;
    assert(b.storage().subrange(0, w) + bytes.subrange(0, 0) + b.storage().subrange(w, b.storage().len() as int)
        =~= b.storage());
}

/// Writing the first `n` bytes of `bytes`, then the first `k` bytes of the
/// next piece, writes the first `n + k` bytes.
proof fn lemma_prefix_chain(
    b0: PacketBuffer,
    b1: PacketBuffer,
    b2: PacketBuffer,
    bytes: Seq<u8>,
    n: int,
    chunk: Seq<u8>,
    k: int,
)
    requires
        0 <= n,
        0 <= k <= chunk.len(),
        n + k <= bytes.len(),
        chunk.subrange(0, k) == bytes.subrange(n, n + k),
        wrote_prefix(b0, b1, bytes, n),
        wrote_prefix(b1, b2, chunk, k),
        b0.write_pos_spec() + n + k <= b0.storage().len(),
    ensures
        wrote_prefix(b0, b2, bytes, n + k),
{
    let w = b0.write_pos_spec() as int;
    let len = b0.storage().len() as int;
    assert(b1.storage().len() == len);
    assert(b1.storage().subrange(0, w + n) + chunk.subrange(0, k) + b1.storage().subrange(w + n + k, len)
        =~= b0.storage().subrange(0, w) + bytes.subrange(0, n + k) + b0.storage().subrange(w + n + k, len));
}

impl IcmpHeader {
    /// Writes the header to `buffer` field by field (type, code, checksum,
    /// rest), each write taking what fits; a write with no room fails with
    /// `BufferTooSmall` and stops. So with room for at least five bytes
    /// the call succeeds, writing up to eight.
    #[verifier::spinoff_prover]
    #[verifier::rlimit(40)]
    pub fn serialize(&self, buffer: &mut PacketBuffer) -> (r: NetworkResult<()>)
        requires
            old(buffer).wf(),
        ensures
            final(buffer).wf(),
            ({
                let s = space_of(*old(buffer));
                let n = if s < 8 {
                    s
                } else {
                    8
                };
                &&& wrote_prefix(*old(buffer), *final(buffer), header_bytes(*self), n)
                &&& (r is Ok <==> s >= 5)
                &&& r is Err ==> r == Err::<(), NetworkError>(NetworkError::BufferTooSmall)
            }),
    {
        let ghost b0 = *buffer;
        let ghost hb = header_bytes(*self);
        proof {
            buffer.lemma_wf();
            lemma_prefix_none(b0, hb);
        }
        let t = [self.icmp_type];
        let r1 = buffer.write(&t);
        proof {
            if r1 is Err {
                lemma_prefix_none(b0, t@);
            }
            assert(t@.subrange(0, buffer.write_pos_spec() - b0.write_pos_spec()) =~= hb.subrange(
                0,
                buffer.write_pos_spec() - b0.write_pos_spec(),
            ));
            lemma_prefix_chain(b0, b0, *buffer, hb, 0, t@, buffer.write_pos_spec() - b0.write_pos_spec());
        }
        if r1.is_err() {
            return Err(NetworkError::BufferTooSmall);
        }
        let ghost b1 = *buffer;
        let ghost n1 = b1.write_pos_spec() - b0.write_pos_spec();
        let cd = [self.code];
        let r2 = buffer.write(&cd);
        proof {
            b1.lemma_wf();
            if r2 is Err {
                lemma_prefix_none(b1, cd@);
            }
            assert(cd@.subrange(0, buffer.write_pos_spec() - b1.write_pos_spec()) =~= hb.subrange(
                n1,
                n1 + buffer.write_pos_spec() - b1.write_pos_spec(),
            ));
            lemma_prefix_chain(b0, b1, *buffer, hb, n1, cd@, buffer.write_pos_spec() - b1.write_pos_spec());
        }
        if r2.is_err() {
            return Err(NetworkError::BufferTooSmall);
        }
        let ghost b2 = *buffer;
        let ghost n2 = b2.write_pos_spec() - b0.write_pos_spec();
        let c = u16_to_be(self.checksum);
        let r3 = buffer.write(&c);
        proof {
            b2.lemma_wf();
            if r3 is Err {
                lemma_prefix_none(b2, c@);
            }
            assert(c@.subrange(0, buffer.write_pos_spec() - b2.write_pos_spec()) =~= hb.subrange(
                n2,
                n2 + buffer.write_pos_spec() - b2.write_pos_spec(),
            ));
            lemma_prefix_chain(b0, b2, *buffer, hb, n2, c@, buffer.write_pos_spec() - b2.write_pos_spec());
        }
        if r3.is_err() {
            return Err(NetworkError::BufferTooSmall);
        }
        let ghost b3 = *buffer;
        let ghost n3 = b3.write_pos_spec() - b0.write_pos_spec();
        let r4 = buffer.write(&self.rest);
        proof {
            b3.lemma_wf();
            if r4 is Err {
                lemma_prefix_none(b3, self.rest@);
            }
            assert(self.rest@.subrange(0, buffer.write_pos_spec() - b3.write_pos_spec()) =~= hb.subrange(
                n3,
                n3 + buffer.write_pos_spec() - b3.write_pos_spec(),
            ));
            lemma_prefix_chain(b0, b3, *buffer, hb, n3, self.rest@, buffer.write_pos_spec() - b3.write_pos_spec());
        }
        if r4.is_err() {
            return Err(NetworkError::BufferTooSmall);
        }
        Ok(())
    }
}


/// The data of an echo request or reply.
#[derive(Debug, Clone)]
pub struct PingData {
    pub identifier: u16,
    pub sequence: u16,
    pub payload: Vec<u8>,
    pub timestamp: u64,
}

impl PingData {
    /// Echo data stamped with `timestamp` (milliseconds).
    pub fn new(identifier: u16, sequence: u16, payload: Vec<u8>, timestamp: u64) -> (r: Self)
        ensures
            r.identifier == identifier,
            r.sequence == sequence,
            r.payload@ == payload@,
            r.timestamp == timestamp,
    {
        PingData { identifier, sequence, payload, timestamp }
    }

    /// Echo data from the rest of a header: identifier and sequence, big
    /// endian.
    pub fn from_rest_bytes(rest: &[u8; 4], payload: Vec<u8>, timestamp: u64) -> (r: Self)
        ensures
            r.identifier == from_be16(rest[0], rest[1]),
            r.sequence == from_be16(rest[2], rest[3]),
            r.payload@ == payload@,
            r.timestamp == timestamp,
    {
        PingData { identifier: be_to_u16(rest[0], rest[1]), sequence: be_to_u16(rest[2], rest[3]), payload, timestamp }
    }

    /// The rest of a header that carries this data.
    pub fn to_rest_bytes(&self) -> (r: [u8; 4])
        ensures
            r@ == be16(self.identifier) + be16(self.sequence),
    {
        let a = u16_to_be(self.identifier);
        let b = u16_to_be(self.sequence);
        let r = [a[0], a[1], b[0], b[1]];
        assert(r@ =~= be16(self.identifier) + be16(self.sequence));
        r
    }
}

/// The bytes of an echo message of type `message_type` (ICMP, 8 request
/// or 0 reply): the header with its checksum, then the payload.
pub open spec fn echo_bytes(message_type: u8, identifier: u16, sequence: u16, payload: Seq<u8>) -> Seq<u8> {
    let h = IcmpHeader { icmp_type: message_type, code: 0, checksum: 0, rest: [be16(identifier)[0], be16(identifier)[1], be16(sequence)[0], be16(sequence)[1]] };
    header_bytes(IcmpHeader { checksum: ones_complement(message_sum(h, payload)), ..h }) + payload
}

/// The echo message of type `message_type` (8 request, 0 reply) that
/// carries `identifier`, `sequence` and `payload`.
pub fn echo_packet(message_type: u8, identifier: u16, sequence: u16, payload: &[u8]) -> (r: Vec<u8>)
    requires
        payload@.len() <= 65535,
    ensures
        r@ == echo_bytes(message_type, identifier, sequence, payload@),
{
    let data = PingData::new(identifier, sequence, Vec::new(), 0);
    let mut header = IcmpHeader { icmp_type: message_type, code: 0, checksum: 0, rest: data.to_rest_bytes() };
    proof {
        lemma_word_sum_bound(payload@);
        lemma_word_sum_bound(header.rest@);
        lemma_word_sum_bound(seq![message_type, 0u8]);
    }
    header.checksum = header.calculate_checksum(payload);
    let mut out = header.to_bytes();
    push_all(&mut out, payload);
    proof {
        let h = IcmpHeader { icmp_type: message_type, code: 0, checksum: 0, rest: [be16(identifier)[0], be16(identifier)[1], be16(sequence)[0], be16(sequence)[1]] };
        assert(h.rest@ =~= header.rest@);
        assert(header_bytes(header) =~= header_bytes(IcmpHeader { checksum: ones_complement(message_sum(h, payload@)), ..h }));
    }
    out
}

/// The bytes of an ICMPv6 message of type `message_type` with code zero,
/// the four bytes `rest` and `body`, checksummed between `src` and `dst`.
pub open spec fn v6_message_bytes(message_type: u8, rest: Seq<u8>, body: Seq<u8>, src: Seq<u8>, dst: Seq<u8>) -> Seq<u8> {
    let zeroed = seq![message_type, 0u8, 0u8, 0u8] + rest + body;
    seq![message_type, 0u8] + be16(ones_complement(v6_pseudo_sum(src, dst, zeroed))) + rest + body
}

/// The ICMPv6 message of type `message_type` with `rest` and `body`,
/// checksummed between `src` and `dst`.
pub fn v6_message(message_type: u8, rest: &[u8; 4], body: &[u8], src: &[u8; 16], dst: &[u8; 16]) -> (r: Vec<u8>)
    requires
        body@.len() <= 65535,
    ensures
        r@ == v6_message_bytes(message_type, rest@, body@, src@, dst@),
{
    let mut m: Vec<u8> = vec![message_type, 0, 0, 0];
    push_all(&mut m, rest);
    push_all(&mut m, body);
    proof {
        lemma_word_sum_bound(m@);
        lemma_word_sum_bound(src@);
        lemma_word_sum_bound(dst@);
        assert(m@ =~= seq![message_type, 0u8, 0u8, 0u8] + rest@ + body@);
    }
    let checksum = calculate_icmpv6_checksum(src, dst, m.as_slice());
    let c = u16_to_be(checksum);
    m.set(2, c[0]);
    m.set(3, c[1]);
    assert(m@ =~= v6_message_bytes(message_type, rest@, body@, src@, dst@));
    m
}

/// The ICMPv6 echo message of type `message_type` (128 request, 129
/// reply) from `src` to `dst`.
pub fn echo_v6_packet(
    message_type: u8,
    src: &[u8; 16],
    dst: &[u8; 16],
    identifier: u16,
    sequence: u16,
    payload: &[u8],
) -> (r: Vec<u8>)
    requires
        payload@.len() <= 65535,
    ensures
        r@ == v6_message_bytes(message_type, be16(identifier) + be16(sequence), payload@, src@, dst@),
{
    let data = PingData::new(identifier, sequence, Vec::new(), 0);
    let rest = data.to_rest_bytes();
    v6_message(message_type, &rest, payload, src, dst)
}

/// The body of a neighbor advertisement for `target` from an interface
/// with hardware address `mac`: solicited and override flags, the target,
/// and the target link-layer address option.
pub open spec fn advertisement_body(target: Seq<u8>, mac: Seq<u8>) -> Seq<u8> {
    seq![0x60u8, 0u8, 0u8, 0u8] + target + seq![2u8, 1u8] + mac
}

/// The neighbor advertisement (type 136) that answers a solicitation for
/// `target_ip` from `dst_ip`, sent from `src_ip` by the interface with
/// hardware address `our_mac`. `InvalidAddress` where the addresses are
/// not IPv6 or `our_mac` is no MAC.
pub fn neighbor_advertisement_packet(
    our_mac: NetworkAddress,
    src_ip: NetworkAddress,
    dst_ip: NetworkAddress,
    target_ip: NetworkAddress,
) -> (r: NetworkResult<Vec<u8>>)
    ensures
        match (src_ip, dst_ip, target_ip, our_mac) {
            (NetworkAddress::IPv6(s), NetworkAddress::IPv6(d), NetworkAddress::IPv6(t), NetworkAddress::Mac(m)) => r
                matches Ok(v) && v@ == v6_message_bytes(136u8, seq![0u8, 0u8, 0u8, 0u8], advertisement_body(t@, m@), s@, d@),
            _ => r == Err::<Vec<u8>, NetworkError>(NetworkError::InvalidAddress),
        },
{
    let (src, dst) = match (src_ip, dst_ip) {
        (NetworkAddress::IPv6(s), NetworkAddress::IPv6(d)) => (s, d),
        _ => {
            return Err(NetworkError::InvalidAddress);
        },
    };
    let mut body: Vec<u8> = vec![0x60, 0, 0, 0];
    match target_ip {
        NetworkAddress::IPv6(t) => push_all(&mut body, &t),
        _ => {
            return Err(NetworkError::InvalidAddress);
        },
    }
    body.push(2);
    body.push(1);
    match our_mac {
        NetworkAddress::Mac(m) => push_all(&mut body, &m),
        _ => {
            return Err(NetworkError::InvalidAddress);
        },
    }
    let zero4: [u8; 4] = [0, 0, 0, 0];
    proof {
        assert(zero4@ =~= seq![0u8, 0u8, 0u8, 0u8]);
        match (target_ip, our_mac) {
            (NetworkAddress::IPv6(t), NetworkAddress::Mac(m)) => {
                assert(body@ =~= advertisement_body(t@, m@));
            },
            _ => {},
        }
    }
    Ok(v6_message(136, &zero4, body.as_slice(), &src, &dst))
}


/// States of an IPv6 neighbor cache entry.
#[derive(Debug, Clone, Copy, PartialEq, Eq, Structural)]
pub enum NeighborState {
    Incomplete,
    Reachable,
    Stale,
    Delay,
    Probe,
}

/// An IPv6 neighbor cache entry.
#[derive(Debug, Clone, Copy)]
pub struct NeighborCacheEntry {
    pub ip_address: NetworkAddress,
    pub mac_address: Option<NetworkAddress>,
    pub state: NeighborState,
    pub last_update: u64,
    pub reachable_time: u64,
    pub retransmit_timer: u64,
}

/// A reply received in a ping session.
#[derive(Debug, Clone)]
pub struct PingReply {
    pub sequence: u16,
    pub rtt_ms: u32,
    pub payload: Vec<u8>,
}

/// A ping session: its target, the sequence numbers sent and when, and
/// the replies received.
#[derive(Debug)]
pub struct PingSession {
    pub target: NetworkAddress,
    pub identifier: u16,
    pub next_sequence: u16,
    pub sent_pings: Vec<(u16, u64)>,
    pub received_replies: Vec<PingReply>,
    pub timeout_ms: u32,
}

/// No key occurs twice among `s`.
pub open spec fn distinct_keys(s: Seq<(u16, u64)>) -> bool {
    forall|i: int, j: int| 0 <= i < j < s.len() ==> s[i].0 != s[j].0
}

/// The map that the pairs `s` hold.
pub open spec fn pairs_map(s: Seq<(u16, u64)>) -> Map<u16, u64>
    decreases s.len(),
{
    if s.len() == 0 {
        Map::empty()
    } else {
        pairs_map(s.drop_last()).insert(s.last().0, s.last().1)
    }
}

/// The session with identifier `id` among `v`, if any (the last one).
pub open spec fn find_session(v: Seq<PingSession>, id: u16) -> Option<PingSession>
    decreases v.len(),
{
    if v.len() == 0 {
        None
    } else if v.last().identifier == id {
        Some(v.last())
    } else {
        find_session(v.drop_last(), id)
    }
}

/// The neighbor entry for `ip` among `v`, if any (the last one).
pub open spec fn find_neighbor(v: Seq<NeighborCacheEntry>, ip: NetworkAddress) -> Option<NeighborCacheEntry>
    decreases v.len(),
{
    if v.len() == 0 {
        None
    } else if v.last().ip_address == ip {
        Some(v.last())
    } else {
        find_neighbor(v.drop_last(), ip)
    }
}

/// The ping and neighbor state.
#[derive(Debug)]
pub struct IcmpManager {
    ping_sessions: Vec<PingSession>,
    next_ping_id: u16,
    neighbor_cache: Vec<NeighborCacheEntry>,
}

proof fn lemma_find_session_set(v: Seq<PingSession>, i: int, s: PingSession, id: u16)
    requires
        0 <= i < v.len(),
        v[i].identifier == s.identifier,
        forall|a: int, b: int| 0 <= a < b < v.len() ==> v[a].identifier != v[b].identifier,
    ensures
        find_session(v.update(i, s), id) == if id == s.identifier {
            Some(s)
        } else {
            find_session(v, id)
        },
    decreases v.len(),
{
    let w = v.update(i, s);
    if i == v.len() - 1 {
        assert(w.drop_last() =~= v.drop_last());
    } else {
        assert(w.drop_last() =~= v.drop_last().update(i, s));
        lemma_find_session_set(v.drop_last(), i, s, id);
    }
}

proof fn lemma_find_session_index(v: Seq<PingSession>, id: u16)
    ensures
        find_session(v, id) is Some <==> exists|i: int| 0 <= i < v.len() && v[i].identifier == id,
        find_session(v, id) matches Some(s) ==> s.identifier == id,
    decreases v.len(),
{
    if v.len() > 0 {
        lemma_find_session_index(v.drop_last(), id);
        if find_session(v.drop_last(), id) is Some {
            let i = choose|i: int| 0 <= i < v.drop_last().len() && v.drop_last()[i].identifier == id;
            assert(v[i].identifier == id);
        }
        if exists|i: int| 0 <= i < v.len() && v[i].identifier == id {
            let i = choose|i: int| 0 <= i < v.len() && v[i].identifier == id;
            if i < v.len() - 1 {
                assert(v.drop_last()[i].identifier == id);
            }
        }
    }
}

proof fn lemma_find_session_push(v: Seq<PingSession>, s: PingSession, id: u16)
    ensures
        find_session(v.push(s), id) == if id == s.identifier {
            Some(s)
        } else {
            find_session(v, id)
        },
{
    assert(v.push(s).drop_last() =~= v);
}

proof fn lemma_find_session_remove(v: Seq<PingSession>, i: int, id: u16)
    requires
        0 <= i < v.len(),
        forall|a: int, b: int| 0 <= a < b < v.len() ==> v[a].identifier != v[b].identifier,
    ensures
        find_session(v.remove(i), id) == if id == v[i].identifier {
            None
        } else {
            find_session(v, id)
        },
    decreases v.len(),
{
    let w = v.remove(i);
    if i == v.len() - 1 {
        assert(w =~= v.drop_last());
        if id == v[i].identifier {
            lemma_find_session_index(w, id);
        }
    } else {
        assert(w.drop_last() =~= v.drop_last().remove(i));
        assert(w.last() == v.last());
        lemma_find_session_remove(v.drop_last(), i, id);
    }
}

proof fn lemma_find_neighbor_set(v: Seq<NeighborCacheEntry>, i: int, e: NeighborCacheEntry, ip: NetworkAddress)
    requires
        0 <= i < v.len(),
        v[i].ip_address == e.ip_address,
        forall|a: int, b: int| 0 <= a < b < v.len() ==> v[a].ip_address != v[b].ip_address,
    ensures
        find_neighbor(v.update(i, e), ip) == if ip == e.ip_address {
            Some(e)
        } else {
            find_neighbor(v, ip)
        },
    decreases v.len(),
{
    let w = v.update(i, e);
    if i == v.len() - 1 {
        assert(w.drop_last() =~= v.drop_last());
    } else {
        assert(w.drop_last() =~= v.drop_last().update(i, e));
        lemma_find_neighbor_set(v.drop_last(), i, e, ip);
    }
}

proof fn lemma_find_neighbor_push(v: Seq<NeighborCacheEntry>, e: NeighborCacheEntry, ip: NetworkAddress)
    ensures
        find_neighbor(v.push(e), ip) == if ip == e.ip_address {
            Some(e)
        } else {
            find_neighbor(v, ip)
        },
{
    assert(v.push(e).drop_last() =~= v);
}

proof fn lemma_find_neighbor_absent(v: Seq<NeighborCacheEntry>, ip: NetworkAddress)
    requires
        forall|a: int| 0 <= a < v.len() ==> v[a].ip_address != ip,
    ensures
        find_neighbor(v, ip) is None,
    decreases v.len(),
{
    if v.len() > 0 {
        lemma_find_neighbor_absent(v.drop_last(), ip);
    }
}

proof fn lemma_find_neighbor_at(v: Seq<NeighborCacheEntry>, i: int)
    requires
        0 <= i < v.len(),
        forall|a: int, b: int| 0 <= a < b < v.len() ==> v[a].ip_address != v[b].ip_address,
    ensures
        find_neighbor(v, v[i].ip_address) == Some(v[i]),
    decreases v.len(),
{
    if i < v.len() - 1 {
        lemma_find_neighbor_at(v.drop_last(), i);
    }
}

proof fn lemma_find_session_at(v: Seq<PingSession>, i: int)
    requires
        0 <= i < v.len(),
        forall|a: int, b: int| 0 <= a < b < v.len() ==> v[a].identifier != v[b].identifier,
    ensures
        find_session(v, v[i].identifier) == Some(v[i]),
    decreases v.len(),
{
    if i < v.len() - 1 {
        lemma_find_session_at(v.drop_last(), i);
    }
}

/// A new session's values: sequence 1, nothing sent or received, a
/// timeout of five seconds.
pub open spec fn fresh_session(s: PingSession, target: NetworkAddress, id: u16) -> bool {
    &&& s.target == target
    &&& s.identifier == id
    &&& s.next_sequence == 1
    &&& s.sent_pings@.len() == 0
    &&& s.received_replies@.len() == 0
    &&& s.timeout_ms == 5000
}

impl IcmpManager {
    /// No identifier occurs twice among the sessions, no sequence number
    /// twice in a session, no address twice in the neighbor cache.
    pub open spec fn wf(&self) -> bool {
        &&& forall|a: int, b: int|
            0 <= a < b < self.sessions().len() ==> self.sessions()[a].identifier != self.sessions()[b].identifier
        &&& forall|a: int| 0 <= a < self.sessions().len() ==> distinct_keys(#[trigger] self.sessions()[a].sent_pings@)
        &&& forall|a: int, b: int|
            0 <= a < b < self.neighbors().len() ==> self.neighbors()[a].ip_address != self.neighbors()[b].ip_address
    }

    /// The sessions.
    pub closed spec fn sessions(&self) -> Seq<PingSession> {
        self.ping_sessions@
    }

    /// The neighbor cache.
    pub closed spec fn neighbors(&self) -> Seq<NeighborCacheEntry> {
        self.neighbor_cache@
    }

    /// The identifier the next session gets.
    pub closed spec fn next_id(&self) -> u16 {
        self.next_ping_id
    }

    /// No sessions, no neighbors; identifiers start at 1.
    pub fn new() -> (r: Self)
        ensures
            r.wf(),
            r.sessions().len() == 0,
            r.neighbors().len() == 0,
            r.next_id() == 1,
    {
        IcmpManager { ping_sessions: Vec::new(), next_ping_id: 1, neighbor_cache: Vec::new() }
    }

    fn session_position(&self, identifier: u16) -> (r: Option<usize>)
        requires
            self.wf(),
        ensures
            match r {
                Some(i) => i < self.ping_sessions@.len() && self.ping_sessions@[i as int].identifier == identifier,
                None => forall|a: int| 0 <= a < self.ping_sessions@.len() ==> self.ping_sessions@[a].identifier != identifier,
            },
    {
        let mut i: usize = 0;
        while i < self.ping_sessions.len()
            invariant
                i <= self.ping_sessions@.len(),
                forall|a: int| 0 <= a < i ==> self.ping_sessions@[a].identifier != identifier,
            decreases self.ping_sessions@.len() - i,
        {
            if self.ping_sessions[i].identifier == identifier {
                return Some(i);
            }
            i = i + 1;
        }
        None
    }

    /// Starts a session for `target` under the next identifier (after
    /// 65535 the identifiers start again at 1), replacing any session with
    /// that identifier.
    pub fn start_ping(&mut self, target: NetworkAddress) -> (r: NetworkResult<u16>)
        requires
            old(self).wf(),
        ensures
            final(self).wf(),
            r == Ok::<u16, NetworkError>(old(self).next_id()),
            final(self).next_id() == if old(self).next_id() >= 65535 {
                1
            } else {
                old(self).next_id() + 1
            },
            find_session(final(self).sessions(), old(self).next_id()) matches Some(s) && fresh_session(
                s,
                target,
                old(self).next_id(),
            ),
            forall|k: u16| k != old(self).next_id() ==> find_session(final(self).sessions(), k) == find_session(old(self).sessions(), k),
            final(self).neighbors() == old(self).neighbors(),
    {
        let identifier = self.next_ping_id;
        self.next_ping_id = if identifier >= 65535 {
            1
        } else {
            identifier + 1
        };
        let session = PingSession {
            target,
            identifier,
            next_sequence: 1,
            sent_pings: Vec::new(),
            received_replies: Vec::new(),
            timeout_ms: 5000,
        };
        let ghost old_sessions = self.ping_sessions@;
        let ghost sess = session;
        match self.session_position(identifier) {
            Some(i) => {
                self.ping_sessions.set(i, session);
                proof {
                    assert forall|k: u16| #[trigger] find_session(self.ping_sessions@, k) == (if k == identifier {
                        Some(sess)
                    } else {
                        find_session(old_sessions, k)
                    }) by {
                        lemma_find_session_set(old_sessions, i as int, sess, k);
                    }
                }
            },
            None => {
                self.ping_sessions.push(session);
                proof {
                    assert forall|k: u16| #[trigger] find_session(self.ping_sessions@, k) == (if k == identifier {
                        Some(sess)
                    } else {
                        find_session(old_sessions, k)
                    }) by {
                        lemma_find_session_push(old_sessions, sess, k);
                    }
                }
            },
        }
        assert(distinct_keys(sess.sent_pings@));
        Ok(identifier)
    }
}


proof fn lemma_pairs_set(s: Seq<(u16, u64)>, i: int, v: u64)
    requires
        0 <= i < s.len(),
        distinct_keys(s),
    ensures
        pairs_map(s.update(i, (s[i].0, v))) == pairs_map(s).insert(s[i].0, v),
        distinct_keys(s.update(i, (s[i].0, v))),
    decreases s.len(),
{
    let w = s.update(i, (s[i].0, v));
    if i == s.len() - 1 {
        assert(w.drop_last() =~= s.drop_last());
        lemma_pairs_absent(s.drop_last(), s[i].0);
        assert(pairs_map(w) =~= pairs_map(s).insert(s[i].0, v));
    } else {
        assert(w.drop_last() =~= s.drop_last().update(i, (s[i].0, v)));
        lemma_pairs_set(s.drop_last(), i, v);
        assert(pairs_map(w) =~= pairs_map(s).insert(s[i].0, v));
    }
}

proof fn lemma_pairs_absent(s: Seq<(u16, u64)>, k: u16)
    requires
        forall|a: int| 0 <= a < s.len() ==> s[a].0 != k,
    ensures
        !pairs_map(s).contains_key(k),
    decreases s.len(),
{
    if s.len() > 0 {
        lemma_pairs_absent(s.drop_last(), k);
    }
}

proof fn lemma_pairs_at(s: Seq<(u16, u64)>, i: int)
    requires
        0 <= i < s.len(),
        distinct_keys(s),
    ensures
        pairs_map(s).contains_key(s[i].0),
        pairs_map(s)[s[i].0] == s[i].1,
    decreases s.len(),
{
    if i < s.len() - 1 {
        lemma_pairs_at(s.drop_last(), i);
    }
}

proof fn lemma_pairs_remove(s: Seq<(u16, u64)>, i: int)
    requires
        0 <= i < s.len(),
        distinct_keys(s),
    ensures
        pairs_map(s.remove(i)) == pairs_map(s).remove(s[i].0),
        distinct_keys(s.remove(i)),
    decreases s.len(),
{
    let w = s.remove(i);
    if i == s.len() - 1 {
        assert(w =~= s.drop_last());
        lemma_pairs_absent(s.drop_last(), s[i].0);
        assert(pairs_map(w) =~= pairs_map(s).remove(s[i].0));
    } else {
        assert(w.drop_last() =~= s.drop_last().remove(i));
        assert(w.last() == s.last());
        lemma_pairs_remove(s.drop_last(), i);
        assert(pairs_map(w) =~= pairs_map(s).remove(s[i].0));
    }
}

/// The milliseconds from `sent` to `now`, as the machine subtracts, in 32
/// bits.
pub open spec fn elapsed(now: u64, sent: u64) -> u32 {
    vstd::wrapping::u64_specs::wrapping_sub(now, sent) as u32
}

fn elapsed_ms(now: u64, sent: u64) -> (r: u32)
    ensures
        r == elapsed(now, sent),
{
    now.wrapping_sub(sent) as u32
}

/// Copies of the replies `v`.
fn copy_replies(v: &Vec<PingReply>) -> (r: Vec<PingReply>)
    ensures
        r@.len() == v@.len(),
        forall|k: int|
            0 <= k < v@.len() ==> (#[trigger] r@[k]).sequence == v@[k].sequence && r@[k].rtt_ms == v@[k].rtt_ms
                && r@[k].payload@ == v@[k].payload@,
{
    let mut out: Vec<PingReply> = Vec::new();
    let mut i: usize = 0;
    while i < v.len()
        invariant
            i <= v@.len(),
            out@.len() == i,
            forall|k: int|
                0 <= k < i ==> (#[trigger] out@[k]).sequence == v@[k].sequence && out@[k].rtt_ms == v@[k].rtt_ms
                    && out@[k].payload@ == v@[k].payload@,
        decreases v@.len() - i,
    {
        let p = copy_range(v[i].payload.as_slice(), 0, v[i].payload.len());
        assert(v@[i as int].payload@.subrange(0, v@[i as int].payload@.len() as int) =~= v@[i as int].payload@);
        out.push(PingReply { sequence: v[i].sequence, rtt_ms: v[i].rtt_ms, payload: p });
        i = i + 1;
    }
    out
}

/// `new` is `old` after a reply to request `sequence` of session
/// `identifier` came at `now` with `payload`: where the session awaits
/// that request, it no longer does and the reply, with its round trip time,
/// follows the earlier ones; otherwise nothing changes.
pub open spec fn reply_recorded(
    old: Seq<PingSession>,
    new: Seq<PingSession>,
    identifier: u16,
    sequence: u16,
    payload: Seq<u8>,
    now: u64,
) -> bool {
    &&& forall|k: u16| k != identifier ==> find_session(new, k) == find_session(old, k)
    &&& match find_session(old, identifier) {
        Some(s) => if pairs_map(s.sent_pings@).contains_key(sequence) {
            find_session(new, identifier) matches Some(s2) && s2.target == s.target && s2.identifier == identifier
                && s2.next_sequence == s.next_sequence && s2.timeout_ms == s.timeout_ms && pairs_map(s2.sent_pings@)
                == pairs_map(s.sent_pings@).remove(sequence) && s2.received_replies@.len() == s.received_replies@.len()
                + 1 && (forall|k: int| 0 <= k < s.received_replies@.len() ==> s2.received_replies@[k] == s.received_replies@[k])
                && s2.received_replies@.last().sequence == sequence && s2.received_replies@.last().rtt_ms == elapsed(
                now,
                pairs_map(s.sent_pings@)[sequence],
            ) && s2.received_replies@.last().payload@ == payload
        } else {
            new == old
        },
        None => new == old,
    }
}

impl IcmpManager {
    /// Records an echo request in session `identifier`: its next sequence
    /// number is sent now (the number after it follows, wrapping after
    /// 65535). `InvalidAddress` where there is no such session, or where
    /// its target is no IP address (the request is recorded all the same).
    pub fn send_ping(&mut self, identifier: u16, now: u64) -> (r: NetworkResult<u16>)
        requires
            old(self).wf(),
        ensures
            final(self).wf(),
            final(self).next_id() == old(self).next_id(),
            final(self).neighbors() == old(self).neighbors(),
            forall|k: u16| k != identifier ==> find_session(final(self).sessions(), k) == find_session(old(self).sessions(), k),
            match find_session(old(self).sessions(), identifier) {
                None => r == Err::<u16, NetworkError>(NetworkError::InvalidAddress) && final(self).sessions() == old(self).sessions(),
                Some(s) => {
                    &&& find_session(final(self).sessions(), identifier) matches Some(s2) && s2.target == s.target
                        && s2.identifier == identifier && s2.next_sequence == vstd::wrapping::u16_specs::wrapping_add(s.next_sequence, 1)
                        && pairs_map(s2.sent_pings@) == pairs_map(s.sent_pings@).insert(s.next_sequence, now)
                        && s2.received_replies == s.received_replies && s2.timeout_ms == s.timeout_ms
                    &&& (s.target is IPv4 || s.target is IPv6) ==> r == Ok::<u16, NetworkError>(s.next_sequence)
                    &&& !(s.target is IPv4 || s.target is IPv6) ==> r == Err::<u16, NetworkError>(NetworkError::InvalidAddress)
                },
            },
    {
        let ghost old_sessions = self.ping_sessions@;
        let i = match self.session_position(identifier) {
            Some(i) => i,
            None => {
                proof {
                    lemma_find_session_index(old_sessions, identifier);
                }
                return Err(NetworkError::InvalidAddress);
            },
        };
        proof {
            lemma_find_session_at(old_sessions, i as int);
        }
        let mut session = self.ping_sessions.remove(i);
        let ghost s0 = old_sessions[i as int];
        let sequence = session.next_sequence;
        session.next_sequence = sequence.wrapping_add(1);
        let mut j: usize = 0;
        let mut found = false;
        while !found && j < session.sent_pings.len()
            invariant
                j <= session.sent_pings@.len(),
                session.sent_pings@ == s0.sent_pings@,
                session.next_sequence == vstd::wrapping::u16_specs::wrapping_add(sequence, 1),
                forall|a: int| 0 <= a < j ==> session.sent_pings@[a].0 != sequence,
                found ==> j < s0.sent_pings@.len() && s0.sent_pings@[j as int].0 == sequence,
            decreases session.sent_pings@.len() - j + (if found { 0int } else { 1int }),
        {
            if session.sent_pings[j].0 == sequence {
                found = true;
            } else {
                j = j + 1;
            }
        }
        proof {
            assert(distinct_keys(s0.sent_pings@)) by {
                assert(distinct_keys(old_sessions[i as int].sent_pings@));
            }
        }
        if found {
            proof {
                lemma_pairs_set(s0.sent_pings@, j as int, now);
            }
            session.sent_pings.set(j, (sequence, now));
        } else {
            proof {
                lemma_pairs_absent(s0.sent_pings@, sequence);
                assert(distinct_keys(s0.sent_pings@.push((sequence, now))));
                assert(s0.sent_pings@.push((sequence, now)).drop_last() =~= s0.sent_pings@);
            }
            session.sent_pings.push((sequence, now));
        }
        let target = session.target;
        let ghost s1 = session;
        self.ping_sessions.insert(i, session);
        proof {
            assert(self.ping_sessions@ =~= old_sessions.update(i as int, s1));
            assert forall|k: u16| #[trigger] find_session(self.ping_sessions@, k) == (if k == identifier {
                Some(s1)
            } else {
                find_session(old_sessions, k)
            }) by {
                lemma_find_session_set(old_sessions, i as int, s1, k);
            }
            assert forall|a: int| 0 <= a < self.ping_sessions@.len() implies distinct_keys(
                #[trigger] self.ping_sessions@[a].sent_pings@,
            ) by {
                if a != i {
                    assert(self.ping_sessions@[a] == old_sessions[a]);
                }
            }
        }
        match target {
            NetworkAddress::IPv4(_) => Ok(sequence),
            NetworkAddress::IPv6(_) => Ok(sequence),
            _ => Err(NetworkError::InvalidAddress),
        }
    }

    /// Records an echo reply: where session `identifier` awaits `sequence`,
    /// that sequence number is no longer awaited and a reply with its round
    /// trip time (`elapsed`) and `payload` is added; otherwise nothing
    /// changes.
    pub fn handle_ping_reply(&mut self, identifier: u16, sequence: u16, payload: Vec<u8>, now: u64) -> (r: NetworkResult<()>)
        requires
            old(self).wf(),
        ensures
            final(self).wf(),
            r is Ok,
            final(self).next_id() == old(self).next_id(),
            final(self).neighbors() == old(self).neighbors(),
            reply_recorded(old(self).sessions(), final(self).sessions(), identifier, sequence, payload@, now),
    {
        let ghost old_sessions = self.ping_sessions@;
        let i = match self.session_position(identifier) {
            Some(i) => i,
            None => {
                proof {
                    lemma_find_session_index(old_sessions, identifier);
                }
                return Ok(());
            },
        };
        proof {
            lemma_find_session_at(old_sessions, i as int);
            assert(distinct_keys(old_sessions[i as int].sent_pings@));
        }
        let ghost s0 = old_sessions[i as int];
        let mut j: usize = 0;
        let mut found = false;
        while !found && j < self.ping_sessions[i].sent_pings.len()
            invariant
                i < self.ping_sessions@.len(),
                self.ping_sessions@ == old_sessions,
                s0 == old_sessions[i as int],
                j <= s0.sent_pings@.len(),
                forall|a: int| 0 <= a < j ==> s0.sent_pings@[a].0 != sequence,
                found ==> j < s0.sent_pings@.len() && s0.sent_pings@[j as int].0 == sequence,
            decreases s0.sent_pings@.len() - j + (if found { 0int } else { 1int }),
        {
            if self.ping_sessions[i].sent_pings[j].0 == sequence {
                found = true;
            } else {
                j = j + 1;
            }
        }
        if !found {
            proof {
                lemma_pairs_absent(s0.sent_pings@, sequence);
            }
            return Ok(());
        }
        proof {
            lemma_pairs_at(s0.sent_pings@, j as int);
            lemma_pairs_remove(s0.sent_pings@, j as int);
        }
        let mut session = self.ping_sessions.remove(i);
        let (_, sent_time) = session.sent_pings.remove(j);
        let rtt_ms = elapsed_ms(now, sent_time);
        session.received_replies.push(PingReply { sequence, rtt_ms, payload });
        let ghost s1 = session;
        self.ping_sessions.insert(i, session);
        proof {
            assert(self.ping_sessions@ =~= old_sessions.update(i as int, s1));
            assert forall|k: u16| #[trigger] find_session(self.ping_sessions@, k) == (if k == identifier {
                Some(s1)
            } else {
                find_session(old_sessions, k)
            }) by {
                lemma_find_session_set(old_sessions, i as int, s1, k);
            }
            assert forall|a: int| 0 <= a < self.ping_sessions@.len() implies distinct_keys(
                #[trigger] self.ping_sessions@[a].sent_pings@,
            ) by {
                if a != i {
                    assert(self.ping_sessions@[a] == old_sessions[a]);
                }
            }
        }
        Ok(())
    }

    /// Copies of the replies of session `identifier`, if there is one.
    pub fn get_ping_results(&self, identifier: u16) -> (r: Option<Vec<PingReply>>)
        requires
            self.wf(),
        ensures
            match find_session(self.sessions(), identifier) {
                None => r is None,
                Some(s) => r matches Some(v) && v@.len() == s.received_replies@.len() && forall|k: int|
                    0 <= k < v@.len() ==> (#[trigger] v@[k]).sequence == s.received_replies@[k].sequence
                        && v@[k].rtt_ms == s.received_replies@[k].rtt_ms && v@[k].payload@
                        == s.received_replies@[k].payload@,
            },
    {
        match self.session_position(identifier) {
            Some(i) => {
                proof {
                    lemma_find_session_at(self.ping_sessions@, i as int);
                }
                Some(copy_replies(&self.ping_sessions[i].received_replies))
            },
            None => {
                proof {
                    lemma_find_session_index(self.ping_sessions@, identifier);
                }
                None
            },
        }
    }

    /// Ends session `identifier`, if there is one.
    pub fn close_ping(&mut self, identifier: u16) -> (r: NetworkResult<()>)
        requires
            old(self).wf(),
        ensures
            final(self).wf(),
            r is Ok,
            find_session(final(self).sessions(), identifier) is None,
            forall|k: u16| k != identifier ==> find_session(final(self).sessions(), k) == find_session(old(self).sessions(), k),
            final(self).next_id() == old(self).next_id(),
            final(self).neighbors() == old(self).neighbors(),
    {
        let ghost old_sessions = self.ping_sessions@;
        match self.session_position(identifier) {
            Some(i) => {
                self.ping_sessions.remove(i);
                proof {
                    assert forall|k: u16| #[trigger] find_session(self.ping_sessions@, k) == (if k == identifier {
                        None
                    } else {
                        find_session(old_sessions, k)
                    }) by {
                        lemma_find_session_remove(old_sessions, i as int, k);
                    }
                    assert forall|a: int| 0 <= a < self.ping_sessions@.len() implies distinct_keys(
                        #[trigger] self.ping_sessions@[a].sent_pings@,
                    ) by {
                        if a < i {
                            assert(self.ping_sessions@[a] == old_sessions[a]);
                        } else {
                            assert(self.ping_sessions@[a] == old_sessions[a + 1]);
                        }
                    }
                }
            },
            None => {
                proof {
                    lemma_find_session_index(old_sessions, identifier);
                }
            },
        }
        Ok(())
    }

    /// Records what is known of neighbor `ip` as of `now` (reachable for 30
    /// seconds, retransmitting every second), replacing an older entry.
    pub fn update_neighbor(&mut self, ip: NetworkAddress, mac: Option<NetworkAddress>, state: NeighborState, now: u64)
        requires
            old(self).wf(),
        ensures
            final(self).wf(),
            find_neighbor(final(self).neighbors(), ip) == Some(
                NeighborCacheEntry {
                    ip_address: ip,
                    mac_address: mac,
                    state,
                    last_update: now,
                    reachable_time: 30000,
                    retransmit_timer: 1000,
                },
            ),
            forall|k: NetworkAddress| k != ip ==> find_neighbor(final(self).neighbors(), k) == find_neighbor(old(self).neighbors(), k),
            final(self).sessions() == old(self).sessions(),
            final(self).next_id() == old(self).next_id(),
    {
        let entry = NeighborCacheEntry {
            ip_address: ip,
            mac_address: mac,
            state,
            last_update: now,
            reachable_time: 30000,
            retransmit_timer: 1000,
        };
        let ghost old_cache = self.neighbor_cache@;
        let mut i: usize = 0;
        while i < self.neighbor_cache.len()
            invariant
                i <= self.neighbor_cache@.len(),
                *self == *old(self),
                old(self).wf(),
                self.neighbor_cache@ == old_cache,
                entry == (NeighborCacheEntry {
                    ip_address: ip,
                    mac_address: mac,
                    state,
                    last_update: now,
                    reachable_time: 30000,
                    retransmit_timer: 1000,
                }),
                forall|a: int| 0 <= a < i ==> old_cache[a].ip_address != ip,
            decreases self.neighbor_cache@.len() - i,
        {
            let is_same = self.neighbor_cache[i].ip_address.same(&ip);
            if is_same {
                assert(old_cache[i as int].ip_address == ip);
                self.neighbor_cache.set(i, entry);
                proof {
                    assert forall|a: int, b: int| 0 <= a < b < self.neighbor_cache@.len() implies self.neighbor_cache@[a].ip_address
                        != self.neighbor_cache@[b].ip_address by {
                        if a != i && b != i {
                            assert(self.neighbor_cache@[a] == old_cache[a]);
                            assert(self.neighbor_cache@[b] == old_cache[b]);
                        } else if a == i {
                            assert(self.neighbor_cache@[b] == old_cache[b]);
                        } else {
                            assert(self.neighbor_cache@[a] == old_cache[a]);
                        }
                    }
                    assert forall|k: NetworkAddress| #[trigger] find_neighbor(self.neighbor_cache@, k) == (if k == ip {
                        Some(entry)
                    } else {
                        find_neighbor(old_cache, k)
                    }) by {
                        lemma_find_neighbor_set(old_cache, i as int, entry, k);
                    }
                }
                return;
            }
            i = i + 1;
        }
        self.neighbor_cache.push(entry);
        proof {
            assert(self.neighbor_cache@.drop_last() =~= old_cache);
            assert forall|a: int, b: int| 0 <= a < b < self.neighbor_cache@.len() implies self.neighbor_cache@[a].ip_address
                != self.neighbor_cache@[b].ip_address by {
                if b == self.neighbor_cache@.len() - 1 {
                    assert(self.neighbor_cache@[a] == old_cache[a]);
                } else {
                    assert(self.neighbor_cache@[a] == old_cache[a]);
                    assert(self.neighbor_cache@[b] == old_cache[b]);
                }
            }
            assert forall|k: NetworkAddress| #[trigger] find_neighbor(self.neighbor_cache@, k) == (if k == ip {
                Some(entry)
            } else {
                find_neighbor(old_cache, k)
            }) by {
                lemma_find_neighbor_push(old_cache, entry, k);
            }
        }
    }

    /// The entry for neighbor `ip`, if any.
    pub fn lookup_neighbor(&self, ip: &NetworkAddress) -> (r: Option<NeighborCacheEntry>)
        requires
            self.wf(),
        ensures
            r == find_neighbor(self.neighbors(), *ip),
    {
        let mut i: usize = 0;
        while i < self.neighbor_cache.len()
            invariant
                i <= self.neighbor_cache@.len(),
                self.wf(),
                forall|a: int| 0 <= a < i ==> self.neighbor_cache@[a].ip_address != *ip,
            decreases self.neighbor_cache@.len() - i,
        {
            if self.neighbor_cache[i].ip_address.same(ip) {
                proof {
                    lemma_find_neighbor_at(self.neighbor_cache@, i as int);
                }
                return Some(self.neighbor_cache[i]);
            }
            i = i + 1;
        }
        proof {
            lemma_find_neighbor_absent(self.neighbor_cache@, *ip);
        }
        None
    }
}


/// An echo request sent at `sent` is still awaited at `now`.
pub open spec fn ping_alive(now: u64, sent: u64, timeout: u32) -> bool {
    vstd::wrapping::u64_specs::wrapping_sub(now, sent) < timeout as u64
}

/// The requests of `s` still awaited at `now`, in order.
pub open spec fn kept_pings(s: Seq<(u16, u64)>, now: u64, timeout: u32) -> Seq<(u16, u64)>
    decreases s.len(),
{
    if s.len() == 0 {
        Seq::empty()
    } else {
        let r = kept_pings(s.drop_last(), now, timeout);
        if ping_alive(now, s.last().1, timeout) {
            r.push(s.last())
        } else {
            r
        }
    }
}

/// A neighbor entry is still valid at `now`: reachable ones for their
/// reachable time, stale ones for a day, others for 30 seconds.
pub open spec fn neighbor_alive(e: NeighborCacheEntry, now: u64) -> bool {
    let age = vstd::wrapping::u64_specs::wrapping_sub(now, e.last_update);
    match e.state {
        NeighborState::Reachable => age < e.reachable_time,
        NeighborState::Stale => age < 86400000,
        _ => age < 30000,
    }
}

/// The entries of `v` still valid at `now`, in order.
pub open spec fn kept_neighbors(v: Seq<NeighborCacheEntry>, now: u64) -> Seq<NeighborCacheEntry>
    decreases v.len(),
{
    if v.len() == 0 {
        Seq::empty()
    } else {
        let r = kept_neighbors(v.drop_last(), now);
        if neighbor_alive(v.last(), now) {
            r.push(v.last())
        } else {
            r
        }
    }
}

/// What a cleanup keeps of a session `old` as `new`: the requests still
/// awaited, and the session only where some are or some replies came.
pub open spec fn cleaned(new: Option<PingSession>, old: Option<PingSession>, now: u64) -> bool {
    match old {
        None => new is None,
        Some(s) => {
            let kept = kept_pings(s.sent_pings@, now, s.timeout_ms);
            if kept.len() > 0 || s.received_replies@.len() > 0 {
                new matches Some(s2) && s2.target == s.target && s2.identifier == s.identifier && s2.next_sequence
                    == s.next_sequence && s2.timeout_ms == s.timeout_ms && s2.sent_pings@ == kept
                    && s2.received_replies == s.received_replies
            } else {
                new is None
            }
        },
    }
}

proof fn lemma_kept_pings_from(s: Seq<(u16, u64)>, now: u64, timeout: u32)
    ensures
        forall|j: int| 0 <= j < kept_pings(s, now, timeout).len() ==> exists|a: int| 0 <= a < s.len() && #[trigger] kept_pings(s, now, timeout)[j] == s[a],
        distinct_keys(s) ==> distinct_keys(kept_pings(s, now, timeout)),
    decreases s.len(),
{
    if s.len() > 0 {
        let t = s.drop_last();
        lemma_kept_pings_from(t, now, timeout);
        let r = kept_pings(t, now, timeout);
        assert forall|j: int| 0 <= j < kept_pings(s, now, timeout).len() implies exists|a: int| 0 <= a < s.len() && #[trigger] kept_pings(s, now, timeout)[j] == s[a] by {
            if j < r.len() {
                let a = choose|a: int| 0 <= a < t.len() && r[j] == t[a];
                assert(s[a] == t[a]);
            } else {
                assert(kept_pings(s, now, timeout)[j] == s[s.len() - 1]);
            }
        }
        if distinct_keys(s) {
            assert(distinct_keys(t));
            let k = kept_pings(s, now, timeout);
            assert forall|a: int, b: int| 0 <= a < b < k.len() implies k[a].0 != k[b].0 by {
                if b == r.len() && ping_alive(now, s.last().1, timeout) {
                    let x = choose|x: int| 0 <= x < t.len() && r[a] == t[x];
                    assert(s[x] == t[x]);
                } else {
                    assert(k[a] == r[a] && k[b] == r[b]);
                }
            }
        }
    }
}

proof fn lemma_kept_neighbors_from(v: Seq<NeighborCacheEntry>, now: u64)
    ensures
        forall|j: int| 0 <= j < kept_neighbors(v, now).len() ==> exists|a: int| 0 <= a < v.len() && #[trigger] kept_neighbors(v, now)[j] == v[a],
        (forall|a: int, b: int| 0 <= a < b < v.len() ==> v[a].ip_address != v[b].ip_address) ==> (forall|a: int, b: int|
            0 <= a < b < kept_neighbors(v, now).len() ==> kept_neighbors(v, now)[a].ip_address != kept_neighbors(
                v,
                now,
            )[b].ip_address),
    decreases v.len(),
{
    if v.len() > 0 {
        let t = v.drop_last();
        lemma_kept_neighbors_from(t, now);
        let r = kept_neighbors(t, now);
        assert forall|j: int| 0 <= j < kept_neighbors(v, now).len() implies exists|a: int| 0 <= a < v.len() && #[trigger] kept_neighbors(v, now)[j] == v[a] by {
            if j < r.len() {
                let a = choose|a: int| 0 <= a < t.len() && r[j] == t[a];
                assert(v[a] == t[a]);
            } else {
                assert(kept_neighbors(v, now)[j] == v[v.len() - 1]);
            }
        }
        if forall|a: int, b: int| 0 <= a < b < v.len() ==> v[a].ip_address != v[b].ip_address {
            let k = kept_neighbors(v, now);
            assert forall|a: int, b: int| 0 <= a < b < k.len() implies k[a].ip_address != k[b].ip_address by {
                if b == r.len() && neighbor_alive(v.last(), now) {
                    let x = choose|x: int| 0 <= x < t.len() && r[a] == t[x];
                    assert(v[x] == t[x]);
                } else {
                    assert(k[a] == r[a] && k[b] == r[b]);
                }
            }
        }
    }
}

fn filter_pings(v: &Vec<(u16, u64)>, now: u64, timeout: u32) -> (r: Vec<(u16, u64)>)
    ensures
        r@ == kept_pings(v@, now, timeout),
{
    let mut out: Vec<(u16, u64)> = Vec::new();
    let mut i: usize = 0;
    while i < v.len()
        invariant
            i <= v@.len(),
            out@ == kept_pings(v@.take(i as int), now, timeout),
        decreases v@.len() - i,
    {
        assert(v@.take(i + 1).drop_last() =~= v@.take(i as int));
        if now.wrapping_sub(v[i].1) < timeout as u64 {
            out.push(v[i]);
        }
        i = i + 1;
    }
    assert(v@.take(v@.len() as int) =~= v@);
    out
}

fn neighbor_still_valid(e: &NeighborCacheEntry, now: u64) -> (r: bool)
    ensures
        r == neighbor_alive(*e, now),
{
    let age = now.wrapping_sub(e.last_update);
    match e.state {
        NeighborState::Reachable => age < e.reachable_time,
        NeighborState::Stale => age < 86400000,
        _ => age < 30000,
    }
}

impl IcmpManager {
    /// Drops, as of `now`, the requests no longer awaited (older than their
    /// session's timeout) and then the sessions with nothing awaited and no
    /// reply, and the neighbor entries no longer valid (`neighbor_alive`).
    pub fn cleanup_expired(&mut self, now: u64)
        requires
            old(self).wf(),
        ensures
            final(self).wf(),
            forall|k: u16| #[trigger] cleaned(find_session(final(self).sessions(), k), find_session(old(self).sessions(), k), now),
            final(self).neighbors() == kept_neighbors(old(self).neighbors(), now),
            final(self).next_id() == old(self).next_id(),
    {
        let ghost orig = self.ping_sessions@;
        let mut rest: Vec<PingSession> = Vec::new();
        std::mem::swap(&mut rest, &mut self.ping_sessions);
        let mut out: Vec<PingSession> = Vec::new();
        let ghost mut i: int = 0;
        while rest.len() > 0
            invariant
                0 <= i <= orig.len(),
                rest@ == orig.skip(i),
                forall|a: int, b: int| 0 <= a < b < orig.len() ==> orig[a].identifier != orig[b].identifier,
                forall|a: int| 0 <= a < orig.len() ==> distinct_keys(#[trigger] orig[a].sent_pings@),
                forall|a: int, b: int| 0 <= a < b < out@.len() ==> out@[a].identifier != out@[b].identifier,
                forall|a: int| 0 <= a < out@.len() ==> distinct_keys(#[trigger] out@[a].sent_pings@),
                forall|a: int| 0 <= a < out@.len() ==> exists|b: int| 0 <= b < i && #[trigger] out@[a].identifier == orig[b].identifier,
                forall|k: u16| #[trigger] cleaned(find_session(out@, k), find_session(orig.take(i), k), now),
            decreases rest@.len(),
        {
            let s = rest.remove(0);
            proof {
                assert(s == orig[i]);
                assert(orig.take(i + 1).drop_last() =~= orig.take(i));
                assert(orig.take(i + 1).last() == orig[i]);
            }
            let kept = filter_pings(&s.sent_pings, now, s.timeout_ms);
            let ghost out0 = out@;
            if kept.len() > 0 || s.received_replies.len() > 0 {
                let s2 = PingSession {
                    target: s.target,
                    identifier: s.identifier,
                    next_sequence: s.next_sequence,
                    sent_pings: kept,
                    received_replies: s.received_replies,
                    timeout_ms: s.timeout_ms,
                };
                let ghost gs2 = s2;
                assert(gs2.sent_pings@ == kept_pings(orig[i].sent_pings@, now, orig[i].timeout_ms));
                assert(gs2.received_replies == orig[i].received_replies);
                out.push(s2);
                proof {
                    lemma_kept_pings_from(orig[i].sent_pings@, now, orig[i].timeout_ms);
                    assert forall|a: int, b: int| 0 <= a < b < out@.len() implies out@[a].identifier != out@[b].identifier by {
                        if b == out@.len() - 1 {
                            let x = choose|x: int| 0 <= x < i && #[trigger] out0[a].identifier == orig[x].identifier;
                            assert(out@[a] == out0[a]);
                        } else {
                            assert(out@[a] == out0[a] && out@[b] == out0[b]);
                        }
                    }
                    assert forall|a: int| 0 <= a < out@.len() implies distinct_keys(#[trigger] out@[a].sent_pings@) by {
                        if a < out@.len() - 1 {
                            assert(out@[a] == out0[a]);
                        }
                    }
                    assert forall|a: int| 0 <= a < out@.len() implies exists|b: int| 0 <= b < i + 1 && #[trigger] out@[a].identifier == orig[b].identifier by {
                        if a < out@.len() - 1 {
                            assert(out@[a] == out0[a]);
                            let x = choose|x: int| 0 <= x < i && #[trigger] out0[a].identifier == orig[x].identifier;
                        } else {
                            assert(out@[a].identifier == orig[i].identifier);
                        }
                    }
                    assert forall|k: u16| #[trigger] cleaned(find_session(out@, k), find_session(orig.take(i + 1), k), now) by {
                        lemma_find_session_push(out0, gs2, k);
                        assert(find_session(orig.take(i + 1), k) == if orig[i].identifier == k {
                            Some(orig[i])
                        } else {
                            find_session(orig.take(i), k)
                        });
                        assert(cleaned(find_session(out0, k), find_session(orig.take(i), k), now));
                    }
                }
            } else {
                proof {
                    assert forall|k: u16| #[trigger] cleaned(find_session(out@, k), find_session(orig.take(i + 1), k), now) by {
                        assert(find_session(orig.take(i + 1), k) == if orig[i].identifier == k {
                            Some(orig[i])
                        } else {
                            find_session(orig.take(i), k)
                        });
                        assert(cleaned(find_session(out0, k), find_session(orig.take(i), k), now));
                        if k == orig[i].identifier {
                            lemma_find_session_index(out@, k);
                            if find_session(out@, k) is Some {
                                let a = choose|a: int| 0 <= a < out@.len() && out@[a].identifier == k;
                                let x = choose|x: int| 0 <= x < i && #[trigger] out@[a].identifier == orig[x].identifier;
                            }
                        }
                    }
                    assert forall|a: int| 0 <= a < out@.len() implies exists|b: int| 0 <= b < i + 1 && #[trigger] out@[a].identifier == orig[b].identifier by {
                        let x = choose|x: int| 0 <= x < i && #[trigger] out@[a].identifier == orig[x].identifier;
                    }
                }
            }
            proof {
                i = i + 1;
                assert(rest@ =~= orig.skip(i));
            }
        }
        proof {
            assert(orig.take(i) =~= orig);
        }
        self.ping_sessions = out;
        let ghost old_cache = self.neighbor_cache@;
        let mut cache: Vec<NeighborCacheEntry> = Vec::new();
        let mut j: usize = 0;
        while j < self.neighbor_cache.len()
            invariant
                j <= old_cache.len(),
                self.neighbor_cache@ == old_cache,
                cache@ == kept_neighbors(old_cache.take(j as int), now),
            decreases old_cache.len() - j,
        {
            assert(old_cache.take(j + 1).drop_last() =~= old_cache.take(j as int));
            if neighbor_still_valid(&self.neighbor_cache[j], now) {
                cache.push(self.neighbor_cache[j]);
            }
            j = j + 1;
        }
        proof {
            assert(old_cache.take(old_cache.len() as int) =~= old_cache);
            lemma_kept_neighbors_from(old_cache, now);
        }
        self.neighbor_cache = cache;
    }
}


/// What an incoming message asks the caller to send.
#[derive(Debug)]
pub enum MessageAction {
    Nothing,
    /// An echo reply (ICMP, or ICMPv6 where the addresses are IPv6) from
    /// `from` to `to` with the request's identifier, sequence and payload.
    EchoReply { to: NetworkAddress, from: NetworkAddress, identifier: u16, sequence: u16, payload: Vec<u8> },
    /// A neighbor advertisement for `target` to `to`, from the interface
    /// with hardware address `our_mac`.
    NeighborAdvertisement { our_mac: NetworkAddress, to: NetworkAddress, target: NetworkAddress },
}

/// An interface of this host: its hardware and IP addresses.
#[derive(Debug)]
pub struct LocalInterface {
    pub mac_address: NetworkAddress,
    pub ip_addresses: Vec<NetworkAddress>,
}

/// The words an incoming message's checksum covers, read from its bytes.
pub open spec fn incoming_sum(d: Seq<u8>) -> nat {
    word_sum(d.subrange(0, 2)) + word_sum(d.subrange(4, 8)) + word_sum(d.skip(8))
}

proof fn lemma_incoming_sum(d: Seq<u8>, h: IcmpHeader)
    requires
        d.len() >= 8,
        header_read(d, h),
    ensures
        message_sum(h, d.skip(8)) == incoming_sum(d),
{
    assert(seq![h.icmp_type, h.code] =~= d.subrange(0, 2));
}

proof fn lemma_incoming_bound(d: Seq<u8>)
    requires
        8 <= d.len() <= 65535,
    ensures
        incoming_sum(d) <= u32::MAX,
{
    lemma_word_sum_bound(d.subrange(0, 2));
    lemma_word_sum_bound(d.subrange(4, 8));
    lemma_word_sum_bound(d.skip(8));
}

/// Takes the rest of the readable bytes of `buffer`.
fn take_rest(buffer: &mut PacketBuffer) -> (r: Vec<u8>)
    requires
        old(buffer).wf(),
    ensures
        final(buffer).wf(),
        r@ == old(buffer).readable_spec(),
        final(buffer).readable_spec().len() == 0,
{
    let d = buffer.readable_data();
    let v = copy_range(d, 0, d.len());
    assert(d@.subrange(0, d@.len() as int) =~= d@);
    buffer.consume(d.len());
    proof {
        buffer.lemma_wf();
    }
    v
}

/// Handles an incoming ICMP message from `src` to `dst` at `now`: a
/// message shorter than its header or with a wrong checksum gives
/// `InvalidPacket`; an echo request asks for an echo reply; an echo reply
/// is recorded in its session (`reply_recorded`); other types ask for
/// nothing.
pub fn process_icmp_packet(
    manager: &mut IcmpManager,
    src: NetworkAddress,
    dst: NetworkAddress,
    packet: &mut PacketBuffer,
    now: u64,
) -> (r: NetworkResult<MessageAction>)
    requires
        old(manager).wf(),
        old(packet).wf(),
        old(packet).readable_spec().len() <= 65535,
    ensures
        final(manager).wf(),
        final(packet).wf(),
        final(manager).neighbors() == old(manager).neighbors(),
        final(manager).next_id() == old(manager).next_id(),
        ({
            let d = old(packet).readable_spec();
            let body = d.skip(8);
            let t = d[0];
            let identifier = from_be16(d[4], d[5]);
            let sequence = from_be16(d[6], d[7]);
            if d.len() < 8 || ones_complement(incoming_sum(d)) != from_be16(d[2], d[3]) {
                r == Err::<MessageAction, NetworkError>(NetworkError::InvalidPacket) && final(manager).sessions()
                    == old(manager).sessions()
            } else if t == 8 {
                &&& r matches Ok(MessageAction::EchoReply { to, from, identifier: i, sequence: q, payload })
                    && to == src && from == dst && i == identifier && q == sequence && payload@ == body
                &&& final(manager).sessions() == old(manager).sessions()
            } else if t == 0 {
                &&& r matches Ok(MessageAction::Nothing)
                &&& reply_recorded(old(manager).sessions(), final(manager).sessions(), identifier, sequence, body, now)
            } else {
                r matches Ok(MessageAction::Nothing) && final(manager).sessions() == old(manager).sessions()
            }
        }),
{
    let ghost d = packet.readable_spec();
    proof {
        packet.lemma_wf();
    }
    let header = IcmpHeader::parse(packet)?;
    proof {
        packet.lemma_wf();
    }
    let payload = take_rest(packet);
    proof {
        assert(payload@ =~= d.skip(8));
        lemma_incoming_sum(d, header);
        lemma_incoming_bound(d);
    }
    if header.calculate_checksum(payload.as_slice()) != header.checksum {
        return Err(NetworkError::InvalidPacket);
    }
    if header.icmp_type == 8 {
        let data = PingData::from_rest_bytes(&header.rest, payload, now);
        return Ok(
            MessageAction::EchoReply {
                to: src,
                from: dst,
                identifier: data.identifier,
                sequence: data.sequence,
                payload: data.payload,
            },
        );
    }
    if header.icmp_type == 0 {
        let data = PingData::from_rest_bytes(&header.rest, payload, now);
        let _ = manager.handle_ping_reply(data.identifier, data.sequence, data.payload, now);
        return Ok(MessageAction::Nothing);
    }
    Ok(MessageAction::Nothing)
}

/// The link-layer address the options of an advertisement carry, from
/// `offset` on, where `acc` is the one found so far: options are read
/// while eight bytes remain, stopping at a zero or overlong length; the
/// last target link-layer option (type 2, eight bytes) wins.
pub open spec fn advertised_mac(p: Seq<u8>, offset: int, acc: Option<NetworkAddress>) -> Option<NetworkAddress>
    decreases p.len() - offset,
{
    if offset < 0 || offset + 8 > p.len() {
        acc
    } else {
        let l = (p[offset + 1] as int) * 8;
        if l == 0 || offset + l > p.len() {
            acc
        } else {
            let acc2 = if p[offset] == 2 && l == 8 {
                Some(NetworkAddress::Mac([p[offset + 2], p[offset + 3], p[offset + 4], p[offset + 5], p[offset + 6], p[offset + 7]]))
            } else {
                acc
            };
            advertised_mac(p, offset + l, acc2)
        }
    }
}

/// The link-layer address in the options of an advertisement body
/// (`advertised_mac` from byte 20).
fn advertised_link_address(p: &[u8]) -> (r: Option<NetworkAddress>)
    ensures
        r == advertised_mac(p@, 20, None),
{
    let mut mac: Option<NetworkAddress> = None;
    let mut offset: usize = 20;
    while offset <= p.len() && p.len() - offset >= 8
        invariant
            20 <= offset,
            advertised_mac(p@, 20, None) == advertised_mac(p@, offset as int, mac),
        decreases p@.len() - offset,
    {
        let l = (p[offset + 1] as usize) * 8;
        if l == 0 || l > p.len() - offset {
            return mac;
        }
        if p[offset] == 2 && l == 8 {
            mac = Some(NetworkAddress::Mac([p[offset + 2], p[offset + 3], p[offset + 4], p[offset + 5], p[offset + 6], p[offset + 7]]));
        }
        offset = offset + l;
    }
    mac
}

/// The first interface among `ifaces` that holds address `a`; the number
/// of interfaces where none does.
pub open spec fn first_owner(ifaces: Seq<LocalInterface>, a: NetworkAddress, i: int) -> int
    decreases ifaces.len() - i,
{
    if i >= ifaces.len() || i < 0 {
        ifaces.len() as int
    } else if ifaces[i].ip_addresses@.contains(a) {
        i
    } else {
        first_owner(ifaces, a, i + 1)
    }
}

fn holds_address(v: &Vec<NetworkAddress>, a: &NetworkAddress) -> (r: bool)
    ensures
        r == v@.contains(*a),
{
    let mut i: usize = 0;
    while i < v.len()
        invariant
            i <= v@.len(),
            forall|j: int| 0 <= j < i ==> v@[j] != *a,
        decreases v@.len() - i,
    {
        if v[i].same(a) {
            return true;
        }
        i = i + 1;
    }
    false
}

/// The first interface that holds address `a` (`first_owner`).
fn owner_index(interfaces: &Vec<LocalInterface>, a: &NetworkAddress) -> (r: Option<usize>)
    ensures
        match r {
            Some(i) => i == first_owner(interfaces@, *a, 0) && i < interfaces@.len(),
            None => first_owner(interfaces@, *a, 0) >= interfaces@.len(),
        },
{
    let mut i: usize = 0;
    while i < interfaces.len()
        invariant
            i <= interfaces@.len(),
            first_owner(interfaces@, *a, 0) == first_owner(interfaces@, *a, i as int),
        decreases interfaces@.len() - i,
    {
        if holds_address(&interfaces[i].ip_addresses, a) {
            return Some(i);
        }
        i = i + 1;
    }
    None
}

/// The IPv6 address of 16 bytes of `p` from `at`.
fn v6_address_at(p: &[u8], at: usize) -> (r: NetworkAddress)
    requires
        at + 16 <= p@.len(),
    ensures
        r matches NetworkAddress::IPv6(b) && b@ == p@.subrange(at as int, at + 16),
{
    let mut b: [u8; 16] = [0; 16];
    let mut i: usize = 0;
    while i < 16
        invariant
            i <= 16,
            at + 16 <= p@.len(),
            p@.len() == p.len(),
            forall|j: int| 0 <= j < i ==> b@[j] == p@[at + j],
        decreases 16 - i,
    {
        b.set(i, p[at + i]);
        i = i + 1;
    }
    assert(b@ =~= p@.subrange(at as int, at + 16));
    NetworkAddress::IPv6(b)
}

/// The words an incoming ICMPv6 message's checksum covers: the
/// pseudo-header and the message with a zero checksum field.
pub open spec fn incoming_v6_ok(d: Seq<u8>, src: NetworkAddress, dst: NetworkAddress) -> bool {
    match (src, dst) {
        (NetworkAddress::IPv6(s), NetworkAddress::IPv6(t)) => ones_complement(
            v6_pseudo_sum(s@, t@, d.subrange(0, 2) + seq![0u8, 0u8] + d.skip(4)),
        ) == from_be16(d[2], d[3]),
        _ => true,
    }
}

/// Handles an incoming ICMPv6 message from `src` to `dst` at `now`, this
/// host having the interfaces `interfaces`. `InvalidPacket` for a message
/// shorter than its header, with a wrong checksum (checked where both
/// addresses are IPv6), or a neighbor solicitation or advertisement
/// shorter than 20 bytes. An echo request asks for an echo reply; an echo
/// reply is recorded; a solicitation for an address of an interface asks
/// for an advertisement from the first such interface; an advertisement
/// makes its sender, and its target where that differs, reachable with
/// the advertised link-layer address; other types ask for nothing.
pub fn process_icmpv6_packet(
    manager: &mut IcmpManager,
    src: NetworkAddress,
    dst: NetworkAddress,
    packet: &mut PacketBuffer,
    interfaces: &Vec<LocalInterface>,
    now: u64,
) -> (r: NetworkResult<MessageAction>)
    requires
        old(manager).wf(),
        old(packet).wf(),
        old(packet).readable_spec().len() <= 65535,
    ensures
        final(manager).wf(),
        final(packet).wf(),
        final(manager).next_id() == old(manager).next_id(),
        ({
            let d = old(packet).readable_spec();
            let body = d.skip(8);
            let t = d[0];
            let identifier = from_be16(d[4], d[5]);
            let sequence = from_be16(d[6], d[7]);
            if d.len() < 8 || !incoming_v6_ok(d, src, dst) || ((t == 135 || t == 136) && body.len() < 20) {
                r == Err::<MessageAction, NetworkError>(NetworkError::InvalidPacket) && final(manager).sessions()
                    == old(manager).sessions() && final(manager).neighbors() == old(manager).neighbors()
            } else if t == 128 {
                &&& r matches Ok(MessageAction::EchoReply { to, from, identifier: i, sequence: q, payload })
                    && to == src && from == dst && i == identifier && q == sequence && payload@ == body
                &&& final(manager).sessions() == old(manager).sessions()
                &&& final(manager).neighbors() == old(manager).neighbors()
            } else if t == 129 {
                &&& r matches Ok(MessageAction::Nothing)
                &&& reply_recorded(old(manager).sessions(), final(manager).sessions(), identifier, sequence, body, now)
                &&& final(manager).neighbors() == old(manager).neighbors()
            } else if t == 135 {
                let target = NetworkAddress::IPv6(
                    [body[4], body[5], body[6], body[7], body[8], body[9], body[10], body[11], body[12], body[13], body[14], body[15], body[16], body[17], body[18], body[19]],
                );
                let k = first_owner(interfaces@, target, 0);
                &&& final(manager).sessions() == old(manager).sessions()
                &&& final(manager).neighbors() == old(manager).neighbors()
                &&& k < interfaces@.len() ==> (r matches Ok(MessageAction::NeighborAdvertisement { our_mac, to, target: tg })
                    && our_mac == interfaces@[k].mac_address && to == src && tg == target)
                &&& k >= interfaces@.len() ==> r matches Ok(MessageAction::Nothing)
            } else if t == 136 {
                let target = NetworkAddress::IPv6(
                    [body[4], body[5], body[6], body[7], body[8], body[9], body[10], body[11], body[12], body[13], body[14], body[15], body[16], body[17], body[18], body[19]],
                );
                let mac = advertised_mac(body, 20, None);
                let e = |ip: NetworkAddress| NeighborCacheEntry {
                    ip_address: ip,
                    mac_address: mac,
                    state: NeighborState::Reachable,
                    last_update: now,
                    reachable_time: 30000,
                    retransmit_timer: 1000,
                };
                &&& r matches Ok(MessageAction::Nothing)
                &&& final(manager).sessions() == old(manager).sessions()
                &&& find_neighbor(final(manager).neighbors(), src) == Some(e(src))
                &&& find_neighbor(final(manager).neighbors(), target) == Some(e(target))
                &&& forall|k: NetworkAddress| k != src && k != target ==> find_neighbor(final(manager).neighbors(), k) == find_neighbor(old(manager).neighbors(), k)
            } else {
                &&& r matches Ok(MessageAction::Nothing)
                &&& final(manager).sessions() == old(manager).sessions()
                &&& final(manager).neighbors() == old(manager).neighbors()
            }
        }),
{
    let ghost d = packet.readable_spec();
    proof {
        packet.lemma_wf();
    }
    let header = IcmpHeader::parse(packet)?;
    proof {
        packet.lemma_wf();
    }
    let payload = take_rest(packet);
    proof {
        assert(payload@ =~= d.skip(8));
    }
    match (src, dst) {
        (NetworkAddress::IPv6(s), NetworkAddress::IPv6(t)) => {
            let mut full: Vec<u8> = vec![header.icmp_type, header.code, 0, 0];
            push_all(&mut full, &header.rest);
            push_all(&mut full, payload.as_slice());
            proof {
                assert(full@ =~= d.subrange(0, 2) + seq![0u8, 0u8] + d.skip(4));
                lemma_word_sum_bound(full@);
                lemma_word_sum_bound(s@);
                lemma_word_sum_bound(t@);
            }
            if calculate_icmpv6_checksum(&s, &t, full.as_slice()) != header.checksum {
                return Err(NetworkError::InvalidPacket);
            }
        },
        _ => {},
    }
    let t = header.icmp_type;
    if t == 128 {
        let data = PingData::from_rest_bytes(&header.rest, payload, now);
        return Ok(
            MessageAction::EchoReply {
                to: src,
                from: dst,
                identifier: data.identifier,
                sequence: data.sequence,
                payload: data.payload,
            },
        );
    }
    if t == 129 {
        let data = PingData::from_rest_bytes(&header.rest, payload, now);
        let _ = manager.handle_ping_reply(data.identifier, data.sequence, data.payload, now);
        return Ok(MessageAction::Nothing);
    }
    if t == 135 || t == 136 {
        if payload.len() < 20 {
            return Err(NetworkError::InvalidPacket);
        }
        let target = v6_address_at(payload.as_slice(), 4);
        proof {
            let b = d.skip(8);
            match target {
                NetworkAddress::IPv6(a) => {
                    assert(a =~= [b[4], b[5], b[6], b[7], b[8], b[9], b[10], b[11], b[12], b[13], b[14], b[15], b[16], b[17], b[18], b[19]]);
                },
                _ => {},
            }
        }
        if t == 135 {
            return match owner_index(interfaces, &target) {
                Some(i) => Ok(
                    MessageAction::NeighborAdvertisement { our_mac: interfaces[i].mac_address, to: src, target },
                ),
                None => Ok(MessageAction::Nothing),
            };
        }
        let mac = advertised_link_address(payload.as_slice());
        manager.update_neighbor(src, mac, NeighborState::Reachable, now);
        if !target.same(&src) {
            manager.update_neighbor(target, mac, NeighborState::Reachable, now);
        }
        return Ok(MessageAction::Nothing);
    }
    Ok(MessageAction::Nothing)
}

/// Starts a ping session for `target` (`IcmpManager::start_ping`).
pub fn ping_start(manager: &mut IcmpManager, target: NetworkAddress) -> (r: NetworkResult<u16>)
    requires
        old(manager).wf(),
    ensures
        final(manager).wf(),
        r == Ok::<u16, NetworkError>(old(manager).next_id()),
        find_session(final(manager).sessions(), old(manager).next_id()) matches Some(s) && fresh_session(
            s,
            target,
            old(manager).next_id(),
        ),
        forall|k: u16| k != old(manager).next_id() ==> find_session(final(manager).sessions(), k) == find_session(old(manager).sessions(), k),
{
    manager.start_ping(target)
}

/// Stops ping session `identifier` (`IcmpManager::close_ping`).
pub fn ping_stop(manager: &mut IcmpManager, identifier: u16) -> (r: NetworkResult<()>)
    requires
        old(manager).wf(),
    ensures
        final(manager).wf(),
        r is Ok,
        find_session(final(manager).sessions(), identifier) is None,
        forall|k: u16| k != identifier ==> find_session(final(manager).sessions(), k) == find_session(old(manager).sessions(), k),
{
    manager.close_ping(identifier)
}


/// An echo message as built is accepted as read: its checksum passes the
/// receiver's check, and its type, identifier, sequence number and payload
/// read back.
pub proof fn lemma_echo_accepted(message_type: u8, identifier: u16, sequence: u16, payload: Seq<u8>)
    ensures
        ({
            let d = echo_bytes(message_type, identifier, sequence, payload);
            &&& d.len() == 8 + payload.len()
            &&& ones_complement(incoming_sum(d)) == from_be16(d[2], d[3])
            &&& d[0] == message_type
            &&& from_be16(d[4], d[5]) == identifier
            &&& from_be16(d[6], d[7]) == sequence
            &&& d.skip(8) == payload
        }),
{
    let d = echo_bytes(message_type, identifier, sequence, payload);
    let h = IcmpHeader {
        icmp_type: message_type,
        code: 0,
        checksum: 0,
        rest: [be16(identifier)[0], be16(identifier)[1], be16(sequence)[0], be16(sequence)[1]],
    };
    let c = ones_complement(message_sum(h, payload));
    crate::net::wire::lemma_be16_roundtrip(c);
    crate::net::wire::lemma_be16_roundtrip(identifier);
    crate::net::wire::lemma_be16_roundtrip(sequence);
    assert(d.subrange(0, 2) =~= seq![message_type, 0u8]);
    assert(d.subrange(4, 8) =~= h.rest@);
    assert(d.skip(8) =~= payload);
}

} // verus!
