use vstd::prelude::*;
use vstd::utf8::{valid_utf8, decode_utf8};

use crate::text::utf8_to_string;
use crate::net::types::{Ipv4Address, NetworkError};
use crate::net::wire::{be16, be32, from_be16, from_be32, u16_to_be, u32_to_be, be_to_u16, be_to_u32, push_all, copy_range};

verus! {

/// DNS message header size (12 bytes)
pub const DNS_HEADER_SIZE: usize = 12;

/// DNS maximum message size over UDP
pub const DNS_MAX_UDP_SIZE: usize = 512;

/// DNS maximum message size over TCP
pub const DNS_MAX_TCP_SIZE: usize = 65535;

/// DNS default port
pub const DNS_PORT: u16 = 53;

/// DNS query classes.
#[derive(Debug, Clone, Copy, PartialEq, Eq, Structural)]
pub enum DnsClass {
    /// Internet class
    In,
    /// Chaos class
    Ch,
    /// Hesiod class
    Hs,
}

/// The class of a code; unknown codes read as `In`.
pub open spec fn class_of(v: u16) -> DnsClass {
    if v == 3 {
        DnsClass::Ch
    } else if v == 4 {
        DnsClass::Hs
    } else {
        DnsClass::In
    }
}

/// The code of a class.
pub open spec fn class_code(c: DnsClass) -> u16 {
    match c {
        DnsClass::In => 1,
        DnsClass::Ch => 3,
        DnsClass::Hs => 4,
    }
}

impl From<u16> for DnsClass {
    fn from(value: u16) -> (r: Self) {
        match value {
            1 => DnsClass::In,
            3 => DnsClass::Ch,
            4 => DnsClass::Hs,
            _ => DnsClass::In,
        }
    }
}

impl vstd::std_specs::convert::FromSpecImpl<u16> for DnsClass {
    open spec fn obeys_from_spec() -> bool {
        true
    }

    open spec fn from_spec(v: u16) -> Self {
        class_of(v)
    }
}

impl From<DnsClass> for u16 {
    fn from(class: DnsClass) -> (r: u16) {
        match class {
            DnsClass::In => 1,
            DnsClass::Ch => 3,
            DnsClass::Hs => 4,
        }
    }
}

impl vstd::std_specs::convert::FromSpecImpl<DnsClass> for u16 {
    open spec fn obeys_from_spec() -> bool {
        true
    }

    open spec fn from_spec(v: DnsClass) -> Self {
        class_code(v)
    }
}

/// DNS resource record types.
#[derive(Debug, Clone, Copy, PartialEq, Eq, PartialOrd, Ord, Structural)]
pub enum DnsRecordType {
    A,
    Ns,
    Md,
    Mf,
    Cname,
    Soa,
    Mb,
    Mg,
    Mr,
    Null,
    Wks,
    Ptr,
    Hinfo,
    Minfo,
    Mx,
    Txt,
    Aaaa,
    Srv,
    Any,
}

/// The record type of a code; unknown codes read as `A`.
pub open spec fn record_type_of(v: u16) -> DnsRecordType {
    if v == 2 {
        DnsRecordType::Ns
    } else if v == 3 {
        DnsRecordType::Md
    } else if v == 4 {
        DnsRecordType::Mf
    } else if v == 5 {
        DnsRecordType::Cname
    } else if v == 6 {
        DnsRecordType::Soa
    } else if v == 7 {
        DnsRecordType::Mb
    } else if v == 8 {
        DnsRecordType::Mg
    } else if v == 9 {
        DnsRecordType::Mr
    } else if v == 10 {
        DnsRecordType::Null
    } else if v == 11 {
        DnsRecordType::Wks
    } else if v == 12 {
        DnsRecordType::Ptr
    } else if v == 13 {
        DnsRecordType::Hinfo
    } else if v == 14 {
        DnsRecordType::Minfo
    } else if v == 15 {
        DnsRecordType::Mx
    } else if v == 16 {
        DnsRecordType::Txt
    } else if v == 28 {
        DnsRecordType::Aaaa
    } else if v == 33 {
        DnsRecordType::Srv
    } else if v == 255 {
        DnsRecordType::Any
    } else {
        DnsRecordType::A
    }
}

/// The code of a record type.
pub open spec fn record_type_code(t: DnsRecordType) -> u16 {
    match t {
        DnsRecordType::A => 1,
        DnsRecordType::Ns => 2,
        DnsRecordType::Md => 3,
        DnsRecordType::Mf => 4,
        DnsRecordType::Cname => 5,
        DnsRecordType::Soa => 6,
        DnsRecordType::Mb => 7,
        DnsRecordType::Mg => 8,
        DnsRecordType::Mr => 9,
        DnsRecordType::Null => 10,
        DnsRecordType::Wks => 11,
        DnsRecordType::Ptr => 12,
        DnsRecordType::Hinfo => 13,
        DnsRecordType::Minfo => 14,
        DnsRecordType::Mx => 15,
        DnsRecordType::Txt => 16,
        DnsRecordType::Aaaa => 28,
        DnsRecordType::Srv => 33,
        DnsRecordType::Any => 255,
    }
}

impl From<u16> for DnsRecordType {
    fn from(value: u16) -> (r: Self) {
        match value {
            1 => DnsRecordType::A,
            2 => DnsRecordType::Ns,
            3 => DnsRecordType::Md,
            4 => DnsRecordType::Mf,
            5 => DnsRecordType::Cname,
            6 => DnsRecordType::Soa,
            7 => DnsRecordType::Mb,
            8 => DnsRecordType::Mg,
            9 => DnsRecordType::Mr,
            10 => DnsRecordType::Null,
            11 => DnsRecordType::Wks,
            12 => DnsRecordType::Ptr,
            13 => DnsRecordType::Hinfo,
            14 => DnsRecordType::Minfo,
            15 => DnsRecordType::Mx,
            16 => DnsRecordType::Txt,
            28 => DnsRecordType::Aaaa,
            33 => DnsRecordType::Srv,
            255 => DnsRecordType::Any,
            _ => DnsRecordType::A,
        }
    }
}

impl vstd::std_specs::convert::FromSpecImpl<u16> for DnsRecordType {
    open spec fn obeys_from_spec() -> bool {
        true
    }

    open spec fn from_spec(v: u16) -> Self {
        record_type_of(v)
    }
}

impl From<DnsRecordType> for u16 {
    fn from(record_type: DnsRecordType) -> (r: u16) {
        match record_type {
            DnsRecordType::A => 1,
            DnsRecordType::Ns => 2,
            DnsRecordType::Md => 3,
            DnsRecordType::Mf => 4,
            DnsRecordType::Cname => 5,
            DnsRecordType::Soa => 6,
            DnsRecordType::Mb => 7,
            DnsRecordType::Mg => 8,
            DnsRecordType::Mr => 9,
            DnsRecordType::Null => 10,
            DnsRecordType::Wks => 11,
            DnsRecordType::Ptr => 12,
            DnsRecordType::Hinfo => 13,
            DnsRecordType::Minfo => 14,
            DnsRecordType::Mx => 15,
            DnsRecordType::Txt => 16,
            DnsRecordType::Aaaa => 28,
            DnsRecordType::Srv => 33,
            DnsRecordType::Any => 255,
        }
    }
}

impl vstd::std_specs::convert::FromSpecImpl<DnsRecordType> for u16 {
    open spec fn obeys_from_spec() -> bool {
        true
    }

    open spec fn from_spec(v: DnsRecordType) -> Self {
        record_type_code(v)
    }
}

/// Converting a record type to its code and back gives it back; the same
/// holds of classes.
pub proof fn lemma_dns_code_roundtrip(t: DnsRecordType, c: DnsClass)
    ensures
        record_type_of(record_type_code(t)) == t,
        class_of(class_code(c)) == c,
{
}

/// DNS response codes.
#[derive(Debug, Clone, Copy, PartialEq, Eq, Structural)]
pub enum DnsResponseCode {
    NoError,
    FormErr,
    ServFail,
    NxDomain,
    NotImp,
    Refused,
}

/// The response code of the low four bits of `v`; unknown codes read as
/// `ServFail`.
pub open spec fn response_code_of(v: u8) -> DnsResponseCode {
    let c = v % 16;
    if c == 0 {
        DnsResponseCode::NoError
    } else if c == 1 {
        DnsResponseCode::FormErr
    } else if c == 3 {
        DnsResponseCode::NxDomain
    } else if c == 4 {
        DnsResponseCode::NotImp
    } else if c == 5 {
        DnsResponseCode::Refused
    } else {
        DnsResponseCode::ServFail
    }
}

/// The code of a response code.
pub open spec fn response_code_value(c: DnsResponseCode) -> u8 {
    match c {
        DnsResponseCode::NoError => 0,
        DnsResponseCode::FormErr => 1,
        DnsResponseCode::ServFail => 2,
        DnsResponseCode::NxDomain => 3,
        DnsResponseCode::NotImp => 4,
        DnsResponseCode::Refused => 5,
    }
}

impl From<u8> for DnsResponseCode {
    fn from(value: u8) -> (r: Self) {
        let c = value & 0x0F;
        assert(c == value % 16) by (bit_vector)
            requires
                c == value & 0x0F,
        ;
        match c {
            0 => DnsResponseCode::NoError,
            1 => DnsResponseCode::FormErr,
            2 => DnsResponseCode::ServFail,
            3 => DnsResponseCode::NxDomain,
            4 => DnsResponseCode::NotImp,
            5 => DnsResponseCode::Refused,
            _ => DnsResponseCode::ServFail,
        }
    }
}

impl vstd::std_specs::convert::FromSpecImpl<u8> for DnsResponseCode {
    open spec fn obeys_from_spec() -> bool {
        true
    }

    open spec fn from_spec(v: u8) -> Self {
        response_code_of(v)
    }
}

impl From<DnsResponseCode> for u8 {
    fn from(code: DnsResponseCode) -> (r: u8) {
        match code {
            DnsResponseCode::NoError => 0,
            DnsResponseCode::FormErr => 1,
            DnsResponseCode::ServFail => 2,
            DnsResponseCode::NxDomain => 3,
            DnsResponseCode::NotImp => 4,
            DnsResponseCode::Refused => 5,
        }
    }
}

impl vstd::std_specs::convert::FromSpecImpl<DnsResponseCode> for u8 {
    open spec fn obeys_from_spec() -> bool {
        true
    }

    open spec fn from_spec(v: DnsResponseCode) -> Self {
        response_code_value(v)
    }
}

impl DnsResponseCode {
    /// The mnemonic of the code.
    pub fn mnemonic(&self) -> (r: &'static str)
        ensures
            r@ == response_code_mnemonic(*self)@,
    {
        match self {
            DnsResponseCode::NoError => "NOERROR",
            DnsResponseCode::FormErr => "FORMERR",
            DnsResponseCode::ServFail => "SERVFAIL",
            DnsResponseCode::NxDomain => "NXDOMAIN",
            DnsResponseCode::NotImp => "NOTIMP",
            DnsResponseCode::Refused => "REFUSED",
        }
    }
}

/// The mnemonic of a response code.
pub open spec fn response_code_mnemonic(c: DnsResponseCode) -> &'static str {
    match c {
        DnsResponseCode::NoError => "NOERROR",
        DnsResponseCode::FormErr => "FORMERR",
        DnsResponseCode::ServFail => "SERVFAIL",
        DnsResponseCode::NxDomain => "NXDOMAIN",
        DnsResponseCode::NotImp => "NOTIMP",
        DnsResponseCode::Refused => "REFUSED",
    }
}

impl DnsRecordType {
    /// The mnemonic of the type, for the types that have a common one.
    pub fn mnemonic(&self) -> (r: Option<&'static str>)
        ensures
            r matches Some(s) ==> record_type_mnemonic(*self) matches Some(t) && s@ == t@,
            r is None <==> record_type_mnemonic(*self) is None,
    {
        match self {
            DnsRecordType::A => Some("A"),
            DnsRecordType::Ns => Some("NS"),
            DnsRecordType::Cname => Some("CNAME"),
            DnsRecordType::Soa => Some("SOA"),
            DnsRecordType::Ptr => Some("PTR"),
            DnsRecordType::Mx => Some("MX"),
            DnsRecordType::Txt => Some("TXT"),
            DnsRecordType::Aaaa => Some("AAAA"),
            DnsRecordType::Srv => Some("SRV"),
            DnsRecordType::Any => Some("ANY"),
            _ => None,
        }
    }

    /// The numeric code of the type.
    pub fn code(&self) -> (r: u16)
        ensures
            r == record_type_code(*self),
    {
        u16::from(*self)
    }
}

/// The mnemonic of a record type, when it has a common one.
pub open spec fn record_type_mnemonic(t: DnsRecordType) -> Option<&'static str> {
    match t {
        DnsRecordType::A => Some("A"),
        DnsRecordType::Ns => Some("NS"),
        DnsRecordType::Cname => Some("CNAME"),
        DnsRecordType::Soa => Some("SOA"),
        DnsRecordType::Ptr => Some("PTR"),
        DnsRecordType::Mx => Some("MX"),
        DnsRecordType::Txt => Some("TXT"),
        DnsRecordType::Aaaa => Some("AAAA"),
        DnsRecordType::Srv => Some("SRV"),
        DnsRecordType::Any => Some("ANY"),
        _ => None,
    }
}


/// DNS message header.
#[derive(Debug, Clone)]
pub struct DnsHeader {
    pub id: u16,
    pub qr: bool,
    pub opcode: u8,
    pub aa: bool,
    pub tc: bool,
    pub rd: bool,
    pub ra: bool,
    pub z: u8,
    pub rcode: DnsResponseCode,
    pub qdcount: u16,
    pub ancount: u16,
    pub nscount: u16,
    pub arcount: u16,
}

/// The flags word of a header.
pub open spec fn header_flags(h: DnsHeader) -> u16 {
    (if h.qr { 0x8000u16 } else { 0u16 }) | ((h.opcode as u16) << 11u16) | (if h.aa {
        0x0400u16
    } else {
        0u16
    }) | (if h.tc { 0x0200u16 } else { 0u16 }) | (if h.rd { 0x0100u16 } else { 0u16 }) | (if h.ra {
        0x0080u16
    } else {
        0u16
    }) | ((h.z as u16) << 4u16) | (response_code_value(h.rcode) as u16)
}

/// The twelve bytes of a header.
pub open spec fn header_wire(h: DnsHeader) -> Seq<u8> {
    be16(h.id) + be16(header_flags(h)) + be16(h.qdcount) + be16(h.ancount) + be16(h.nscount) + be16(
        h.arcount,
    )
}

/// The header read from the first twelve bytes of `d`.
pub open spec fn header_of(d: Seq<u8>) -> DnsHeader {
    let flags = from_be16(d[2], d[3]);
    DnsHeader {
        id: from_be16(d[0], d[1]),
        qr: (flags & 0x8000) != 0,
        opcode: ((flags >> 11u16) & 0x0F) as u8,
        aa: (flags & 0x0400) != 0,
        tc: (flags & 0x0200) != 0,
        rd: (flags & 0x0100) != 0,
        ra: (flags & 0x0080) != 0,
        z: ((flags >> 4u16) & 0x07) as u8,
        rcode: response_code_of((flags & 0x0F) as u8),
        qdcount: from_be16(d[4], d[5]),
        ancount: from_be16(d[6], d[7]),
        nscount: from_be16(d[8], d[9]),
        arcount: from_be16(d[10], d[11]),
    }
}

impl DnsHeader {
    /// A query header asking for recursion, all counts zero.
    pub fn new(id: u16) -> (r: Self)
        ensures
            r == (DnsHeader {
                id,
                qr: false,
                opcode: 0,
                aa: false,
                tc: false,
                rd: true,
                ra: false,
                z: 0,
                rcode: DnsResponseCode::NoError,
                qdcount: 0,
                ancount: 0,
                nscount: 0,
                arcount: 0,
            }),
    {
        Self {
            id,
            qr: false,
            opcode: 0,
            aa: false,
            tc: false,
            rd: true,
            ra: false,
            z: 0,
            rcode: DnsResponseCode::NoError,
            qdcount: 0,
            ancount: 0,
            nscount: 0,
            arcount: 0,
        }
    }

    /// Reads a header; `InvalidPacket` when fewer than twelve bytes.
    pub fn from_bytes(data: &[u8]) -> (r: Result<Self, NetworkError>)
        ensures
            data@.len() < DNS_HEADER_SIZE ==> r == Err::<DnsHeader, NetworkError>(NetworkError::InvalidPacket),
            data@.len() >= DNS_HEADER_SIZE ==> r == Ok::<DnsHeader, NetworkError>(header_of(data@)),
    {
        if data.len() < DNS_HEADER_SIZE {
            return Err(NetworkError::InvalidPacket);
        }
        let id = be_to_u16(data[0], data[1]);
        let flags = be_to_u16(data[2], data[3]);
        let qr = (flags & 0x8000) != 0;
        let opcode = ((flags >> 11) & 0x0F) as u8;
        let aa = (flags & 0x0400) != 0;
        let tc = (flags & 0x0200) != 0;
        let rd = (flags & 0x0100) != 0;
        let ra = (flags & 0x0080) != 0;
        let z = ((flags >> 4) & 0x07) as u8;
        let rcode = DnsResponseCode::from((flags & 0x0F) as u8);
        let qdcount = be_to_u16(data[4], data[5]);
        let ancount = be_to_u16(data[6], data[7]);
        let nscount = be_to_u16(data[8], data[9]);
        let arcount = be_to_u16(data[10], data[11]);
        Ok(Self { id, qr, opcode, aa, tc, rd, ra, z, rcode, qdcount, ancount, nscount, arcount })
    }

    /// The twelve bytes of the header.
    pub fn to_bytes(&self) -> (r: [u8; DNS_HEADER_SIZE])
        ensures
            r@ == header_wire(*self),
    {
        let rc: u8 = self.rcode.into();
        let flags: u16 = (if self.qr { 0x8000u16 } else { 0u16 }) | ((self.opcode as u16) << 11u16) | (if self.aa {
            0x0400u16
        } else {
            0u16
        }) | (if self.tc { 0x0200u16 } else { 0u16 }) | (if self.rd { 0x0100u16 } else { 0u16 }) | (if self.ra {
            0x0080u16
        } else {
            0u16
        }) | ((self.z as u16) << 4u16) | (rc as u16);
        let a = u16_to_be(self.id);
        let b = u16_to_be(flags);
        let c = u16_to_be(self.qdcount);
        let d = u16_to_be(self.ancount);
        let e = u16_to_be(self.nscount);
        let f = u16_to_be(self.arcount);
        let r = [a[0], a[1], b[0], b[1], c[0], c[1], d[0], d[1], e[0], e[1], f[0], f[1]];
        assert(r@ =~= header_wire(*self));
        r
    }
}

/// Reading back the bytes of a header gives the header, provided its
/// opcode fits in four bits and its reserved field in three.
pub proof fn lemma_header_roundtrip(h: DnsHeader)
    requires
        h.opcode < 16,
        h.z < 8,
    ensures
        header_of(header_wire(h)) == h,
{
    let w = header_wire(h);
    crate::net::wire::lemma_be16_roundtrip(h.id);
    crate::net::wire::lemma_be16_roundtrip(header_flags(h));
    crate::net::wire::lemma_be16_roundtrip(h.qdcount);
    crate::net::wire::lemma_be16_roundtrip(h.ancount);
    crate::net::wire::lemma_be16_roundtrip(h.nscount);
    crate::net::wire::lemma_be16_roundtrip(h.arcount);
    let f = header_flags(h);
    let qr = h.qr;
    let aa = h.aa;
    let tc = h.tc;
    let rd = h.rd;
    let ra = h.ra;
    let op = h.opcode as u16;
    let z = h.z as u16;
    let rc = response_code_value(h.rcode) as u16;
    assert(rc < 6);
    assert(f == (if qr { 0x8000u16 } else { 0u16 }) | (op << 11u16) | (if aa { 0x0400u16 } else { 0u16 }) | (
    if tc { 0x0200u16 } else { 0u16 }) | (if rd { 0x0100u16 } else { 0u16 }) | (if ra { 0x0080u16 } else {
        0u16
    }) | (z << 4u16) | rc);
    assert(((f & 0x8000) != 0) == qr && ((f >> 11u16) & 0x0F) == op && ((f & 0x0400) != 0) == aa && ((f
        & 0x0200) != 0) == tc && ((f & 0x0100) != 0) == rd && ((f & 0x0080) != 0) == ra && ((f >> 4u16)
        & 0x07) == z && (f & 0x0F) == rc) by (bit_vector)
        requires
            op < 16,
            z < 8,
            rc < 6,
            f == (if qr { 0x8000u16 } else { 0u16 }) | (op << 11u16) | (if aa { 0x0400u16 } else { 0u16 }) | (
            if tc { 0x0200u16 } else { 0u16 }) | (if rd { 0x0100u16 } else { 0u16 }) | (if ra {
                0x0080u16
            } else {
                0u16
            }) | (z << 4u16) | rc,
    ;
    assert(w[2] == be16(f)[0] && w[3] == be16(f)[1]);
    match h.rcode {
        DnsResponseCode::NoError => {},
        DnsResponseCode::FormErr => {},
        DnsResponseCode::ServFail => {},
        DnsResponseCode::NxDomain => {},
        DnsResponseCode::NotImp => {},
        DnsResponseCode::Refused => {},
    }
}


/// DNS question.
#[derive(Debug, Clone)]
pub struct DnsQuestion {
    pub name: String,
    pub qtype: DnsRecordType,
    pub qclass: DnsClass,
}

/// A question as plain values: name, type, class.
pub type QuestionView = (Seq<char>, DnsRecordType, DnsClass);

impl DnsQuestion {
    /// The question as plain values.
    pub open spec fn view_tuple(&self) -> QuestionView {
        (self.name@, self.qtype, self.qclass)
    }

    /// A question for `name`.
    pub fn new(name: String, qtype: DnsRecordType, qclass: DnsClass) -> (r: Self)
        ensures
            r.name == name,
            r.qtype == qtype,
            r.qclass == qclass,
    {
        Self { name, qtype, qclass }
    }
}

/// DNS resource record.
#[derive(Debug, Clone)]
pub struct DnsResourceRecord {
    pub name: String,
    pub rtype: DnsRecordType,
    pub rclass: DnsClass,
    pub ttl: u32,
    pub rdata: Vec<u8>,
}

/// A record as plain values: name, type, class, TTL, data.
pub type RecordView = (Seq<char>, DnsRecordType, DnsClass, u32, Seq<u8>);

/// The text of TXT record data read from `off` on, appended to `acc`.
pub open spec fn txt_spec(rdata: Seq<u8>, off: int, acc: Seq<char>) -> Result<Seq<char>, NetworkError>
    decreases rdata.len() - off,
{
    if off < 0 || off >= rdata.len() {
        Ok(acc)
    } else {
        let len = rdata[off] as int;
        if off + 1 + len > rdata.len() {
            Err(NetworkError::InvalidPacket)
        } else {
            let seg = rdata.subrange(off + 1, off + 1 + len);
            if !valid_utf8(seg) {
                Err(NetworkError::ProtocolError)
            } else {
                let acc2 = (if acc.len() == 0 {
                    acc
                } else {
                    acc.push(' ')
                }) + decode_utf8(seg);
                txt_spec(rdata, off + 1 + len, acc2)
            }
        }
    }
}

impl DnsResourceRecord {
    /// The record as plain values.
    pub open spec fn view_tuple(&self) -> RecordView {
        (self.name@, self.rtype, self.rclass, self.ttl, self.rdata@)
    }

    /// A record with the given fields.
    pub fn new(name: String, rtype: DnsRecordType, rclass: DnsClass, ttl: u32, rdata: Vec<u8>) -> (r: Self)
        ensures
            r.name == name,
            r.rtype == rtype,
            r.rclass == rclass,
            r.ttl == ttl,
            r.rdata == rdata,
    {
        Self { name, rtype, rclass, ttl, rdata }
    }

    /// The address of an A record with four data bytes; `ProtocolError`
    /// otherwise.
    pub fn as_ipv4_address(&self) -> (r: Result<Ipv4Address, NetworkError>)
        ensures
            (self.rtype == DnsRecordType::A && self.rdata@.len() == 4) <==> r is Ok,
            r is Err ==> r == Err::<Ipv4Address, NetworkError>(NetworkError::ProtocolError),
            r matches Ok(a) ==> a.0@ == self.rdata@,
    {
        if self.rtype != DnsRecordType::A || self.rdata.len() != 4 {
            return Err(NetworkError::ProtocolError);
        }
        let a = Ipv4Address::new(self.rdata[0], self.rdata[1], self.rdata[2], self.rdata[3]);
        assert(a.0@ =~= self.rdata@);
        Ok(a)
    }

    /// The text of a TXT record: its length-prefixed segments joined by
    /// spaces. `ProtocolError` for another type or a segment that is not
    /// UTF-8, `InvalidPacket` for a segment that runs past the data.
    pub fn as_text(&self) -> (r: Result<String, NetworkError>)
        ensures
            self.rtype != DnsRecordType::Txt ==> r == Err::<String, NetworkError>(NetworkError::ProtocolError),
            self.rtype == DnsRecordType::Txt ==> match r {
                Ok(t) => txt_spec(self.rdata@, 0, Seq::empty()) == Ok::<Seq<char>, NetworkError>(t@),
                Err(e) => txt_spec(self.rdata@, 0, Seq::empty()) == Err::<Seq<char>, NetworkError>(e),
            },
    {
        if self.rtype != DnsRecordType::Txt {
            return Err(NetworkError::ProtocolError);
        }
        let mut text = String::new();
        let mut offset: usize = 0;
        let n = self.rdata.len();
        while offset < n
            invariant
                n == self.rdata@.len(),
                self.rtype == DnsRecordType::Txt,
                offset <= n,
                txt_spec(self.rdata@, offset as int, text@) == txt_spec(self.rdata@, 0, Seq::empty()),
            decreases n - offset,
        {
            let len = self.rdata[offset] as usize;
            offset = offset + 1;
            if len > n - offset {
                return Err(NetworkError::InvalidPacket);
            }
            let seg = copy_range(self.rdata.as_slice(), offset, offset + len);
            let decoded = match utf8_to_string(seg.as_slice()) {
                Some(d) => d,
                None => {
                    return Err(NetworkError::ProtocolError);
                },
            };
            let ghost t0 = text@;
            if text.as_str().unicode_len() != 0 {
                text.append(" ");
                proof {
                    reveal_strlit(" ");
                    assert(" "@ =~= seq![' ']);
                    assert(text@ =~= t0.push(' '));
                }
            }
            text.append(decoded.as_str());
            offset = offset + len;
            assert(text@ =~= (if t0.len() == 0 { t0 } else { t0.push(' ') }) + decode_utf8(seg@));
        }
        Ok(text)
    }
}

/// The result of reading a (possibly compressed) name at `off` of `d`,
/// given the characters read so far and how many pointer jumps remain.
/// A walk that needs more jumps than the message has bytes revisits an
/// offset and would never end; it reads as `InvalidPacket`.
pub open spec fn name_spec(
    d: Seq<u8>,
    off: int,
    jumped: bool,
    jump_off: int,
    acc: Seq<char>,
    jumps: nat,
) -> Result<(Seq<char>, int), NetworkError>
    decreases jumps, d.len() - off,
{
    if off < 0 || off >= d.len() {
        Err(NetworkError::InvalidPacket)
    } else {
        let len = d[off];
        if len == 0 {
            Ok((acc, if jumped { jump_off + 1 } else { off + 1 }))
        } else if len >= 0xC0 {
            if off + 1 >= d.len() {
                Err(NetworkError::InvalidPacket)
            } else if jumps == 0 {
                Err(NetworkError::InvalidPacket)
            } else {
                name_spec(
                    d,
                    (len - 0xC0) * 256 + d[off + 1],
                    true,
                    if jumped { jump_off } else { off + 1 },
                    acc,
                    (jumps - 1) as nat,
                )
            }
        } else if len > 63 {
            Err(NetworkError::InvalidPacket)
        } else if off + 1 + len > d.len() {
            Err(NetworkError::InvalidPacket)
        } else {
            let label = d.subrange(off + 1, off + 1 + len);
            if !valid_utf8(label) {
                Err(NetworkError::ProtocolError)
            } else {
                let acc2 = (if acc.len() == 0 {
                    acc
                } else {
                    acc.push('.')
                }) + decode_utf8(label);
                name_spec(d, off + 1 + len, jumped, jump_off, acc2, jumps)
            }
        }
    }
}

/// The name read at `off` of `d` and the offset after it.
pub open spec fn read_name(d: Seq<u8>, off: int) -> Result<(Seq<char>, int), NetworkError> {
    name_spec(d, off, false, 0, Seq::empty(), d.len())
}

/// The question read at `off` of `d` and the offset after it.
pub open spec fn read_question(d: Seq<u8>, off: int) -> Result<(QuestionView, int), NetworkError> {
    match read_name(d, off) {
        Err(e) => Err(e),
        Ok((name, o)) => if o + 4 > d.len() {
            Err(NetworkError::InvalidPacket)
        } else {
            Ok(
                (
                    (
                        name,
                        record_type_of(from_be16(d[o], d[o + 1])),
                        class_of(from_be16(d[o + 2], d[o + 3])),
                    ),
                    o + 4,
                ),
            )
        },
    }
}

/// The record read at `off` of `d` and the offset after it.
pub open spec fn read_record(d: Seq<u8>, off: int) -> Result<(RecordView, int), NetworkError> {
    match read_name(d, off) {
        Err(e) => Err(e),
        Ok((name, o)) => if o + 10 > d.len() {
            Err(NetworkError::InvalidPacket)
        } else {
            let rdlength = from_be16(d[o + 8], d[o + 9]) as int;
            if o + 10 + rdlength > d.len() {
                Err(NetworkError::InvalidPacket)
            } else {
                Ok(
                    (
                        (
                            name,
                            record_type_of(from_be16(d[o], d[o + 1])),
                            class_of(from_be16(d[o + 2], d[o + 3])),
                            from_be32(d[o + 4], d[o + 5], d[o + 6], d[o + 7]),
                            d.subrange(o + 10, o + 10 + rdlength),
                        ),
                        o + 10 + rdlength,
                    ),
                )
            }
        },
    }
}

/// `n` questions read one after the other from `off` on.
pub open spec fn read_questions(d: Seq<u8>, off: int, n: nat) -> Result<(Seq<QuestionView>, int), NetworkError>
    decreases n,
{
    if n == 0 {
        Ok((Seq::empty(), off))
    } else {
        match read_question(d, off) {
            Err(e) => Err(e),
            Ok((q, o)) => match read_questions(d, o, (n - 1) as nat) {
                Err(e) => Err(e),
                Ok((qs, o2)) => Ok((seq![q] + qs, o2)),
            },
        }
    }
}

/// `n` records read one after the other from `off` on.
pub open spec fn read_records(d: Seq<u8>, off: int, n: nat) -> Result<(Seq<RecordView>, int), NetworkError>
    decreases n,
{
    if n == 0 {
        Ok((Seq::empty(), off))
    } else {
        match read_record(d, off) {
            Err(e) => Err(e),
            Ok((r, o)) => match read_records(d, o, (n - 1) as nat) {
                Err(e) => Err(e),
                Ok((rs, o2)) => Ok((seq![r] + rs, o2)),
            },
        }
    }
}

/// Reading `n` questions after `k` of them were read as `acc`.
pub open spec fn prepend_questions(acc: Seq<QuestionView>, rest: Result<(Seq<QuestionView>, int), NetworkError>) -> Result<(Seq<QuestionView>, int), NetworkError> {
    match rest {
        Err(e) => Err(e),
        Ok((qs, o)) => Ok((acc + qs, o)),
    }
}

/// Reading `n` records after `k` of them were read as `acc`.
pub open spec fn prepend_records(acc: Seq<RecordView>, rest: Result<(Seq<RecordView>, int), NetworkError>) -> Result<(Seq<RecordView>, int), NetworkError> {
    match rest {
        Err(e) => Err(e),
        Ok((rs, o)) => Ok((acc + rs, o)),
    }
}


/// Reads a (possibly compressed) name at `offset`.
fn parse_name(data: &[u8], offset: usize) -> (r: Result<(String, usize), NetworkError>)
    ensures
        match r {
            Ok((s, o)) => read_name(data@, offset as int) == Ok::<(Seq<char>, int), NetworkError>((s@, o as int)),
            Err(e) => read_name(data@, offset as int) == Err::<(Seq<char>, int), NetworkError>(e),
        },
{
    let ghost d = data@;
    let n = data.len();
    let mut name = String::new();
    let mut jumped = false;
    let mut jump_offset: usize = 0;
    let mut off = offset;
    let mut jumps: usize = n;
    loop
        invariant
            n == d.len(),
            d == data@,
            jumped ==> jump_offset < n,
            name_spec(d, off as int, jumped, jump_offset as int, name@, jumps as nat) == read_name(d, offset as int),
        decreases jumps, n - off,
    {
        if off >= n {
            return Err(NetworkError::InvalidPacket);
        }
        let len = data[off];
        if len == 0 {
            if jumped {
                return Ok((name, jump_offset + 1));
            } else {
                return Ok((name, off + 1));
            }
        }
        if (len & 0xC0) == 0xC0 {
            assert(len >= 0xC0) by (bit_vector)
                requires
                    (len & 0xC0) == 0xC0,
            ;
            if off + 1 >= n {
                return Err(NetworkError::InvalidPacket);
            }
            if jumps == 0 {
                return Err(NetworkError::InvalidPacket);
            }
            if !jumped {
                jump_offset = off + 1;
                jumped = true;
            }
            let lo = data[off + 1];
            let target = (((len & 0x3F) as usize) << 8usize) | (lo as usize);
            assert(target == (len - 0xC0) * 256 + lo) by (bit_vector)
                requires
                    len >= 0xC0,
                    target == (((len & 0x3F) as usize) << 8usize) | (lo as usize),
            ;
            off = target;
            jumps = jumps - 1;
            continue;
        }
        assert(len < 0xC0) by (bit_vector)
            requires
                (len & 0xC0) != 0xC0,
        ;
        if len > 63 {
            return Err(NetworkError::InvalidPacket);
        }
        let start = off + 1;
        let l = len as usize;
        if l > n - start {
            return Err(NetworkError::InvalidPacket);
        }
        let label = copy_range(data, start, start + l);
        let decoded = match utf8_to_string(label.as_slice()) {
            Some(s) => s,
            None => {
                return Err(NetworkError::ProtocolError);
            },
        };
        let ghost t0 = name@;
        if name.as_str().unicode_len() != 0 {
            name.append(".");
            proof {
                reveal_strlit(".");
                assert("."@ =~= seq!['.']);
                assert(name@ =~= t0.push('.'));
            }
        }
        name.append(decoded.as_str());
        assert(name@ =~= (if t0.len() == 0 { t0 } else { t0.push('.') }) + decode_utf8(label@));
        off = start + l;
    }
}

/// Reads a question at `offset`.
fn parse_question(data: &[u8], offset: usize) -> (r: Result<(DnsQuestion, usize), NetworkError>)
    ensures
        match r {
            Ok((q, o)) => read_question(data@, offset as int) == Ok::<(QuestionView, int), NetworkError>(
                (q.view_tuple(), o as int),
            ),
            Err(e) => read_question(data@, offset as int) == Err::<(QuestionView, int), NetworkError>(e),
        },
{
    let (name, offset) = parse_name(data, offset)?;
    if offset > data.len() || 4 > data.len() - offset {
        return Err(NetworkError::InvalidPacket);
    }
    let qtype = DnsRecordType::from(be_to_u16(data[offset], data[offset + 1]));
    let qclass = DnsClass::from(be_to_u16(data[offset + 2], data[offset + 3]));
    Ok((DnsQuestion::new(name, qtype, qclass), offset + 4))
}

/// Reads a resource record at `offset`.
fn parse_resource_record(data: &[u8], offset: usize) -> (r: Result<(DnsResourceRecord, usize), NetworkError>)
    ensures
        match r {
            Ok((rec, o)) => read_record(data@, offset as int) == Ok::<(RecordView, int), NetworkError>(
                (rec.view_tuple(), o as int),
            ),
            Err(e) => read_record(data@, offset as int) == Err::<(RecordView, int), NetworkError>(e),
        },
{
    let (name, offset) = parse_name(data, offset)?;
    if offset > data.len() || 10 > data.len() - offset {
        return Err(NetworkError::InvalidPacket);
    }
    let rtype = DnsRecordType::from(be_to_u16(data[offset], data[offset + 1]));
    let rclass = DnsClass::from(be_to_u16(data[offset + 2], data[offset + 3]));
    let ttl = be_to_u32(data[offset + 4], data[offset + 5], data[offset + 6], data[offset + 7]);
    let rdlength = be_to_u16(data[offset + 8], data[offset + 9]) as usize;
    let offset = offset + 10;
    if rdlength > data.len() - offset {
        return Err(NetworkError::InvalidPacket);
    }
    let rdata = copy_range(data, offset, offset + rdlength);
    Ok((DnsResourceRecord::new(name, rtype, rclass, ttl, rdata), offset + rdlength))
}

/// Reads `count` records one after the other from `offset` on.
fn parse_records(data: &[u8], offset: usize, count: u16) -> (r: Result<(Vec<DnsResourceRecord>, usize), NetworkError>)
    ensures
        match r {
            Ok((recs, o)) => read_records(data@, offset as int, count as nat) == Ok::<(Seq<RecordView>, int), NetworkError>(
                (recs@.map_values(|x: DnsResourceRecord| x.view_tuple()), o as int),
            ),
            Err(e) => read_records(data@, offset as int, count as nat) == Err::<(Seq<RecordView>, int), NetworkError>(e),
        },
{
    let mut records: Vec<DnsResourceRecord> = Vec::new();
    let mut off = offset;
    let mut k: u16 = 0;
    while k < count
        invariant
            k <= count,
            read_records(data@, offset as int, count as nat) == prepend_records(
                records@.map_values(|x: DnsResourceRecord| x.view_tuple()),
                read_records(data@, off as int, (count - k) as nat),
            ),
        decreases count - k,
    {
        let ghost before = records@.map_values(|x: DnsResourceRecord| x.view_tuple());
        let (rec, o) = parse_resource_record(data, off)?;
        records.push(rec);
        assert(records@.map_values(|x: DnsResourceRecord| x.view_tuple()) =~= before + seq![rec.view_tuple()]);
        off = o;
        k = k + 1;
        proof {
            let rest = read_records(data@, off as int, (count - k) as nat);
            match rest {
                Ok((rs, o2)) => {
                    assert(before + (seq![rec.view_tuple()] + rs) =~= (before + seq![rec.view_tuple()]) + rs);
                },
                Err(_) => {},
            }
        }
    }
    assert(records@.map_values(|x: DnsResourceRecord| x.view_tuple()) + Seq::<RecordView>::empty()
        =~= records@.map_values(|x: DnsResourceRecord| x.view_tuple()));
    Ok((records, off))
}

/// Reads `count` questions one after the other from `offset` on.
fn parse_questions(data: &[u8], offset: usize, count: u16) -> (r: Result<(Vec<DnsQuestion>, usize), NetworkError>)
    ensures
        match r {
            Ok((qs, o)) => read_questions(data@, offset as int, count as nat) == Ok::<(Seq<QuestionView>, int), NetworkError>(
                (qs@.map_values(|x: DnsQuestion| x.view_tuple()), o as int),
            ),
            Err(e) => read_questions(data@, offset as int, count as nat) == Err::<(Seq<QuestionView>, int), NetworkError>(e),
        },
{
    let mut questions: Vec<DnsQuestion> = Vec::new();
    let mut off = offset;
    let mut k: u16 = 0;
    while k < count
        invariant
            k <= count,
            read_questions(data@, offset as int, count as nat) == prepend_questions(
                questions@.map_values(|x: DnsQuestion| x.view_tuple()),
                read_questions(data@, off as int, (count - k) as nat),
            ),
        decreases count - k,
    {
        let ghost before = questions@.map_values(|x: DnsQuestion| x.view_tuple());
        let (q, o) = parse_question(data, off)?;
        questions.push(q);
        assert(questions@.map_values(|x: DnsQuestion| x.view_tuple()) =~= before + seq![q.view_tuple()]);
        off = o;
        k = k + 1;
        proof {
            let rest = read_questions(data@, off as int, (count - k) as nat);
            match rest {
                Ok((qs, o2)) => {
                    assert(before + (seq![q.view_tuple()] + qs) =~= (before + seq![q.view_tuple()]) + qs);
                },
                Err(_) => {},
            }
        }
    }
    assert(questions@.map_values(|x: DnsQuestion| x.view_tuple()) + Seq::<QuestionView>::empty()
        =~= questions@.map_values(|x: DnsQuestion| x.view_tuple()));
    Ok((questions, off))
}


/// The wire form of a name given by its UTF-8 bytes `b`, from position
/// `i` on with the current label starting at `start`: each dot-separated
/// label as a length byte (truncated to eight bits) and its bytes, then a
/// zero byte.
pub open spec fn name_wire_from(b: Seq<u8>, start: int, i: int) -> Seq<u8>
    decreases b.len() - i,
{
    if i >= b.len() {
        seq![(i - start) as u8] + b.subrange(start, b.len() as int) + seq![0u8]
    } else if b[i] == 0x2Eu8 {
        seq![(i - start) as u8] + b.subrange(start, i) + name_wire_from(b, i + 1, i + 1)
    } else {
        name_wire_from(b, start, i + 1)
    }
}

/// The wire form of the name whose UTF-8 bytes are `b`.
pub open spec fn name_wire(b: Seq<u8>) -> Seq<u8> {
    name_wire_from(b, 0, 0)
}

/// The wire form of a question.
pub open spec fn question_wire(q: DnsQuestion) -> Seq<u8> {
    question_wire_parts(q.name@, q.qtype, q.qclass)
}

/// The wire form of a question for `name`, `qtype` and `qclass`.
pub open spec fn question_wire_parts(name: Seq<char>, qtype: DnsRecordType, qclass: DnsClass) -> Seq<u8> {
    name_wire(name.spec_bytes_of()) + be16(record_type_code(qtype)) + be16(class_code(qclass))
}

/// The wire form of a record; the data length is truncated to 16 bits.
pub open spec fn record_wire(r: DnsResourceRecord) -> Seq<u8> {
    name_wire(r.name@.spec_bytes_of()) + be16(record_type_code(r.rtype)) + be16(class_code(r.rclass))
        + be32(r.ttl) + be16(r.rdata@.len() as u16) + r.rdata@
}

/// The wire forms of questions, one after the other.
pub open spec fn questions_wire(qs: Seq<DnsQuestion>) -> Seq<u8>
    decreases qs.len(),
{
    if qs.len() == 0 {
        Seq::empty()
    } else {
        questions_wire(qs.drop_last()) + question_wire(qs.last())
    }
}

/// The wire forms of records, one after the other.
pub open spec fn records_wire(rs: Seq<DnsResourceRecord>) -> Seq<u8>
    decreases rs.len(),
{
    if rs.len() == 0 {
        Seq::empty()
    } else {
        records_wire(rs.drop_last()) + record_wire(rs.last())
    }
}

/// The UTF-8 bytes of a character sequence.
pub trait SpecBytesOf {
    spec fn spec_bytes_of(self) -> Seq<u8>;
}

impl SpecBytesOf for Seq<char> {
    open spec fn spec_bytes_of(self) -> Seq<u8> {
        vstd::utf8::encode_utf8(self)
    }
}

/// Appends the wire form of the name `name`.
fn write_name(bytes: &mut Vec<u8>, name: &str)
    ensures
        final(bytes)@ == old(bytes)@ + name_wire(name@.spec_bytes_of()),
{
    let b = name.as_bytes();
    let ghost bs = b@;
    let ghost before = bytes@;
    let mut start: usize = 0;
    let mut i: usize = 0;
    assert(name_wire(bs) == name_wire_from(bs, 0, 0));
    while i < b.len()
        invariant
            bs == b@,
            start <= i <= bs.len(),
            before + name_wire(bs) == bytes@ + name_wire_from(bs, start as int, i as int),
        decreases bs.len() - i,
    {
        if b[i] == 0x2E {
            let ghost b0 = bytes@;
            bytes.push((i - start) as u8);
            push_all(bytes, vstd::slice::slice_subrange(b, start, i));
            assert(bytes@ =~= b0 + (seq![(i - start) as u8] + bs.subrange(start as int, i as int)));
            assert(before + name_wire(bs) =~= bytes@ + name_wire_from(bs, i + 1, i + 1));
            start = i + 1;
        }
        i = i + 1;
    }
    let ghost b0 = bytes@;
    bytes.push((i - start) as u8);
    push_all(bytes, vstd::slice::slice_subrange(b, start, i));
    bytes.push(0u8);
    assert(bytes@ =~= b0 + (seq![(i - start) as u8] + bs.subrange(start as int, bs.len() as int) + seq![0u8]));
}

/// Copies a header.
fn copy_header(h: &DnsHeader) -> (r: DnsHeader)
    ensures
        r == *h,
{
    DnsHeader {
        id: h.id,
        qr: h.qr,
        opcode: h.opcode,
        aa: h.aa,
        tc: h.tc,
        rd: h.rd,
        ra: h.ra,
        z: h.z,
        rcode: h.rcode,
        qdcount: h.qdcount,
        ancount: h.ancount,
        nscount: h.nscount,
        arcount: h.arcount,
    }
}

/// Copies a list of questions.
fn copy_questions(qs: &Vec<DnsQuestion>) -> (r: Vec<DnsQuestion>)
    ensures
        r@ == qs@,
{
    let mut out: Vec<DnsQuestion> = Vec::new();
    let mut i: usize = 0;
    while i < qs.len()
        invariant
            i <= qs@.len(),
            out@ == qs@.subrange(0, i as int),
        decreases qs@.len() - i,
    {
        let q = &qs[i];
        out.push(DnsQuestion { name: q.name.clone(), qtype: q.qtype, qclass: q.qclass });
        i = i + 1;
        assert(out@ =~= qs@.subrange(0, i as int));
    }
    out
}

/// A DNS message.
#[derive(Debug, Clone)]
pub struct DnsMessage {
    pub header: DnsHeader,
    pub questions: Vec<DnsQuestion>,
    pub answers: Vec<DnsResourceRecord>,
    pub authority: Vec<DnsResourceRecord>,
    pub additional: Vec<DnsResourceRecord>,
}

/// The wire form of a message.
pub open spec fn message_wire(m: DnsMessage) -> Seq<u8> {
    header_wire(m.header) + questions_wire(m.questions@) + records_wire(m.answers@) + records_wire(
        m.authority@,
    ) + records_wire(m.additional@)
}

/// Views of a list of questions.
pub open spec fn question_views(qs: Seq<DnsQuestion>) -> Seq<QuestionView> {
    qs.map_values(|x: DnsQuestion| x.view_tuple())
}

/// Views of a list of records.
pub open spec fn record_views(rs: Seq<DnsResourceRecord>) -> Seq<RecordView> {
    rs.map_values(|x: DnsResourceRecord| x.view_tuple())
}

/// `m` is what `from_bytes` reads from `d` when it succeeds.
pub open spec fn message_read(d: Seq<u8>, m: DnsMessage) -> bool {
    let h = header_of(d);
    &&& d.len() >= DNS_HEADER_SIZE
    &&& m.header == h
    &&& read_questions(d, 12, h.qdcount as nat) matches Ok((qs, o1))
    &&& question_views(m.questions@) == qs
    &&& read_records(d, o1, h.ancount as nat) matches Ok((ans, o2))
    &&& record_views(m.answers@) == ans
    &&& read_records(d, o2, h.nscount as nat) matches Ok((auth, o3))
    &&& record_views(m.authority@) == auth
    &&& read_records(d, o3, h.arcount as nat) matches Ok((add, o4))
    &&& record_views(m.additional@) == add
}

/// The error `from_bytes` reports for `d`, if any.
pub open spec fn message_error(d: Seq<u8>) -> Option<NetworkError> {
    if d.len() < DNS_HEADER_SIZE {
        Some(NetworkError::InvalidPacket)
    } else {
        let h = header_of(d);
        match read_questions(d, 12, h.qdcount as nat) {
            Err(e) => Some(e),
            Ok((qs, o1)) => match read_records(d, o1, h.ancount as nat) {
                Err(e) => Some(e),
                Ok((ans, o2)) => match read_records(d, o2, h.nscount as nat) {
                    Err(e) => Some(e),
                    Ok((auth, o3)) => match read_records(d, o3, h.arcount as nat) {
                        Err(e) => Some(e),
                        Ok(_) => None,
                    },
                },
            },
        }
    }
}

impl DnsMessage {
    /// A query with one question for `name` of class IN.
    pub fn new_query(id: u16, name: String, qtype: DnsRecordType) -> (r: Self)
        ensures
            r.header == (DnsHeader { qdcount: 1, ..DnsHeader::new_spec(id) }),
            r.questions@.len() == 1,
            r.questions@[0] == (DnsQuestion { name, qtype, qclass: DnsClass::In }),
            r.answers@.len() == 0,
            r.authority@.len() == 0,
            r.additional@.len() == 0,
    {
        let mut header = DnsHeader::new(id);
        header.qdcount = 1;
        let question = DnsQuestion::new(name, qtype, DnsClass::In);
        let mut questions = Vec::new();
        questions.push(question);
        Self { header, questions, answers: Vec::new(), authority: Vec::new(), additional: Vec::new() }
    }

    /// The answer frame for `query`: its header marked as a response with
    /// recursion available and not desired, its questions, no records.
    pub fn new_response(query: &DnsMessage) -> (r: Self)
        ensures
            r.header == (DnsHeader { qr: true, rd: false, ra: true, ..query.header }),
            r.questions@ == query.questions@,
            r.answers@.len() == 0,
            r.authority@.len() == 0,
            r.additional@.len() == 0,
    {
        let mut header = copy_header(&query.header);
        header.qr = true;
        header.rd = false;
        header.ra = true;
        Self {
            header,
            questions: copy_questions(&query.questions),
            answers: Vec::new(),
            authority: Vec::new(),
            additional: Vec::new(),
        }
    }

    /// Reads a message: the header, then as many questions and records as
    /// its counts say. Fails with the first error met.
    pub fn from_bytes(data: &[u8]) -> (r: Result<Self, NetworkError>)
        ensures
            r is Err <==> message_error(data@) is Some,
            r matches Err(e) ==> message_error(data@) == Some(e),
            r matches Ok(m) ==> message_read(data@, m),
    {
        if data.len() < DNS_HEADER_SIZE {
            return Err(NetworkError::InvalidPacket);
        }
        let header = DnsHeader::from_bytes(data)?;
        let (questions, o1) = parse_questions(data, DNS_HEADER_SIZE, header.qdcount)?;
        let (answers, o2) = parse_records(data, o1, header.ancount)?;
        let (authority, o3) = parse_records(data, o2, header.nscount)?;
        let (additional, _o4) = parse_records(data, o3, header.arcount)?;
        Ok(Self { header, questions, answers, authority, additional })
    }

    /// The wire form of the message.
    pub fn to_bytes(&self) -> (r: Result<Vec<u8>, NetworkError>)
        ensures
            r matches Ok(b) && b@ == message_wire(*self),
    {
        let mut bytes: Vec<u8> = Vec::new();
        let h = self.header.to_bytes();
        push_all(&mut bytes, &h);
        let mut i: usize = 0;
        while i < self.questions.len()
            invariant
                i <= self.questions@.len(),
                bytes@ == header_wire(self.header) + questions_wire(self.questions@.subrange(0, i as int)),
            decreases self.questions@.len() - i,
        {
            let q = &self.questions[i];
            write_name(&mut bytes, q.name.as_str());
            push_all(&mut bytes, &u16_to_be(u16::from(q.qtype)));
            push_all(&mut bytes, &u16_to_be(u16::from(q.qclass)));
            let ghost s = self.questions@.subrange(0, i + 1);
            assert(s.drop_last() =~= self.questions@.subrange(0, i as int));
            i = i + 1;
        }
        assert(self.questions@.subrange(0, self.questions@.len() as int) =~= self.questions@);
        Self::write_records(&mut bytes, &self.answers);
        Self::write_records(&mut bytes, &self.authority);
        Self::write_records(&mut bytes, &self.additional);
        Ok(bytes)
    }

    /// Appends the wire forms of `records`.
    fn write_records(bytes: &mut Vec<u8>, records: &Vec<DnsResourceRecord>)
        ensures
            final(bytes)@ == old(bytes)@ + records_wire(records@),
    {
        let ghost before = bytes@;
        let mut i: usize = 0;
        while i < records.len()
            invariant
                i <= records@.len(),
                bytes@ == before + records_wire(records@.subrange(0, i as int)),
            decreases records@.len() - i,
        {
            let r = &records[i];
            write_name(bytes, r.name.as_str());
            push_all(bytes, &u16_to_be(u16::from(r.rtype)));
            push_all(bytes, &u16_to_be(u16::from(r.rclass)));
            push_all(bytes, &u32_to_be(r.ttl));
            push_all(bytes, &u16_to_be(r.rdata.len() as u16));
            push_all(bytes, r.rdata.as_slice());
            let ghost s = records@.subrange(0, i + 1);
            assert(s.drop_last() =~= records@.subrange(0, i as int));
            i = i + 1;
        }
        assert(records@.subrange(0, records@.len() as int) =~= records@);
    }
}

impl DnsHeader {
    /// The header `new` builds.
    pub open spec fn new_spec(id: u16) -> DnsHeader {
        DnsHeader {
            id,
            qr: false,
            opcode: 0,
            aa: false,
            tc: false,
            rd: true,
            ra: false,
            z: 0,
            rcode: DnsResponseCode::NoError,
            qdcount: 0,
            ancount: 0,
            nscount: 0,
            arcount: 0,
        }
    }
}


/// ASCII lowercase of a character; other characters are unchanged.
pub open spec fn ascii_lower(c: char) -> char {
    if 'A' <= c && c <= 'Z' {
        ((c as u32) + 32) as char
    } else {
        c
    }
}

/// ASCII lowercase of a character sequence.
pub open spec fn ascii_lower_seq(s: Seq<char>) -> Seq<char> {
    s.map_values(|c: char| ascii_lower(c))
}

/// Whether two strings match ignoring ASCII case.
pub open spec fn eq_ignore_ascii_case_spec(a: Seq<char>, b: Seq<char>) -> bool {
    ascii_lower_seq(a) == ascii_lower_seq(b)
}

/// ASCII lowercase of one character: 'A'..='Z' to 'a'..='z', every
/// other character unchanged.
fn lower_char(c: char) -> (r: char)
    ensures
        r == ascii_lower(c),
{
    if 'A' <= c && c <= 'Z' {
        let b: u8 = c as u8;
        let lower: u8 = b + 32;
        lower as char
    } else {
        c
    }
}

/// Whether `a` and `b` match ignoring ASCII case.
pub fn eq_ignore_ascii_case(a: &str, b: &str) -> (r: bool)
    ensures
        r == eq_ignore_ascii_case_spec(a@, b@),
{
    let n = a.unicode_len();
    if n != b.unicode_len() {
        assert(ascii_lower_seq(a@).len() != ascii_lower_seq(b@).len());
        return false;
    }
    let mut i: usize = 0;
    while i < n
        invariant
            n == a@.len() == b@.len(),
            i <= n,
            forall|k: int| 0 <= k < i ==> ascii_lower(a@[k]) == ascii_lower(b@[k]),
        decreases n - i,
    {
        if lower_char(a.get_char(i)) != lower_char(b.get_char(i)) {
            assert(ascii_lower_seq(a@)[i as int] != ascii_lower_seq(b@)[i as int]);
            return false;
        }
        i = i + 1;
    }
    assert(ascii_lower_seq(a@) =~= ascii_lower_seq(b@));
    true
}



/// DNS resolver statistics.
#[derive(Debug, Clone)]
pub struct DnsResolverStats {
    pub queries_created: u64,
    pub responses_processed: u64,
    pub cache_hits: u64,
    pub cache_misses: u64,
    pub cache_entries: u64,
    pub errors: u64,
}

impl DnsResolverStats {
    /// All counters at zero.
    pub open spec fn zero() -> DnsResolverStats {
        DnsResolverStats {
            queries_created: 0,
            responses_processed: 0,
            cache_hits: 0,
            cache_misses: 0,
            cache_entries: 0,
            errors: 0,
        }
    }
}

impl Default for DnsResolverStats {
    fn default() -> (r: Self)
        ensures
            r == DnsResolverStats::zero(),
    {
        DnsResolverStats {
            queries_created: 0,
            responses_processed: 0,
            cache_hits: 0,
            cache_misses: 0,
            cache_entries: 0,
            errors: 0,
        }
    }
}

/// Key of the resolver cache: name and record type.
pub type CacheKey = (Seq<char>, DnsRecordType);

/// Value of the resolver cache: records and the time they were cached.
pub type CacheValue = (Seq<RecordView>, u64);

/// One cached answer set.
#[derive(Debug)]
struct CacheEntry {
    name: String,
    rtype: DnsRecordType,
    records: Vec<DnsResourceRecord>,
    cache_time: u64,
}

impl CacheEntry {
    spec fn key(&self) -> CacheKey {
        (self.name@, self.rtype)
    }

    spec fn value(&self) -> CacheValue {
        (record_views(self.records@), self.cache_time)
    }
}

/// A copy of a record.
fn copy_record(r: &DnsResourceRecord) -> (c: DnsResourceRecord)
    ensures
        c.view_tuple() == r.view_tuple(),
{
    DnsResourceRecord {
        name: r.name.clone(),
        rtype: r.rtype,
        rclass: r.rclass,
        ttl: r.ttl,
        rdata: copy_range(r.rdata.as_slice(), 0, r.rdata.len()),
    }
}

/// The record views of `rs` whose record is still valid at `now` when
/// cached at `t`.
pub open spec fn still_valid(rs: Seq<RecordView>, t: u64, now: u64) -> Seq<RecordView> {
    rs.filter(|r: RecordView| t + r.3 > now)
}

/// The least TTL of `rs`, zero when empty.
pub open spec fn min_ttl(rs: Seq<RecordView>) -> u32
    decreases rs.len(),
{
    if rs.len() == 0 {
        0
    } else if rs.len() == 1 {
        rs[0].3
    } else {
        let m = min_ttl(rs.drop_last());
        if rs.last().3 < m {
            rs.last().3
        } else {
            m
        }
    }
}

/// The Unicode lowercase form of a string, as `str::to_lowercase` gives it.
pub uninterp spec fn unicode_lowercase(s: Seq<char>) -> Seq<char>;

/// The lowercase form of `s`.
///
/// Trusted: calls `str::to_lowercase`, whose result depends on the string
/// alone and is named `unicode_lowercase`.
#[verifier::external_body]
fn lowercase(s: &str) -> (r: String)
    ensures
        r@ == unicode_lowercase(s@),
{
    s.to_lowercase()
}

/// The records of `answers` that answer a question for `name` and `qtype`:
/// same name ignoring ASCII case, same type.
pub open spec fn answers_for(answers: Seq<RecordView>, name: Seq<char>, qtype: DnsRecordType) -> Seq<RecordView> {
    answers.filter(|r: RecordView| eq_ignore_ascii_case_spec(r.0, name) && r.1 == qtype)
}

/// The cache after storing, question by question, the answers found for it
/// at time `t`; a question without answers leaves the cache as it is.
pub open spec fn cache_after(
    m: Map<CacheKey, CacheValue>,
    qs: Seq<QuestionView>,
    answers: Seq<RecordView>,
    t: u64,
) -> Map<CacheKey, CacheValue>
    decreases qs.len(),
{
    if qs.len() == 0 {
        m
    } else {
        let prev = cache_after(m, qs.drop_last(), answers, t);
        let q = qs.last();
        let a = answers_for(answers, q.0, q.1);
        if a.len() > 0 {
            prev.insert((q.0, q.1), (a, t))
        } else {
            prev
        }
    }
}

/// How many of the questions have at least one answer.
pub open spec fn answered_count(qs: Seq<QuestionView>, answers: Seq<RecordView>) -> nat
    decreases qs.len(),
{
    if qs.len() == 0 {
        0
    } else {
        answered_count(qs.drop_last(), answers) + if answers_for(answers, qs.last().0, qs.last().1).len() > 0 {
            1nat
        } else {
            0nat
        }
    }
}

proof fn lemma_answered_count_bound(qs: Seq<QuestionView>, answers: Seq<RecordView>)
    ensures
        answered_count(qs, answers) <= qs.len(),
    decreases qs.len(),
{
    if qs.len() > 0 {
        lemma_answered_count_bound(qs.drop_last(), answers);
    }
}

/// Every record of the cached value fits its expiry time in 64 bits.
pub open spec fn value_fits(v: CacheValue) -> bool {
    forall|i: int| 0 <= i < v.0.len() ==> v.1 + (#[trigger] v.0[i]).3 <= u64::MAX
}

/// What a cache lookup of `key` at `now` answers: the records still valid,
/// if there are any.
pub open spec fn lookup_outcome(m: Map<CacheKey, CacheValue>, key: CacheKey, now: u64) -> Option<Seq<RecordView>> {
    if m.contains_key(key) && still_valid(m[key].0, m[key].1, now).len() > 0 {
        Some(still_valid(m[key].0, m[key].1, now))
    } else {
        None
    }
}

/// Whether a lookup of `key` at `now` finds an entry with nothing valid left,
/// which it then drops.
pub open spec fn lookup_drops(m: Map<CacheKey, CacheValue>, key: CacheKey, now: u64) -> bool {
    m.contains_key(key) && still_valid(m[key].0, m[key].1, now).len() == 0
}

/// The cache after a lookup of `key` at `now`.
pub open spec fn cache_after_lookup(m: Map<CacheKey, CacheValue>, key: CacheKey, now: u64) -> Map<CacheKey, CacheValue> {
    if lookup_drops(m, key, now) {
        m.remove(key)
    } else {
        m
    }
}

/// The statistics after a lookup of `key` at `now`: a hit, or a miss that
/// may drop an entry.
pub open spec fn stats_after_lookup(
    s: DnsResolverStats,
    m: Map<CacheKey, CacheValue>,
    key: CacheKey,
    now: u64,
) -> DnsResolverStats {
    if lookup_outcome(m, key, now) is Some {
        DnsResolverStats { cache_hits: (s.cache_hits + 1) as u64, ..s }
    } else if lookup_drops(m, key, now) {
        DnsResolverStats {
            cache_misses: (s.cache_misses + 1) as u64,
            cache_entries: (s.cache_entries - 1) as u64,
            ..s
        }
    } else {
        DnsResolverStats { cache_misses: (s.cache_misses + 1) as u64, ..s }
    }
}

/// The data of the A records with four data bytes, in order.
pub open spec fn ipv4_data(rs: Seq<RecordView>) -> Seq<Seq<u8>> {
    rs.filter(|r: RecordView| r.1 == DnsRecordType::A && r.4.len() == 4).map_values(|r: RecordView| r.4)
}

/// The bytes of each address.
pub open spec fn address_bytes(v: Seq<Ipv4Address>) -> Seq<Seq<u8>> {
    v.map_values(|a: Ipv4Address| a.0@)
}

/// Whether every record of a cached value has expired at `now`, judged by
/// the least TTL.
pub open spec fn value_expired(v: CacheValue, now: u64) -> bool {
    v.1 + min_ttl(v.0) <= now
}

/// Whether a cache entry is kept by a clean-up at `now`.
spec fn keep_pred(now: u64) -> spec_fn(CacheEntry) -> bool {
    |e: CacheEntry| !value_expired(e.value(), now)
}

/// The entries of the cache that have not expired at `now`.
pub open spec fn unexpired(m: Map<CacheKey, CacheValue>, now: u64) -> Map<CacheKey, CacheValue> {
    Map::new(|k: CacheKey| m.contains_key(k) && !value_expired(m[k], now), |k: CacheKey| m[k])
}

/// The cache entries agree with the cache map, keys are unique, and the
/// entry counter is at least the number of entries.
spec fn cache_wf(cache: Seq<CacheEntry>, map: Map<CacheKey, CacheValue>, entries: u64) -> bool {
    &&& forall|i: int, j: int|
        0 <= i < j < cache.len() ==> (#[trigger] cache[i]).key() != (#[trigger] cache[j]).key()
    &&& forall|i: int|
        0 <= i < cache.len() ==> map.contains_key((#[trigger] cache[i]).key())
            && map[cache[i].key()] == cache[i].value()
    &&& forall|k: CacheKey|
        map.contains_key(k) ==> exists|i: int| 0 <= i < cache.len() && (#[trigger] cache[i]).key() == k
    &&& entries >= cache.len()
}

/// DNS resolver: servers, query IDs and a cache of answers.
pub struct DnsResolver {
    servers: Vec<Ipv4Address>,
    cache: Vec<CacheEntry>,
    cache_map: Ghost<Map<CacheKey, CacheValue>>,
    next_id: u16,
    stats: DnsResolverStats,
}

impl DnsResolver {
    /// The configured servers.
    pub closed spec fn servers_spec(&self) -> Seq<Ipv4Address> {
        self.servers@
    }

    /// The cache.
    pub closed spec fn cache_spec(&self) -> Map<CacheKey, CacheValue> {
        self.cache_map@
    }

    /// The ID of the next query.
    pub closed spec fn next_id_spec(&self) -> u16 {
        self.next_id
    }

    /// The statistics.
    pub closed spec fn stats_spec(&self) -> DnsResolverStats {
        self.stats
    }

    /// The cache entries agree with the cache map, with unique keys, and
    /// the entry counter is at least the number of entries.
    pub closed spec fn wf(&self) -> bool {
        cache_wf(self.cache@, self.cache_map@, self.stats.cache_entries)
    }

    /// A resolver without servers and with an empty cache.
    pub fn new() -> (r: Self)
        ensures
            r.wf(),
            r.servers_spec() == Seq::<Ipv4Address>::empty(),
            r.cache_spec() == Map::<CacheKey, CacheValue>::empty(),
            r.next_id_spec() == 1,
            r.stats_spec() == DnsResolverStats::zero(),
    {
        Self {
            servers: Vec::new(),
            cache: Vec::new(),
            cache_map: Ghost(Map::empty()),
            next_id: 1,
            stats: DnsResolverStats::default(),
        }
    }

    /// Adds a server unless it is already configured.
    pub fn add_server(&mut self, server: Ipv4Address)
        requires
            old(self).wf(),
        ensures
            final(self).wf(),
            final(self).servers_spec() == if old(self).servers_spec().contains(server) {
                old(self).servers_spec()
            } else {
                old(self).servers_spec().push(server)
            },
            final(self).cache_spec() == old(self).cache_spec(),
            final(self).next_id_spec() == old(self).next_id_spec(),
            final(self).stats_spec() == old(self).stats_spec(),
    {
        let mut i: usize = 0;
        while i < self.servers.len()
            invariant
                self.wf(),
                self.servers == old(self).servers,
                self.cache == old(self).cache,
                self.cache_map == old(self).cache_map,
                self.next_id == old(self).next_id,
                self.stats == old(self).stats,
                i <= self.servers@.len(),
                forall|k: int| 0 <= k < i ==> self.servers@[k] != server,
            decreases self.servers@.len() - i,
        {
            if crate::net::types::bytes_eq(&self.servers[i].0, &server.0) {
                assert(self.servers@[i as int] == server);
                return;
            }
            i = i + 1;
        }
        self.servers.push(server);
    }

    /// Removes every occurrence of a server.
    pub fn remove_server(&mut self, server: Ipv4Address)
        requires
            old(self).wf(),
        ensures
            final(self).wf(),
            final(self).servers_spec() == old(self).servers_spec().filter(|s: Ipv4Address| s != server),
            final(self).cache_spec() == old(self).cache_spec(),
            final(self).next_id_spec() == old(self).next_id_spec(),
            final(self).stats_spec() == old(self).stats_spec(),
    {
        let ghost old_s = self.servers@;
        let mut kept: Vec<Ipv4Address> = Vec::new();
        let mut i: usize = 0;
        while i < self.servers.len()
            invariant
                old_s == self.servers@,
                i <= old_s.len(),
                kept@ == old_s.subrange(0, i as int).filter(|s: Ipv4Address| s != server),
            decreases old_s.len() - i,
        {
            let s = self.servers[i];
            let ghost before = kept@;
            if !crate::net::types::bytes_eq(&s.0, &server.0) {
                kept.push(s);
            }
            proof {
                reveal(Seq::filter);
                assert(old_s.subrange(0, i + 1).drop_last() =~= old_s.subrange(0, i as int));
            }
            i = i + 1;
        }
        assert(old_s.subrange(0, old_s.len() as int) =~= old_s);
        self.servers = kept;
    }

    /// A query with the next ID (IDs wrap around).
    pub fn create_query(&mut self, name: String, record_type: DnsRecordType) -> (r: DnsMessage)
        requires
            old(self).wf(),
            old(self).stats_spec().queries_created < u64::MAX,
        ensures
            final(self).wf(),
            r.header == (DnsHeader { qdcount: 1, ..DnsHeader::new_spec(old(self).next_id_spec()) }),
            r.questions@.len() == 1,
            r.questions@[0] == (DnsQuestion { name, qtype: record_type, qclass: DnsClass::In }),
            r.answers@.len() == 0 && r.authority@.len() == 0 && r.additional@.len() == 0,
            final(self).next_id_spec() == old(self).next_id_spec().wrapping_add(1),
            final(self).stats_spec() == (DnsResolverStats {
                queries_created: (old(self).stats_spec().queries_created + 1) as u64,
                ..old(self).stats_spec()
            }),
            final(self).servers_spec() == old(self).servers_spec(),
            final(self).cache_spec() == old(self).cache_spec(),
    {
        let id = self.next_id;
        self.next_id = self.next_id.wrapping_add(1);
        self.stats.queries_created = self.stats.queries_created + 1;
        DnsMessage::new_query(id, name, record_type)
    }

    /// Stores `value` under `key`, replacing any earlier value.
    fn cache_insert(&mut self, name: String, rtype: DnsRecordType, records: Vec<DnsResourceRecord>, time: u64)
        requires
            old(self).wf(),
            old(self).stats.cache_entries < u64::MAX,
        ensures
            final(self).wf(),
            final(self).cache_map@ == old(self).cache_map@.insert(
                (name@, rtype),
                (record_views(records@), time),
            ),
            final(self).stats == (DnsResolverStats { cache_entries: (old(self).stats.cache_entries + 1) as u64, ..old(self).stats }),
            final(self).servers == old(self).servers,
            final(self).next_id == old(self).next_id,
    {
        let ghost key = (name@, rtype);
        let ghost value = (record_views(records@), time);
        let mut i: usize = 0;
        while i < self.cache.len()
            invariant
                self.wf(),
                self.cache@ == old(self).cache@,
                self.cache_map == old(self).cache_map,
                self.stats == old(self).stats,
                self.servers == old(self).servers,
                self.next_id == old(self).next_id,
                self.stats.cache_entries < u64::MAX,
                key == (name@, rtype),
                value == (record_views(records@), time),
                i <= self.cache@.len(),
                forall|k: int| 0 <= k < i ==> (#[trigger] self.cache@[k]).key() != key,
            decreases self.cache@.len() - i,
        {
            if self.cache[i].rtype == rtype && self.cache[i].name == name {
                let entry = CacheEntry { name, rtype, records, cache_time: time };
                let ghost e = entry;
                assert(e.key() == key);
                assert(e.records@ == records@);
                assert(e.cache_time == time);
                assert(e.value() == value);
                let ghost old_cache = self.cache@;
                self.cache.set(i, entry);
                assert(self.cache@[i as int] == e);
                self.cache_map = Ghost(self.cache_map@.insert(key, value));
                self.stats.cache_entries = self.stats.cache_entries + 1;
                assert forall|a: int, b: int| 0 <= a < b < self.cache@.len() implies (#[trigger] self.cache@[a]).key()
                    != (#[trigger] self.cache@[b]).key() by {
                    assert(old_cache[a].key() != old_cache[b].key());
                }
                assert forall|k: CacheKey| self.cache_map@.contains_key(k) implies exists|j: int|
                    0 <= j < self.cache@.len() && (#[trigger] self.cache@[j]).key() == k by {
                    if k == key {
                        assert(self.cache@[i as int].key() == k);
                    } else {
                        let j = choose|j: int| 0 <= j < old_cache.len() && (#[trigger] old_cache[j]).key() == k;
                        assert(self.cache@[j].key() == k);
                    }
                }
                return;
            }
            i = i + 1;
        }
        let entry = CacheEntry { name, rtype, records, cache_time: time };
        let ghost old_cache = self.cache@;
        self.cache.push(entry);
        self.cache_map = Ghost(self.cache_map@.insert(key, value));
        self.stats.cache_entries = self.stats.cache_entries + 1;
        assert forall|a: int, b: int| 0 <= a < b < self.cache@.len() implies (#[trigger] self.cache@[a]).key()
            != (#[trigger] self.cache@[b]).key() by {
            if b < old_cache.len() {
                assert(old_cache[a].key() != old_cache[b].key());
            }
        }
        assert forall|k: CacheKey| self.cache_map@.contains_key(k) implies exists|j: int|
            0 <= j < self.cache@.len() && (#[trigger] self.cache@[j]).key() == k by {
            if k == key {
                assert(self.cache@[old_cache.len() as int].key() == k);
            } else {
                let j = choose|j: int| 0 <= j < old_cache.len() && (#[trigger] old_cache[j]).key() == k;
                assert(self.cache@[j].key() == k);
            }
        }
        assert forall|j: int| 0 <= j < self.cache@.len() implies self.cache_map@.contains_key(
            (#[trigger] self.cache@[j]).key(),
        ) && self.cache_map@[self.cache@[j].key()] == self.cache@[j].value() by {
            if j < old_cache.len() {
                assert(old_cache[j].key() != key);
            }
        }
    }

    /// Removes the entry at index `i`.
    fn cache_remove_at(&mut self, i: usize)
        requires
            old(self).wf(),
            i < old(self).cache@.len(),
        ensures
            final(self).wf(),
            final(self).cache_map@ == old(self).cache_map@.remove(old(self).cache@[i as int].key()),
            final(self).stats == (DnsResolverStats { cache_entries: (old(self).stats.cache_entries - 1) as u64, ..old(self).stats }),
            final(self).cache@ == old(self).cache@.remove(i as int),
            final(self).servers == old(self).servers,
            final(self).next_id == old(self).next_id,
    {
        let ghost old_cache = self.cache@;
        let ghost key = old_cache[i as int].key();
        self.cache.remove(i);
        self.cache_map = Ghost(self.cache_map@.remove(key));
        self.stats.cache_entries = self.stats.cache_entries - 1;
        assert forall|a: int, b: int| 0 <= a < b < self.cache@.len() implies (#[trigger] self.cache@[a]).key()
            != (#[trigger] self.cache@[b]).key() by {
            let a0 = if a < i { a } else { a + 1 };
            let b0 = if b < i { b } else { b + 1 };
            assert(old_cache[a0].key() != old_cache[b0].key());
        }
        assert forall|j: int| 0 <= j < self.cache@.len() implies self.cache_map@.contains_key(
            (#[trigger] self.cache@[j]).key(),
        ) && self.cache_map@[self.cache@[j].key()] == self.cache@[j].value() by {
            let j0 = if j < i { j } else { j + 1 };
            assert(old_cache[j0].key() != old_cache[i as int].key());
        }
        assert forall|k: CacheKey| self.cache_map@.contains_key(k) implies exists|j: int|
            0 <= j < self.cache@.len() && (#[trigger] self.cache@[j]).key() == k by {
            let j0 = choose|j: int| 0 <= j < old_cache.len() && (#[trigger] old_cache[j]).key() == k;
            assert(j0 != i);
            let j = if j0 < i { j0 } else { j0 - 1 };
            assert(self.cache@[j].key() == k);
        }
    }

    /// The index of the entry for `key`, if any.
    fn cache_find(&self, name: &String, rtype: DnsRecordType) -> (r: Option<usize>)
        requires
            self.wf(),
        ensures
            r is None <==> !self.cache_map@.contains_key((name@, rtype)),
            r matches Some(i) ==> i < self.cache@.len() && self.cache@[i as int].key() == (name@, rtype),
    {
        let mut i: usize = 0;
        while i < self.cache.len()
            invariant
                self.wf(),
                i <= self.cache@.len(),
                forall|k: int| 0 <= k < i ==> (#[trigger] self.cache@[k]).key() != (name@, rtype),
            decreases self.cache@.len() - i,
        {
            if self.cache[i].rtype == rtype && self.cache[i].name == *name {
                return Some(i);
            }
            i = i + 1;
        }
        assert(!self.cache_map@.contains_key((name@, rtype))) by {
            if self.cache_map@.contains_key((name@, rtype)) {
                let j = choose|j: int| 0 <= j < self.cache@.len() && (#[trigger] self.cache@[j]).key() == (name@, rtype);
                assert(self.cache@[j].key() != (name@, rtype));
            }
        }
        None
    }
}

/// The records of `answers` that answer `q`, copied.
fn collect_answers(answers: &Vec<DnsResourceRecord>, q: &DnsQuestion) -> (r: Vec<DnsResourceRecord>)
    ensures
        record_views(r@) == answers_for(record_views(answers@), q.name@, q.qtype),
{
    let mut out: Vec<DnsResourceRecord> = Vec::new();
    let mut j: usize = 0;
    while j < answers.len()
        invariant
            j <= answers@.len(),
            record_views(out@) == answers_for(record_views(answers@.subrange(0, j as int)), q.name@, q.qtype),
        decreases answers@.len() - j,
    {
        let rec = &answers[j];
        let ghost before = out@;
        if rec.rtype == q.qtype && eq_ignore_ascii_case(rec.name.as_str(), q.name.as_str()) {
            out.push(copy_record(rec));
            assert(record_views(out@) =~= record_views(before).push(rec.view_tuple()));
        }
        proof {
            let s = record_views(answers@.subrange(0, j + 1));
            assert(s.drop_last() =~= record_views(answers@.subrange(0, j as int)));
            assert(s.last() == rec.view_tuple());
            reveal(Seq::filter);
        }
        j = j + 1;
    }
    assert(answers@.subrange(0, answers@.len() as int) =~= answers@);
    out
}

/// The addresses of the A records with four data bytes, in order.
fn ipv4_addresses(records: &Vec<DnsResourceRecord>) -> (r: Vec<Ipv4Address>)
    ensures
        address_bytes(r@) == ipv4_data(record_views(records@)),
{
    let mut out: Vec<Ipv4Address> = Vec::new();
    let mut j: usize = 0;
    while j < records.len()
        invariant
            j <= records@.len(),
            address_bytes(out@) == ipv4_data(record_views(records@.subrange(0, j as int))),
        decreases records@.len() - j,
    {
        let ghost before = out@;
        let ghost pre = record_views(records@.subrange(0, j as int));
        let ghost s = record_views(records@.subrange(0, j + 1));
        proof {
            assert(s.drop_last() =~= pre);
            assert(s.last() == records@[j as int].view_tuple());
            reveal(Seq::filter);
        }
        match records[j].as_ipv4_address() {
            Ok(a) => {
                out.push(a);
                proof {
                    let pf = |r: RecordView| r.1 == DnsRecordType::A && r.4.len() == 4;
                    assert(s.filter(pf) == pre.filter(pf).push(s.last()));
                    assert(address_bytes(out@) =~= address_bytes(before).push(a.0@));
                    assert(ipv4_data(s) =~= ipv4_data(pre).push(s.last().4));
                }
            },
            Err(_) => {
                proof {
                    let pf = |r: RecordView| r.1 == DnsRecordType::A && r.4.len() == 4;
                    assert(s.filter(pf) == pre.filter(pf));
                }
            },
        }
        j = j + 1;
    }
    assert(records@.subrange(0, records@.len() as int) =~= records@);
    out
}

proof fn lemma_min_ttl_bound(rs: Seq<RecordView>)
    ensures
        rs.len() == 0 ==> min_ttl(rs) == 0,
        rs.len() > 0 ==> exists|i: int| 0 <= i < rs.len() && min_ttl(rs) == (#[trigger] rs[i]).3,
    decreases rs.len(),
{
    if rs.len() > 1 {
        lemma_min_ttl_bound(rs.drop_last());
        let i = choose|i: int| 0 <= i < rs.drop_last().len() && min_ttl(rs.drop_last()) == (#[trigger] rs.drop_last()[i]).3;
        if rs.last().3 < min_ttl(rs.drop_last()) {
            assert(min_ttl(rs) == rs[rs.len() - 1].3);
        } else {
            assert(min_ttl(rs) == rs[i].3);
        }
    } else if rs.len() == 1 {
        assert(min_ttl(rs) == rs[0].3);
    }
}

/// The least TTL of the records, zero when there are none.
fn records_min_ttl(records: &Vec<DnsResourceRecord>) -> (m: u32)
    ensures
        m == min_ttl(record_views(records@)),
{
    if records.len() == 0 {
        return 0;
    }
    let mut m: u32 = records[0].ttl;
    let mut j: usize = 1;
    assert(record_views(records@.subrange(0, 1)).drop_last().len() == 0);
    while j < records.len()
        invariant
            1 <= j <= records@.len(),
            m == min_ttl(record_views(records@.subrange(0, j as int))),
        decreases records@.len() - j,
    {
        let ghost s = record_views(records@.subrange(0, j + 1));
        assert(s.drop_last() =~= record_views(records@.subrange(0, j as int)));
        assert(s.last().3 == records@[j as int].ttl);
        if records[j].ttl < m {
            m = records[j].ttl;
        }
        j = j + 1;
    }
    assert(records@.subrange(0, records@.len() as int) =~= records@);
    m
}

proof fn lemma_cache_dom_len(cache: Seq<CacheEntry>, map: Map<CacheKey, CacheValue>, entries: u64)
    requires
        cache_wf(cache, map, entries),
    ensures
        map.dom().finite(),
        map.dom().len() == cache.len(),
{
    let keys = cache.map_values(|e: CacheEntry| e.key());
    assert(keys.no_duplicates()) by {
        assert forall|i: int, j: int| 0 <= i < keys.len() && 0 <= j < keys.len() && i != j implies keys[i]
            != keys[j] by {
            if i < j {
                assert(cache[i].key() != cache[j].key());
            } else {
                assert(cache[j].key() != cache[i].key());
            }
        }
    }
    assert(keys.to_set() =~= map.dom()) by {
        assert forall|k: CacheKey| map.dom().contains(k) implies keys.to_set().contains(k) by {
            let i = choose|i: int| 0 <= i < cache.len() && (#[trigger] cache[i]).key() == k;
            assert(keys[i] == k);
        }
        assert forall|k: CacheKey| keys.to_set().contains(k) implies map.dom().contains(k) by {
            let i = choose|i: int| 0 <= i < keys.len() && keys[i] == k;
            assert(map.contains_key(cache[i].key()));
        }
    }
    keys.unique_seq_to_set();
    vstd::seq_lib::seq_to_set_is_finite(keys);
}

impl DnsResolver {
    /// Every cached value fits its expiry times in 64 bits.
    pub open spec fn times_fit(&self) -> bool {
        forall|k: CacheKey| self.cache_spec().contains_key(k) ==> #[trigger] value_fits(self.cache_spec()[k])
    }

    /// Caches the answers of a response. A response whose code is not
    /// `NoError` counts as an error and gives `ProtocolError`; otherwise the
    /// answers to each question (same name ignoring ASCII case, same type)
    /// replace the cache entry for that name and type, stamped `timestamp`.
    pub fn process_response(&mut self, response: DnsMessage, timestamp: u64) -> (r: Result<(), NetworkError>)
        requires
            old(self).wf(),
            response.header.rcode != DnsResponseCode::NoError ==> old(self).stats_spec().errors < u64::MAX,
            response.header.rcode == DnsResponseCode::NoError ==> old(self).stats_spec().responses_processed
                < u64::MAX && old(self).stats_spec().cache_entries + response.questions@.len() <= u64::MAX,
        ensures
            final(self).wf(),
            final(self).servers_spec() == old(self).servers_spec(),
            final(self).next_id_spec() == old(self).next_id_spec(),
            response.header.rcode != DnsResponseCode::NoError ==> {
                &&& r == Err::<(), NetworkError>(NetworkError::ProtocolError)
                &&& final(self).cache_spec() == old(self).cache_spec()
                &&& final(self).stats_spec() == (DnsResolverStats {
                    errors: (old(self).stats_spec().errors + 1) as u64,
                    ..old(self).stats_spec()
                })
            },
            response.header.rcode == DnsResponseCode::NoError ==> {
                &&& r is Ok
                &&& final(self).cache_spec() == cache_after(
                    old(self).cache_spec(),
                    question_views(response.questions@),
                    record_views(response.answers@),
                    timestamp,
                )
                &&& final(self).stats_spec() == (DnsResolverStats {
                    responses_processed: (old(self).stats_spec().responses_processed + 1) as u64,
                    cache_entries: (old(self).stats_spec().cache_entries + answered_count(
                        question_views(response.questions@),
                        record_views(response.answers@),
                    )) as u64,
                    ..old(self).stats_spec()
                })
            },
    {
        if response.header.rcode != DnsResponseCode::NoError {
            self.stats.errors = self.stats.errors + 1;
            return Err(NetworkError::ProtocolError);
        }
        let ghost old_map = self.cache_map@;
        let ghost old_stats = self.stats;
        let ghost ans = record_views(response.answers@);
        let ghost qv = question_views(response.questions@);
        let mut i: usize = 0;
        while i < response.questions.len()
            invariant
                self.wf(),
                i <= response.questions@.len(),
                qv == question_views(response.questions@),
                ans == record_views(response.answers@),
                self.servers == old(self).servers,
                self.next_id == old(self).next_id,
                self.cache_map@ == cache_after(old_map, qv.subrange(0, i as int), ans, timestamp),
                self.stats == (DnsResolverStats {
                    cache_entries: (old_stats.cache_entries + answered_count(qv.subrange(0, i as int), ans)) as u64,
                    ..old_stats
                }),
                answered_count(qv.subrange(0, i as int), ans) <= i,
                old_stats.cache_entries + response.questions@.len() <= u64::MAX,
            decreases response.questions@.len() - i,
        {
            let q = &response.questions[i];
            let answers = collect_answers(&response.answers, q);
            proof {
                let sub = qv.subrange(0, i + 1);
                assert(sub.drop_last() =~= qv.subrange(0, i as int));
                assert(sub.last() == q.view_tuple());
            }
            if answers.len() > 0 {
                self.cache_insert(q.name.clone(), q.qtype, answers, timestamp);
            }
            i = i + 1;
        }
        assert(qv.subrange(0, qv.len() as int) =~= qv);
        self.stats.responses_processed = self.stats.responses_processed + 1;
        Ok(())
    }

    /// Looks `name`, in lowercase, up in the cache. Gives the records still
    /// valid at `timestamp` and counts a hit; otherwise counts a miss and
    /// drops an entry with nothing valid left.
    pub fn resolve_cached(&mut self, name: &str, record_type: DnsRecordType, timestamp: u64) -> (r: Option<
        Vec<DnsResourceRecord>,
    >)
        requires
            old(self).wf(),
            old(self).times_fit(),
            old(self).stats_spec().cache_hits < u64::MAX,
            old(self).stats_spec().cache_misses < u64::MAX,
        ensures
            final(self).wf(),
            final(self).times_fit(),
            final(self).servers_spec() == old(self).servers_spec(),
            final(self).next_id_spec() == old(self).next_id_spec(),
            ({
                let key = (unicode_lowercase(name@), record_type);
                &&& r is Some <==> lookup_outcome(old(self).cache_spec(), key, timestamp) is Some
                &&& r matches Some(v) ==> lookup_outcome(old(self).cache_spec(), key, timestamp) == Some(
                    record_views(v@),
                )
                &&& final(self).cache_spec() == cache_after_lookup(old(self).cache_spec(), key, timestamp)
                &&& final(self).stats_spec() == stats_after_lookup(
                    old(self).stats_spec(),
                    old(self).cache_spec(),
                    key,
                    timestamp,
                )
            }),
    {
        let lname = lowercase(name);
        let ghost key = (unicode_lowercase(name@), record_type);
        let ghost m = self.cache_map@;
        match self.cache_find(&lname, record_type) {
            Some(i) => {
                let ghost v = m[key];
                assert(v == self.cache@[i as int].value());
                assert(value_fits(m[key]));
                let ct = self.cache[i].cache_time;
                let mut valid: Vec<DnsResourceRecord> = Vec::new();
                let mut j: usize = 0;
                while j < self.cache[i].records.len()
                    invariant
                        i < self.cache@.len(),
                        v == self.cache@[i as int].value(),
                        ct == v.1,
                        value_fits(v),
                        j <= self.cache@[i as int].records@.len(),
                        record_views(valid@) == still_valid(
                            record_views(self.cache@[i as int].records@.subrange(0, j as int)),
                            ct,
                            timestamp,
                        ),
                    decreases self.cache@[i as int].records@.len() - j,
                {
                    let rec = &self.cache[i].records[j];
                    let ghost before = valid@;
                    let ghost s = record_views(self.cache@[i as int].records@.subrange(0, j + 1));
                    assert(s.drop_last() =~= record_views(self.cache@[i as int].records@.subrange(0, j as int)));
                    assert(s.last() == rec.view_tuple());
                    assert(v.0[j as int].3 == rec.ttl);
                    if ct + (rec.ttl as u64) > timestamp {
                        valid.push(copy_record(rec));
                        assert(record_views(valid@) =~= record_views(before).push(rec.view_tuple()));
                    }
                    proof {
                        reveal(Seq::filter);
                    }
                    j = j + 1;
                }
                assert(self.cache@[i as int].records@.subrange(0, self.cache@[i as int].records@.len() as int)
                    =~= self.cache@[i as int].records@);
                if valid.len() > 0 {
                    self.stats.cache_hits = self.stats.cache_hits + 1;
                    return Some(valid);
                }
                self.cache_remove_at(i);
            },
            None => {},
        }
        self.stats.cache_misses = self.stats.cache_misses + 1;
        None
    }

    /// The addresses of the A records that `resolve_cached` gives for
    /// `hostname`, with its effects on the cache and statistics.
    pub fn resolve_ipv4(&mut self, hostname: &str, timestamp: u64) -> (r: Option<Vec<Ipv4Address>>)
        requires
            old(self).wf(),
            old(self).times_fit(),
            old(self).stats_spec().cache_hits < u64::MAX,
            old(self).stats_spec().cache_misses < u64::MAX,
        ensures
            final(self).wf(),
            final(self).times_fit(),
            final(self).servers_spec() == old(self).servers_spec(),
            final(self).next_id_spec() == old(self).next_id_spec(),
            ({
                let key = (unicode_lowercase(hostname@), DnsRecordType::A);
                &&& r is Some <==> lookup_outcome(old(self).cache_spec(), key, timestamp) is Some
                &&& r matches Some(v) ==> lookup_outcome(old(self).cache_spec(), key, timestamp) matches Some(
                    rs,
                ) && address_bytes(v@) == ipv4_data(rs)
                &&& final(self).cache_spec() == cache_after_lookup(old(self).cache_spec(), key, timestamp)
                &&& final(self).stats_spec() == stats_after_lookup(
                    old(self).stats_spec(),
                    old(self).cache_spec(),
                    key,
                    timestamp,
                )
            }),
    {
        match self.resolve_cached(hostname, DnsRecordType::A, timestamp) {
            Some(records) => Some(ipv4_addresses(&records)),
            None => None,
        }
    }

    /// Drops every entry whose cache time plus least TTL is at most
    /// `timestamp`.
    pub fn cleanup_cache(&mut self, timestamp: u64)
        requires
            old(self).wf(),
            old(self).times_fit(),
        ensures
            final(self).wf(),
            final(self).times_fit(),
            final(self).cache_spec() == unexpired(old(self).cache_spec(), timestamp),
            final(self).stats_spec() == (DnsResolverStats {
                cache_entries: (old(self).stats_spec().cache_entries - (old(self).cache_spec().dom().len()
                    - final(self).cache_spec().dom().len())) as u64,
                ..old(self).stats_spec()
            }),
            final(self).servers_spec() == old(self).servers_spec(),
            final(self).next_id_spec() == old(self).next_id_spec(),
    {
        let ghost old_cache = self.cache@;
        let ghost old_map = self.cache_map@;
        let ghost old_stats = self.stats;
        let ghost n = old_cache.len();
        let ghost keep = keep_pred(timestamp);
        let ghost mut g: int = 0;
        let mut i: usize = 0;
        assert(old_cache.subrange(0, 0) =~= Seq::<CacheEntry>::empty());
        assert(old_cache.subrange(0, 0).filter(keep) =~= Seq::<CacheEntry>::empty()) by {
            reveal(Seq::filter);
        }
        assert(self.cache@ =~= old_cache.subrange(0, 0).filter(keep) + old_cache.subrange(0, n as int));
        assert forall|k: CacheKey| old_map.contains_key(k) implies #[trigger] value_fits(old_map[k]) by {
            assert(self.cache_spec().contains_key(k));
        }
        while i < self.cache.len()
            invariant
                self.wf(),
                self.servers == old(self).servers,
                self.next_id == old(self).next_id,
                0 <= g <= n,
                n == old_cache.len(),
                cache_wf(old_cache, old_map, old_stats.cache_entries),
                forall|k: CacheKey| old_map.contains_key(k) ==> #[trigger] value_fits(old_map[k]),
                keep == keep_pred(timestamp),
                i == old_cache.subrange(0, g).filter(keep).len(),
                self.cache@ == old_cache.subrange(0, g).filter(keep) + old_cache.subrange(g, n as int),
                self.stats == (DnsResolverStats {
                    cache_entries: (old_stats.cache_entries - (g - i)) as u64,
                    ..old_stats
                }),
            decreases n - g,
        {
            let ghost pre = old_cache.subrange(0, g).filter(keep);
            assert(self.cache@[i as int] == old_cache[g]);
            assert(old_map.contains_key(old_cache[g].key()));
            assert(value_fits(old_map[old_cache[g].key()]));
            let m = records_min_ttl(&self.cache[i].records);
            proof {
                let v = old_cache[g].value();
                assert(old_map[old_cache[g].key()] == v);
                let rs = record_views(self.cache@[i as int].records@);
                assert(rs == v.0);
                lemma_min_ttl_bound(rs);
                if rs.len() > 0 {
                    let j = choose|j: int| 0 <= j < rs.len() && min_ttl(rs) == (#[trigger] rs[j]).3;
                    assert(v.1 + v.0[j].3 <= u64::MAX);
                }
            }
            let expired = self.cache[i].cache_time + (m as u64) <= timestamp;
            proof {
                assert(old_cache.subrange(0, g + 1).drop_last() =~= old_cache.subrange(0, g));
                reveal(Seq::filter);
            }
            if expired {
                self.cache_remove_at(i);
                proof {
                    assert(old_cache.subrange(0, g + 1).filter(keep) == pre);
                    assert(self.cache@ =~= old_cache.subrange(0, g + 1).filter(keep) + old_cache.subrange(
                        g + 1,
                        n as int,
                    ));
                }
            } else {
                proof {
                    assert(old_cache.subrange(0, g + 1).filter(keep) == pre.push(old_cache[g]));
                    assert(self.cache@ =~= old_cache.subrange(0, g + 1).filter(keep) + old_cache.subrange(
                        g + 1,
                        n as int,
                    ));
                }
                i = i + 1;
            }
            proof {
                g = g + 1;
            }
        }
        proof {
            assert(g == n) by {
                if g < n {
                    assert(self.cache@.len() == i + (n - g));
                }
            }
            assert(old_cache.subrange(0, n as int) =~= old_cache);
            assert(self.cache@ =~= old_cache.filter(keep));
            assert forall|k: CacheKey| #[trigger] self.cache_map@.contains_key(k) == unexpired(old_map, timestamp).contains_key(k)
                && (self.cache_map@.contains_key(k) ==> self.cache_map@[k] == old_map[k]) by {
                if self.cache_map@.contains_key(k) {
                    let j = choose|j: int| 0 <= j < self.cache@.len() && (#[trigger] self.cache@[j]).key() == k;
                    let e = self.cache@[j];
                    assert(old_cache.filter(keep)[j] == e);
                    assert(old_cache.filter(keep).contains(e));
                    old_cache.lemma_filter_contains_rev(keep, e);
                    let j0 = choose|j0: int| 0 <= j0 < old_cache.len() && old_cache[j0] == e;
                    assert(old_map.contains_key(old_cache[j0].key()));
                }
                if unexpired(old_map, timestamp).contains_key(k) {
                    let j0 = choose|j0: int| 0 <= j0 < old_cache.len() && (#[trigger] old_cache[j0]).key() == k;
                    assert(keep(old_cache[j0]));
                    old_cache.lemma_filter_contains(keep, j0);
                    assert(old_cache.filter(keep).contains(old_cache[j0]));
                    let j = choose|j: int| 0 <= j < self.cache@.len() && self.cache@[j] == old_cache[j0];
                    assert(self.cache_map@.contains_key(self.cache@[j].key()));
                }
            }
            assert(self.cache_map@ =~= unexpired(old_map, timestamp));
            lemma_cache_dom_len(old_cache, old_map, old_stats.cache_entries);
            lemma_cache_dom_len(self.cache@, self.cache_map@, self.stats.cache_entries);
        }
    }

    /// The statistics.
    pub fn stats(&self) -> (r: &DnsResolverStats)
        ensures
            *r == self.stats_spec(),
    {
        &self.stats
    }

    /// The configured servers.
    pub fn servers(&self) -> (r: &[Ipv4Address])
        ensures
            r@ == self.servers_spec(),
    {
        self.servers.as_slice()
    }

    /// Empties the cache and sets the entry counter to zero.
    pub fn clear_cache(&mut self)
        requires
            old(self).wf(),
        ensures
            final(self).wf(),
            final(self).cache_spec() == Map::<CacheKey, CacheValue>::empty(),
            final(self).stats_spec() == (DnsResolverStats { cache_entries: 0, ..old(self).stats_spec() }),
            final(self).servers_spec() == old(self).servers_spec(),
            final(self).next_id_spec() == old(self).next_id_spec(),
    {
        self.cache = Vec::new();
        self.cache_map = Ghost(Map::empty());
        self.stats.cache_entries = 0;
    }
}

impl Default for DnsResolver {
    fn default() -> (r: Self)
        ensures
            r.wf(),
            r.servers_spec() == Seq::<Ipv4Address>::empty(),
            r.cache_spec() == Map::<CacheKey, CacheValue>::empty(),
            r.next_id_spec() == 1,
            r.stats_spec() == DnsResolverStats::zero(),
    {
        Self::new()
    }
}

/// The wire form of a query with one question for `hostname`.
pub fn create_dns_query(id: u16, hostname: &str, record_type: DnsRecordType) -> (r: Vec<u8>)
    ensures
        r@ == header_wire(DnsHeader { qdcount: 1, ..DnsHeader::new_spec(id) }) + question_wire_parts(
            hostname@,
            record_type,
            DnsClass::In,
        ),
{
    let message = DnsMessage::new_query(id, hostname.to_owned(), record_type);
    proof {
        let qs = message.questions@;
        assert(qs.len() == 1);
        assert(qs.drop_last().len() == 0);
        assert(questions_wire(qs.drop_last()) =~= Seq::<u8>::empty());
        assert(qs.last() == qs[0]);
        assert(questions_wire(qs) =~= question_wire(qs[0]));
        assert(records_wire(message.answers@).len() == 0);
        assert(records_wire(message.authority@).len() == 0);
        assert(records_wire(message.additional@).len() == 0);
    }
    match message.to_bytes() {
        Ok(b) => {
            assert(b@ =~= header_wire(DnsHeader { qdcount: 1, ..DnsHeader::new_spec(id) }) + question_wire_parts(
                hostname@,
                record_type,
                DnsClass::In,
            ));
            b
        },
        Err(_) => Vec::new(),
    }
}

/// Parses a DNS message.
pub fn parse_dns_response(data: &[u8]) -> (r: Result<DnsMessage, NetworkError>)
    ensures
        r is Err <==> message_error(data@) is Some,
        r matches Err(e) ==> message_error(data@) == Some(e),
        r matches Ok(m) ==> message_read(data@, m),
{
    DnsMessage::from_bytes(data)
}

/// The addresses of the A answers with four data bytes, in order.
pub fn extract_ipv4_addresses(message: &DnsMessage) -> (r: Vec<Ipv4Address>)
    ensures
        address_bytes(r@) == ipv4_data(record_views(message.answers@)),
{
    ipv4_addresses(&message.answers)
}

} // verus!
