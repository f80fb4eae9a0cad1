use vstd::prelude::*;
use crate::net::types::{Ipv4Address, MacAddress, NetworkError};
use crate::net::wire::{be16, be32, from_be16, from_be32, u16_to_be, u32_to_be, be_to_u16, be_to_u32};

verus! {

broadcast use vstd::array::group_array_axioms;

/// DHCP message types (option 53).
#[derive(Debug, Clone, Copy, PartialEq, Eq, Structural)]
pub enum DhcpMessageType {
    Discover,
    Offer,
    Request,
    Decline,
    Ack,
    Nak,
    Release,
    Inform,
}

/// The message type of a code; unknown codes read as `Discover`.
pub open spec fn message_type_of(value: u8) -> DhcpMessageType {
    match value {
        2 => DhcpMessageType::Offer,
        3 => DhcpMessageType::Request,
        4 => DhcpMessageType::Decline,
        5 => DhcpMessageType::Ack,
        6 => DhcpMessageType::Nak,
        7 => DhcpMessageType::Release,
        8 => DhcpMessageType::Inform,
        _ => DhcpMessageType::Discover,
    }
}

/// The code of a message type.
pub open spec fn message_type_code(t: DhcpMessageType) -> u8 {
    match t {
        DhcpMessageType::Discover => 1,
        DhcpMessageType::Offer => 2,
        DhcpMessageType::Request => 3,
        DhcpMessageType::Decline => 4,
        DhcpMessageType::Ack => 5,
        DhcpMessageType::Nak => 6,
        DhcpMessageType::Release => 7,
        DhcpMessageType::Inform => 8,
    }
}

impl From<u8> for DhcpMessageType {
    fn from(value: u8) -> (r: Self) {
        match value {
            1 => DhcpMessageType::Discover,
            2 => DhcpMessageType::Offer,
            3 => DhcpMessageType::Request,
            4 => DhcpMessageType::Decline,
            5 => DhcpMessageType::Ack,
            6 => DhcpMessageType::Nak,
            7 => DhcpMessageType::Release,
            8 => DhcpMessageType::Inform,
            _ => DhcpMessageType::Discover,
        }
    }
}

impl vstd::std_specs::convert::FromSpecImpl<u8> for DhcpMessageType {
    open spec fn obeys_from_spec() -> bool {
        true
    }

    open spec fn from_spec(v: u8) -> Self {
        message_type_of(v)
    }
}

impl From<DhcpMessageType> for u8 {
    fn from(msg_type: DhcpMessageType) -> (r: u8) {
        match msg_type {
            DhcpMessageType::Discover => 1,
            DhcpMessageType::Offer => 2,
            DhcpMessageType::Request => 3,
            DhcpMessageType::Decline => 4,
            DhcpMessageType::Ack => 5,
            DhcpMessageType::Nak => 6,
            DhcpMessageType::Release => 7,
            DhcpMessageType::Inform => 8,
        }
    }
}

impl vstd::std_specs::convert::FromSpecImpl<DhcpMessageType> for u8 {
    open spec fn obeys_from_spec() -> bool {
        true
    }

    open spec fn from_spec(v: DhcpMessageType) -> Self {
        message_type_code(v)
    }
}

/// Converting a message type to its code and back gives it back.
pub proof fn lemma_message_type_roundtrip(t: DhcpMessageType)
    ensures
        message_type_of(message_type_code(t)) == t,
{
}

/// BOOTP operation codes.
#[derive(Debug, Clone, Copy, PartialEq, Eq, Structural)]
pub enum DhcpOperation {
    BootRequest,
    BootReply,
}

/// The operation of a code; unknown codes read as `BootRequest`.
pub open spec fn operation_of(value: u8) -> DhcpOperation {
    if value == 2 {
        DhcpOperation::BootReply
    } else {
        DhcpOperation::BootRequest
    }
}

/// The code of an operation.
pub open spec fn operation_code(op: DhcpOperation) -> u8 {
    match op {
        DhcpOperation::BootRequest => 1,
        DhcpOperation::BootReply => 2,
    }
}

impl From<u8> for DhcpOperation {
    fn from(value: u8) -> (r: Self) {
        match value {
            1 => DhcpOperation::BootRequest,
            2 => DhcpOperation::BootReply,
            _ => DhcpOperation::BootRequest,
        }
    }
}

impl vstd::std_specs::convert::FromSpecImpl<u8> for DhcpOperation {
    open spec fn obeys_from_spec() -> bool {
        true
    }

    open spec fn from_spec(v: u8) -> Self {
        operation_of(v)
    }
}

impl From<DhcpOperation> for u8 {
    fn from(op: DhcpOperation) -> (r: u8) {
        match op {
            DhcpOperation::BootRequest => 1,
            DhcpOperation::BootReply => 2,
        }
    }
}

impl vstd::std_specs::convert::FromSpecImpl<DhcpOperation> for u8 {
    open spec fn obeys_from_spec() -> bool {
        true
    }

    open spec fn from_spec(v: DhcpOperation) -> Self {
        operation_code(v)
    }
}

/// Hardware types.
#[derive(Debug, Clone, Copy, PartialEq, Eq, Structural)]
pub enum DhcpHardwareType {
    Ethernet,
}

impl From<DhcpHardwareType> for u8 {
    fn from(hw_type: DhcpHardwareType) -> (r: u8) {
        match hw_type {
            DhcpHardwareType::Ethernet => 1,
        }
    }
}

impl vstd::std_specs::convert::FromSpecImpl<DhcpHardwareType> for u8 {
    open spec fn obeys_from_spec() -> bool {
        true
    }

    open spec fn from_spec(v: DhcpHardwareType) -> Self {
        1
    }
}

/// States of the DHCP client (RFC 2131 figure 5).
#[derive(Debug, Clone, Copy, PartialEq, Eq, Structural)]
pub enum DhcpClientState {
    Init,
    Selecting,
    Requesting,
    Bound,
    Renewing,
    Rebinding,
    InitReboot,
    Rebooting,
}

/// The number of a client state, in declaration order from zero.
pub open spec fn state_number(s: DhcpClientState) -> u8 {
    match s {
        DhcpClientState::Init => 0,
        DhcpClientState::Selecting => 1,
        DhcpClientState::Requesting => 2,
        DhcpClientState::Bound => 3,
        DhcpClientState::Renewing => 4,
        DhcpClientState::Rebinding => 5,
        DhcpClientState::InitReboot => 6,
        DhcpClientState::Rebooting => 7,
    }
}

impl DhcpClientState {
    /// The number of the state, in declaration order from zero.
    pub fn number(&self) -> (r: u8)
        ensures
            r == state_number(*self),
    {
        match self {
            DhcpClientState::Init => 0,
            DhcpClientState::Selecting => 1,
            DhcpClientState::Requesting => 2,
            DhcpClientState::Bound => 3,
            DhcpClientState::Renewing => 4,
            DhcpClientState::Rebinding => 5,
            DhcpClientState::InitReboot => 6,
            DhcpClientState::Rebooting => 7,
        }
    }

    /// The state's name as written in RFC 2131.
    pub fn name(&self) -> (r: &'static str)
        ensures
            r@ == state_name(*self)@,
    {
        match self {
            DhcpClientState::Init => "INIT",
            DhcpClientState::Selecting => "SELECTING",
            DhcpClientState::Requesting => "REQUESTING",
            DhcpClientState::Bound => "BOUND",
            DhcpClientState::Renewing => "RENEWING",
            DhcpClientState::Rebinding => "REBINDING",
            DhcpClientState::InitReboot => "INIT-REBOOT",
            DhcpClientState::Rebooting => "REBOOTING",
        }
    }
}

/// The name of a client state.
pub open spec fn state_name(s: DhcpClientState) -> &'static str {
    match s {
        DhcpClientState::Init => "INIT",
        DhcpClientState::Selecting => "SELECTING",
        DhcpClientState::Requesting => "REQUESTING",
        DhcpClientState::Bound => "BOUND",
        DhcpClientState::Renewing => "RENEWING",
        DhcpClientState::Rebinding => "REBINDING",
        DhcpClientState::InitReboot => "INIT-REBOOT",
        DhcpClientState::Rebooting => "REBOOTING",
    }
}

/// The magic cookie of DHCP messages.
pub const DHCP_MAGIC_COOKIE: u32 = 0x63825363;

/// A BOOTP/DHCP message (fixed part).
#[derive(Debug, Clone)]
pub struct DhcpPacket {
    pub operation: DhcpOperation,
    pub hardware_type: DhcpHardwareType,
    pub hardware_length: u8,
    pub hops: u8,
    pub transaction_id: u32,
    pub seconds: u16,
    pub flags: u16,
    pub client_ip: Ipv4Address,
    pub your_ip: Ipv4Address,
    pub server_ip: Ipv4Address,
    pub gateway_ip: Ipv4Address,
    pub client_hardware_address: [u8; 16],
    pub server_name: [u8; 64],
    pub boot_filename: [u8; 128],
    pub magic_cookie: u32,
    pub message_type: Option<DhcpMessageType>,
    pub lease_time: Option<u32>,
}

/// The 240 bytes of the fixed part of a DHCP message.
pub open spec fn dhcp_wire(p: DhcpPacket) -> Seq<u8> {
    seq![operation_code(p.operation), 1u8, p.hardware_length, p.hops] + be32(p.transaction_id) + be16(
        p.seconds,
    ) + be16(p.flags) + p.client_ip.0@ + p.your_ip.0@ + p.server_ip.0@ + p.gateway_ip.0@
        + p.client_hardware_address@ + p.server_name@ + p.boot_filename@ + be32(p.magic_cookie)
}

/// `p` is what `from_bytes` reads from the 240 or more bytes `d`.
pub open spec fn dhcp_parsed(d: Seq<u8>, p: DhcpPacket) -> bool {
    &&& p.operation == operation_of(d[0])
    &&& p.hardware_type == DhcpHardwareType::Ethernet
    &&& p.hardware_length == d[2]
    &&& p.hops == d[3]
    &&& p.transaction_id == from_be32(d[4], d[5], d[6], d[7])
    &&& p.seconds == from_be16(d[8], d[9])
    &&& p.flags == from_be16(d[10], d[11])
    &&& p.client_ip.0@ == d.subrange(12, 16)
    &&& p.your_ip.0@ == d.subrange(16, 20)
    &&& p.server_ip.0@ == d.subrange(20, 24)
    &&& p.gateway_ip.0@ == d.subrange(24, 28)
    &&& p.client_hardware_address@ == d.subrange(28, 44)
    &&& p.server_name@ == d.subrange(44, 108)
    &&& p.boot_filename@ == d.subrange(108, 236)
    &&& p.magic_cookie == from_be32(d[236], d[237], d[238], d[239])
    &&& p.message_type is None
    &&& p.lease_time is None
}

/// An array holding `data[start..start + N]`.
fn read_array<const N: usize>(data: &[u8], start: usize) -> (r: [u8; N])
    requires
        start + N <= data@.len(),
    ensures
        r@ == data@.subrange(start as int, start + N),
{
    let mut a = [0u8; N];
    let dl = data.len();
    let mut i: usize = 0;
    while i < N
        invariant
            dl == data@.len(),
            i <= N,
            start + N <= data@.len(),
            a@.len() == N,
            forall|k: int| 0 <= k < i ==> a@[k] == data@[start + k],
        decreases N - i,
    {
        a[i] = data[start + i];
        i = i + 1;
    }
    assert(a@ =~= data@.subrange(start as int, start + N));
    a
}

/// Writes `src` into `dst` from `at` on.
fn write_at<const N: usize>(dst: &mut [u8; N], at: usize, src: &[u8])
    requires
        at + src@.len() <= N,
    ensures
        final(dst)@ == old(dst)@.subrange(0, at as int) + src@ + old(dst)@.subrange(
            at + src@.len(),
            N as int,
        ),
{
    let ghost d0 = dst@;
    let mut i: usize = 0;
    while i < src.len()
        invariant
            i <= src@.len(),
            at + src@.len() <= N,
            dst@.len() == N,
            forall|k: int| 0 <= k < at ==> dst@[k] == d0[k],
            forall|k: int| at <= k < at + i ==> dst@[k] == src@[k - at],
            forall|k: int| at + i <= k < N ==> dst@[k] == d0[k],
        decreases src@.len() - i,
    {
        dst[at + i] = src[i];
        i = i + 1;
    }
    assert(dst@ =~= d0.subrange(0, at as int) + src@ + d0.subrange(at + src@.len(), N as int));
}

impl DhcpPacket {
    /// The magic cookie of DHCP messages.
    pub const MAGIC_COOKIE: u32 = 0x63825363;

    /// A message with all addresses zero and the client hardware address
    /// `client_mac` padded with zeros.
    pub fn new(operation: DhcpOperation, transaction_id: u32, client_mac: MacAddress) -> (r: Self)
        ensures
            r.operation == operation,
            r.hardware_type == DhcpHardwareType::Ethernet,
            r.hardware_length == 6,
            r.hops == 0,
            r.transaction_id == transaction_id,
            r.seconds == 0,
            r.flags == 0,
            r.client_ip.0@ == seq![0u8, 0u8, 0u8, 0u8],
            r.your_ip.0@ == seq![0u8, 0u8, 0u8, 0u8],
            r.server_ip.0@ == seq![0u8, 0u8, 0u8, 0u8],
            r.gateway_ip.0@ == seq![0u8, 0u8, 0u8, 0u8],
            r.client_hardware_address@ == client_mac.0@ + Seq::new(10, |i: int| 0u8),
            r.server_name@ == Seq::new(64, |i: int| 0u8),
            r.boot_filename@ == Seq::new(128, |i: int| 0u8),
            r.magic_cookie == DHCP_MAGIC_COOKIE,
            r.message_type is None,
            r.lease_time is None,
    {
        let mut client_hw = [0u8; 16];
        write_at(&mut client_hw, 0, &client_mac.0);
        assert(client_hw@ =~= client_mac.0@ + Seq::new(10, |i: int| 0u8));
        let server_name = [0u8; 64];
        let boot_filename = [0u8; 128];
        assert(server_name@ =~= Seq::new(64, |i: int| 0u8));
        assert(boot_filename@ =~= Seq::new(128, |i: int| 0u8));
        Self {
            operation,
            hardware_type: DhcpHardwareType::Ethernet,
            hardware_length: 6,
            hops: 0,
            transaction_id,
            seconds: 0,
            flags: 0,
            client_ip: Ipv4Address::new(0, 0, 0, 0),
            your_ip: Ipv4Address::new(0, 0, 0, 0),
            server_ip: Ipv4Address::new(0, 0, 0, 0),
            gateway_ip: Ipv4Address::new(0, 0, 0, 0),
            client_hardware_address: client_hw,
            server_name,
            boot_filename,
            magic_cookie: DHCP_MAGIC_COOKIE,
            message_type: None,
            lease_time: None,
        }
    }

    /// A broadcast DISCOVER request.
    pub fn create_discover(transaction_id: u32, client_mac: MacAddress) -> (r: Self)
        ensures
            r == (DhcpPacket {
                flags: 0x8000,
                message_type: Some(DhcpMessageType::Discover),
                ..Self::new_spec(DhcpOperation::BootRequest, transaction_id, client_mac)
            }),
    {
        let mut packet = Self::new(DhcpOperation::BootRequest, transaction_id, client_mac);
        proof {
            Self::lemma_new_spec(packet, DhcpOperation::BootRequest, transaction_id, client_mac);
        }
        packet.flags = 0x8000;
        packet.message_type = Some(DhcpMessageType::Discover);
        packet
    }

    /// A broadcast REQUEST for `requested_ip` from `server_ip`.
    pub fn create_request(
        transaction_id: u32,
        client_mac: MacAddress,
        requested_ip: Ipv4Address,
        server_ip: Ipv4Address,
    ) -> (r: Self)
        ensures
            r == (DhcpPacket {
                flags: 0x8000,
                message_type: Some(DhcpMessageType::Request),
                your_ip: requested_ip,
                server_ip,
                ..Self::new_spec(DhcpOperation::BootRequest, transaction_id, client_mac)
            }),
    {
        let mut packet = Self::new(DhcpOperation::BootRequest, transaction_id, client_mac);
        proof {
            Self::lemma_new_spec(packet, DhcpOperation::BootRequest, transaction_id, client_mac);
        }
        packet.flags = 0x8000;
        packet.message_type = Some(DhcpMessageType::Request);
        packet.your_ip = requested_ip;
        packet.server_ip = server_ip;
        packet
    }

    /// The packet `new` builds.
    pub closed spec fn new_spec(operation: DhcpOperation, transaction_id: u32, client_mac: MacAddress) -> DhcpPacket {
        choose|p: DhcpPacket| Self::is_new(p, operation, transaction_id, client_mac)
    }

    /// What `new` ensures of its result.
    pub open spec fn is_new(p: DhcpPacket, operation: DhcpOperation, transaction_id: u32, client_mac: MacAddress) -> bool {
        &&& p.operation == operation
        &&& p.hardware_type == DhcpHardwareType::Ethernet
        &&& p.hardware_length == 6
        &&& p.hops == 0
        &&& p.transaction_id == transaction_id
        &&& p.seconds == 0
        &&& p.flags == 0
        &&& p.client_ip.0@ == seq![0u8, 0u8, 0u8, 0u8]
        &&& p.your_ip.0@ == seq![0u8, 0u8, 0u8, 0u8]
        &&& p.server_ip.0@ == seq![0u8, 0u8, 0u8, 0u8]
        &&& p.gateway_ip.0@ == seq![0u8, 0u8, 0u8, 0u8]
        &&& p.client_hardware_address@ == client_mac.0@ + Seq::new(10, |i: int| 0u8)
        &&& p.server_name@ == Seq::new(64, |i: int| 0u8)
        &&& p.boot_filename@ == Seq::new(128, |i: int| 0u8)
        &&& p.magic_cookie == DHCP_MAGIC_COOKIE
        &&& p.message_type is None
        &&& p.lease_time is None
    }

    /// `new_spec` is the one packet that meets `is_new`.
    pub proof fn lemma_new_spec(p: DhcpPacket, operation: DhcpOperation, transaction_id: u32, client_mac: MacAddress)
        requires
            Self::is_new(p, operation, transaction_id, client_mac),
        ensures
            Self::new_spec(operation, transaction_id, client_mac) == p,
    {
        let q = Self::new_spec(operation, transaction_id, client_mac);
        assert(Self::is_new(q, operation, transaction_id, client_mac));
        assert(q.client_ip.0 =~= p.client_ip.0);
        assert(q.your_ip.0 =~= p.your_ip.0);
        assert(q.server_ip.0 =~= p.server_ip.0);
        assert(q.gateway_ip.0 =~= p.gateway_ip.0);
        assert(q.client_hardware_address =~= p.client_hardware_address);
        assert(q.server_name =~= p.server_name);
        assert(q.boot_filename =~= p.boot_filename);
    }

    /// The DHCP message type option, if known.
    pub fn message_type(&self) -> (r: Option<DhcpMessageType>)
        ensures
            r == self.message_type,
    {
        self.message_type
    }

    /// The lease time option, if known.
    pub fn get_lease_time(&self) -> (r: Option<u32>)
        ensures
            r == self.lease_time,
    {
        self.lease_time
    }

    /// The 240 bytes of the fixed part of the message.
    pub fn to_bytes(&self) -> (r: [u8; 240])
        ensures
            r@ == dhcp_wire(*self),
    {
        let mut bytes = [0u8; 240];
        let op: u8 = self.operation.into();
        let hw: u8 = self.hardware_type.into();
        bytes[0] = op;
        bytes[1] = hw;
        bytes[2] = self.hardware_length;
        bytes[3] = self.hops;
        write_at(&mut bytes, 4, &u32_to_be(self.transaction_id));
        write_at(&mut bytes, 8, &u16_to_be(self.seconds));
        write_at(&mut bytes, 10, &u16_to_be(self.flags));
        write_at(&mut bytes, 12, &self.client_ip.0);
        write_at(&mut bytes, 16, &self.your_ip.0);
        write_at(&mut bytes, 20, &self.server_ip.0);
        write_at(&mut bytes, 24, &self.gateway_ip.0);
        write_at(&mut bytes, 28, &self.client_hardware_address);
        write_at(&mut bytes, 44, &self.server_name);
        write_at(&mut bytes, 108, &self.boot_filename);
        write_at(&mut bytes, 236, &u32_to_be(self.magic_cookie));
        assert(bytes@ =~= dhcp_wire(*self));
        bytes
    }

    /// Reads the fixed part of a message: `InvalidPacket` when shorter than
    /// 240 bytes, `ProtocolError` when the magic cookie is wrong.
    pub fn from_bytes(data: &[u8]) -> (r: Result<Self, NetworkError>)
        ensures
            data@.len() < 240 ==> r == Err::<DhcpPacket, NetworkError>(NetworkError::InvalidPacket),
            data@.len() >= 240 && from_be32(data@[236], data@[237], data@[238], data@[239])
                != DHCP_MAGIC_COOKIE ==> r == Err::<DhcpPacket, NetworkError>(
                NetworkError::ProtocolError,
            ),
            data@.len() >= 240 && from_be32(data@[236], data@[237], data@[238], data@[239])
                == DHCP_MAGIC_COOKIE ==> (r matches Ok(p) && dhcp_parsed(data@, p)),
    {
        if data.len() < 240 {
            return Err(NetworkError::InvalidPacket);
        }
        let operation = DhcpOperation::from(data[0]);
        let transaction_id = be_to_u32(data[4], data[5], data[6], data[7]);
        let seconds = be_to_u16(data[8], data[9]);
        let flags = be_to_u16(data[10], data[11]);
        let client_ip = Ipv4Address::from_bytes(read_array(data, 12));
        let your_ip = Ipv4Address::from_bytes(read_array(data, 16));
        let server_ip = Ipv4Address::from_bytes(read_array(data, 20));
        let gateway_ip = Ipv4Address::from_bytes(read_array(data, 24));
        let client_hardware_address: [u8; 16] = read_array(data, 28);
        let server_name: [u8; 64] = read_array(data, 44);
        let boot_filename: [u8; 128] = read_array(data, 108);
        let magic_cookie = be_to_u32(data[236], data[237], data[238], data[239]);
        if magic_cookie != DHCP_MAGIC_COOKIE {
            return Err(NetworkError::ProtocolError);
        }
        Ok(Self {
            operation,
            hardware_type: DhcpHardwareType::Ethernet,
            hardware_length: data[2],
            hops: data[3],
            transaction_id,
            seconds,
            flags,
            client_ip,
            your_ip,
            server_ip,
            gateway_ip,
            client_hardware_address,
            server_name,
            boot_filename,
            magic_cookie,
            message_type: None,
            lease_time: None,
        })
    }
}

/// Reading back the bytes of a message gives the message, except the
/// options, which the fixed part does not carry.
pub proof fn lemma_dhcp_roundtrip(p: DhcpPacket, q: DhcpPacket)
    requires
        dhcp_parsed(dhcp_wire(p), q),
    ensures
        q.operation == p.operation,
        q.hardware_type == p.hardware_type,
        q.hardware_length == p.hardware_length,
        q.hops == p.hops,
        q.transaction_id == p.transaction_id,
        q.seconds == p.seconds,
        q.flags == p.flags,
        q.client_ip == p.client_ip,
        q.your_ip == p.your_ip,
        q.server_ip == p.server_ip,
        q.gateway_ip == p.gateway_ip,
        q.client_hardware_address == p.client_hardware_address,
        q.server_name == p.server_name,
        q.boot_filename == p.boot_filename,
        q.magic_cookie == p.magic_cookie,
{
    let d = dhcp_wire(p);
    assert(d.len() == 240);
    crate::net::wire::lemma_be32_roundtrip(p.transaction_id);
    crate::net::wire::lemma_be16_roundtrip(p.seconds);
    crate::net::wire::lemma_be16_roundtrip(p.flags);
    crate::net::wire::lemma_be32_roundtrip(p.magic_cookie);
    assert(d.subrange(12, 16) =~= p.client_ip.0@);
    assert(d.subrange(16, 20) =~= p.your_ip.0@);
    assert(d.subrange(20, 24) =~= p.server_ip.0@);
    assert(d.subrange(24, 28) =~= p.gateway_ip.0@);
    assert(d.subrange(28, 44) =~= p.client_hardware_address@);
    assert(d.subrange(44, 108) =~= p.server_name@);
    assert(d.subrange(108, 236) =~= p.boot_filename@);
    assert(q.client_ip.0 =~= p.client_ip.0);
    assert(q.your_ip.0 =~= p.your_ip.0);
    assert(q.server_ip.0 =~= p.server_ip.0);
    assert(q.gateway_ip.0 =~= p.gateway_ip.0);
    assert(q.client_hardware_address =~= p.client_hardware_address);
    assert(q.server_name =~= p.server_name);
    assert(q.boot_filename =~= p.boot_filename);
    match p.hardware_type {
        DhcpHardwareType::Ethernet => {},
    }
    match p.operation {
        DhcpOperation::BootRequest => {},
        DhcpOperation::BootReply => {},
    }
}


/// An address lease granted by a server.
#[derive(Debug, Clone)]
pub struct DhcpLease {
    pub ip_address: Ipv4Address,
    pub subnet_mask: Ipv4Address,
    pub gateway: Ipv4Address,
    pub dns_servers: [Ipv4Address; 2],
    pub lease_time: u32,
    pub renewal_time: u32,
    pub rebinding_time: u32,
    pub start_time: u32,
}

impl DhcpLease {
    /// The lease times can be added to the start time without overflow.
    pub open spec fn times_fit(&self) -> bool {
        &&& self.start_time + self.lease_time <= u32::MAX
        &&& self.start_time + self.renewal_time <= u32::MAX
        &&& self.start_time + self.rebinding_time <= u32::MAX
    }

    /// Whether the lease has run out at `current_time`.
    pub fn is_expired(&self, current_time: u32) -> (r: bool)
        requires
            self.start_time + self.lease_time <= u32::MAX,
        ensures
            r == (current_time > self.start_time + self.lease_time),
    {
        current_time > self.start_time + self.lease_time
    }

    /// Whether the renewal time (T1) has passed at `current_time`.
    pub fn needs_renewal(&self, current_time: u32) -> (r: bool)
        requires
            self.start_time + self.renewal_time <= u32::MAX,
        ensures
            r == (current_time > self.start_time + self.renewal_time),
    {
        current_time > self.start_time + self.renewal_time
    }

    /// Whether the rebinding time (T2) has passed at `current_time`.
    pub fn needs_rebinding(&self, current_time: u32) -> (r: bool)
        requires
            self.start_time + self.rebinding_time <= u32::MAX,
        ensures
            r == (current_time > self.start_time + self.rebinding_time),
    {
        current_time > self.start_time + self.rebinding_time
    }
}

/// Client statistics.
#[derive(Debug, Clone)]
pub struct DhcpClientStats {
    pub discovers_sent: u32,
    pub offers_received: u32,
    pub requests_sent: u32,
    pub acks_received: u32,
    pub current_state: DhcpClientState,
}

/// Errors of the DHCP client.
#[derive(Debug, Clone, Copy, PartialEq, Eq, Structural)]
pub enum DhcpError {
    InvalidPacket,
    InvalidState,
    Timeout,
    NetworkError,
}

impl DhcpError {
    /// A description of the error.
    pub fn message(&self) -> (r: &'static str)
        ensures
            r@ == dhcp_error_message(*self)@,
    {
        match self {
            DhcpError::InvalidPacket => "Invalid DHCP packet",
            DhcpError::InvalidState => "Invalid client state",
            DhcpError::Timeout => "DHCP timeout",
            DhcpError::NetworkError => "Network error",
        }
    }
}

/// The description of an error.
pub open spec fn dhcp_error_message(e: DhcpError) -> &'static str {
    match e {
        DhcpError::InvalidPacket => "Invalid DHCP packet",
        DhcpError::InvalidState => "Invalid client state",
        DhcpError::Timeout => "DHCP timeout",
        DhcpError::NetworkError => "Network error",
    }
}

/// The lease time a client uses when the server names none.
pub const DEFAULT_LEASE_TIME: u32 = 3600;

/// A DHCP client: discovery, request and lease upkeep.
pub struct DhcpClient {
    mac_address: MacAddress,
    state: DhcpClientState,
    transaction_id: u32,
    lease: Option<DhcpLease>,
    server_ip: Option<Ipv4Address>,
    discover_count: u32,
    request_count: u32,
}

/// The abstract state of a client.
pub struct DhcpClientView {
    pub mac_address: MacAddress,
    pub state: DhcpClientState,
    pub transaction_id: u32,
    pub lease: Option<DhcpLease>,
    pub server_ip: Option<Ipv4Address>,
    pub discover_count: u32,
    pub request_count: u32,
}

/// The lease granted by `ack` at `current_time`.
pub open spec fn lease_from_ack(ack: DhcpPacket, current_time: u32) -> DhcpLease {
    let lease_time = match ack.lease_time {
        Some(t) => t,
        None => DEFAULT_LEASE_TIME,
    };
    DhcpLease {
        ip_address: ack.your_ip,
        subnet_mask: Ipv4Address([255u8, 255u8, 255u8, 0u8]),
        gateway: ack.gateway_ip,
        dns_servers: [Ipv4Address([8u8, 8u8, 8u8, 8u8]), Ipv4Address([8u8, 8u8, 4u8, 4u8])],
        lease_time,
        renewal_time: (lease_time / 2) as u32,
        rebinding_time: ((lease_time * 7) / 8) as u32,
        start_time: current_time,
    }
}

impl View for DhcpClient {
    type V = DhcpClientView;

    closed spec fn view(&self) -> DhcpClientView {
        DhcpClientView {
            mac_address: self.mac_address,
            state: self.state,
            transaction_id: self.transaction_id,
            lease: self.lease,
            server_ip: self.server_ip,
            discover_count: self.discover_count,
            request_count: self.request_count,
        }
    }
}

impl DhcpClient {
    /// A client in state INIT without lease.
    pub fn new(mac_address: MacAddress) -> (r: Self)
        ensures
            r@ == (DhcpClientView {
                mac_address,
                state: DhcpClientState::Init,
                transaction_id: 0,
                lease: None,
                server_ip: None,
                discover_count: 0,
                request_count: 0,
            }),
    {
        Self {
            mac_address,
            state: DhcpClientState::Init,
            transaction_id: 0,
            lease: None,
            server_ip: None,
            discover_count: 0,
            request_count: 0,
        }
    }

    /// The current state.
    pub fn state(&self) -> (r: DhcpClientState)
        ensures
            r == self@.state,
    {
        self.state
    }

    /// Enters SELECTING with a new transaction ID and returns the DISCOVER
    /// to broadcast.
    pub fn start_discovery(&mut self) -> (r: DhcpPacket)
        requires
            old(self)@.discover_count < u32::MAX,
        ensures
            final(self)@ == (DhcpClientView {
                state: DhcpClientState::Selecting,
                transaction_id: old(self)@.transaction_id.wrapping_add(1),
                discover_count: (old(self)@.discover_count + 1) as u32,
                ..old(self)@
            }),
            r == (DhcpPacket {
                flags: 0x8000,
                message_type: Some(DhcpMessageType::Discover),
                ..DhcpPacket::new_spec(
                    DhcpOperation::BootRequest,
                    final(self)@.transaction_id,
                    old(self)@.mac_address,
                )
            }),
    {
        self.state = DhcpClientState::Selecting;
        self.transaction_id = self.transaction_id.wrapping_add(1);
        self.discover_count = self.discover_count + 1;
        DhcpPacket::create_discover(self.transaction_id, self.mac_address)
    }

    /// Accepts an OFFER of the current transaction while SELECTING: enters
    /// REQUESTING and returns the REQUEST for the offered address. Any other
    /// offer is refused with `InvalidPacket` and changes nothing.
    pub fn handle_offer(&mut self, offer: &DhcpPacket) -> (r: Result<DhcpPacket, NetworkError>)
        requires
            old(self)@.request_count < u32::MAX,
        ensures
            (old(self)@.state == DhcpClientState::Selecting && offer.transaction_id == old(self)@.transaction_id) <==> r is Ok,
            r is Err ==> r == Err::<DhcpPacket, NetworkError>(NetworkError::InvalidPacket)
                && final(self)@ == old(self)@,
            r matches Ok(req) ==> {
                &&& final(self)@ == (DhcpClientView {
                    state: DhcpClientState::Requesting,
                    server_ip: Some(offer.server_ip),
                    request_count: (old(self)@.request_count + 1) as u32,
                    ..old(self)@
                })
                &&& req == (DhcpPacket {
                    flags: 0x8000,
                    message_type: Some(DhcpMessageType::Request),
                    your_ip: offer.your_ip,
                    server_ip: offer.server_ip,
                    ..DhcpPacket::new_spec(
                        DhcpOperation::BootRequest,
                        old(self)@.transaction_id,
                        old(self)@.mac_address,
                    )
                })
            },
    {
        if self.state != DhcpClientState::Selecting {
            return Err(NetworkError::InvalidPacket);
        }
        if offer.transaction_id != self.transaction_id {
            return Err(NetworkError::InvalidPacket);
        }
        self.state = DhcpClientState::Requesting;
        self.server_ip = Some(offer.server_ip);
        self.request_count = self.request_count + 1;
        Ok(DhcpPacket::create_request(self.transaction_id, self.mac_address, offer.your_ip, offer.server_ip))
    }

    /// Accepts an ACK of the current transaction while REQUESTING: records
    /// the lease (an hour when the server names no lease time; renewal at
    /// half and rebinding at seven eighths of it) and enters BOUND. Any
    /// other ACK is refused with `InvalidPacket` and changes nothing.
    pub fn handle_ack(&mut self, ack: &DhcpPacket, current_time: u32) -> (r: Result<(), NetworkError>)
        requires
            (match ack.lease_time {
                Some(t) => t,
                None => DEFAULT_LEASE_TIME,
            }) * 7 <= u32::MAX,
        ensures
            (old(self)@.state == DhcpClientState::Requesting && ack.transaction_id == old(self)@.transaction_id) <==> r is Ok,
            r is Err ==> r == Err::<(), NetworkError>(NetworkError::InvalidPacket) && final(self)@
                == old(self)@,
            r is Ok ==> final(self)@ == (DhcpClientView {
                state: DhcpClientState::Bound,
                lease: Some(lease_from_ack(*ack, current_time)),
                ..old(self)@
            }),
    {
        if self.state != DhcpClientState::Requesting {
            return Err(NetworkError::InvalidPacket);
        }
        if ack.transaction_id != self.transaction_id {
            return Err(NetworkError::InvalidPacket);
        }
        let lease_time = match ack.get_lease_time() {
            Some(t) => t,
            None => DEFAULT_LEASE_TIME,
        };
        let renewal_time = lease_time / 2;
        let rebinding_time = (lease_time * 7) / 8;
        let lease = DhcpLease {
            ip_address: ack.your_ip,
            subnet_mask: Ipv4Address::new(255, 255, 255, 0),
            gateway: ack.gateway_ip,
            dns_servers: [Ipv4Address::new(8, 8, 8, 8), Ipv4Address::new(8, 8, 4, 4)],
            lease_time,
            renewal_time,
            rebinding_time,
            start_time: current_time,
        };
        assert(lease.subnet_mask.0 =~= [255u8, 255u8, 255u8, 0u8]);
        assert(lease.dns_servers[0].0 =~= [8u8, 8u8, 8u8, 8u8]);
        assert(lease.dns_servers[1].0 =~= [8u8, 8u8, 4u8, 4u8]);
        assert(lease.dns_servers =~= [Ipv4Address([8u8, 8u8, 8u8, 8u8]), Ipv4Address([8u8, 8u8, 4u8, 4u8])]);
        self.lease = Some(lease);
        self.state = DhcpClientState::Bound;
        Ok(())
    }

    /// The current lease, if any.
    pub fn lease(&self) -> (r: Option<&DhcpLease>)
        ensures
            r matches Some(l) ==> self@.lease == Some(*l),
            r is None <==> self@.lease is None,
    {
        match &self.lease {
            Some(l) => Some(l),
            None => None,
        }
    }

    /// Advances the lease timers: BOUND moves to RENEWING after T1,
    /// RENEWING to REBINDING after T2, REBINDING to INIT (dropping the
    /// lease) once it has expired; nothing else changes.
    pub fn update(&mut self, current_time: u32)
        requires
            old(self)@.lease matches Some(l) ==> l.times_fit(),
        ensures
            final(self)@ == update_spec(old(self)@, current_time),
    {
        match &self.lease {
            Some(lease) => {
                match self.state {
                    DhcpClientState::Bound => {
                        if lease.needs_renewal(current_time) {
                            self.state = DhcpClientState::Renewing;
                        }
                    },
                    DhcpClientState::Renewing => {
                        if lease.needs_rebinding(current_time) {
                            self.state = DhcpClientState::Rebinding;
                        }
                    },
                    DhcpClientState::Rebinding => {
                        if lease.is_expired(current_time) {
                            self.state = DhcpClientState::Init;
                            self.lease = None;
                        }
                    },
                    _ => {},
                }
            },
            None => {},
        }
    }

    /// Counts of the exchange so far.
    pub fn stats(&self) -> (r: DhcpClientStats)
        ensures
            r.discovers_sent == self@.discover_count,
            r.offers_received == if state_number(self@.state) > 1 {
                1u32
            } else {
                0u32
            },
            r.requests_sent == self@.request_count,
            r.acks_received == if self@.lease is Some {
                1u32
            } else {
                0u32
            },
            r.current_state == self@.state,
    {
        DhcpClientStats {
            discovers_sent: self.discover_count,
            offers_received: if self.state.number() > 1 {
                1
            } else {
                0
            },
            requests_sent: self.request_count,
            acks_received: if self.lease.is_some() {
                1
            } else {
                0
            },
            current_state: self.state,
        }
    }
}

/// The client after the lease timers are checked at `t`.
pub open spec fn update_spec(c: DhcpClientView, t: u32) -> DhcpClientView {
    match c.lease {
        Some(l) => match c.state {
            DhcpClientState::Bound => if t > l.start_time + l.renewal_time {
                DhcpClientView { state: DhcpClientState::Renewing, ..c }
            } else {
                c
            },
            DhcpClientState::Renewing => if t > l.start_time + l.rebinding_time {
                DhcpClientView { state: DhcpClientState::Rebinding, ..c }
            } else {
                c
            },
            DhcpClientState::Rebinding => if t > l.start_time + l.lease_time {
                DhcpClientView { state: DhcpClientState::Init, lease: None, ..c }
            } else {
                c
            },
            _ => c,
        },
        None => c,
    }
}

/// Timer checks never grant a lease and never move a client out of the
/// states SELECTING or REQUESTING; a client without lease is left alone.
pub proof fn lemma_update_keeps_exchange(c: DhcpClientView, t: u32)
    ensures
        c.lease is None ==> update_spec(c, t) == c,
        c.state == DhcpClientState::Selecting ==> update_spec(c, t) == c,
        c.state == DhcpClientState::Requesting ==> update_spec(c, t) == c,
        update_spec(c, t).lease is Some ==> update_spec(c, t).lease == c.lease,
        update_spec(c, t).transaction_id == c.transaction_id,
{
}

/// The lease timers move a client on only once their time has passed. A
/// bound client starts renewing exactly when the current time is past the
/// lease start plus the renewal time (T1), and is otherwise left as it was;
/// a renewing client starts rebinding exactly when the time is past the
/// start plus the rebinding time (T2); a rebinding client loses its lease
/// and starts over exactly when the time is past the end of the lease.
/// Nothing else about the client changes.
pub proof fn lemma_lease_timers(c: DhcpClientView, t: u32)
    requires
        c.lease is Some,
    ensures
        ({
            let l = c.lease->0;
            let n = update_spec(c, t);
            &&& c.state == DhcpClientState::Bound ==> {
                &&& (t <= l.start_time + l.renewal_time ==> n == c)
                &&& (t > l.start_time + l.renewal_time ==> n.state == DhcpClientState::Renewing && n.lease == c.lease)
            }
            &&& c.state == DhcpClientState::Renewing ==> {
                &&& (t <= l.start_time + l.rebinding_time ==> n == c)
                &&& (t > l.start_time + l.rebinding_time ==> n.state == DhcpClientState::Rebinding && n.lease == c.lease)
            }
            &&& c.state == DhcpClientState::Rebinding ==> {
                &&& (t <= l.start_time + l.lease_time ==> n == c)
                &&& (t > l.start_time + l.lease_time ==> n.state == DhcpClientState::Init && n.lease is None)
            }
            &&& n.mac_address == c.mac_address
            &&& n.server_ip == c.server_ip
            &&& n.discover_count == c.discover_count
            &&& n.request_count == c.request_count
        }),
{
}

/// The lease an ACK grants, and when it is renewed. The lease is for the
/// address the ACK gives the client, starts at the time of the ACK, lasts
/// the ACK's lease time (an hour when it names none), and renewal (T1) and
/// rebinding (T2) fall at half and seven eighths of it, so that
/// T1 <= T2 <= the end of the lease. A client bound by that lease stays
/// bound up to T1 and starts renewing after it.
pub proof fn lemma_ack_lease_schedule(c: DhcpClientView, ack: DhcpPacket, t0: u32, t: u32)
    requires
        (match ack.lease_time {
            Some(x) => x,
            None => DEFAULT_LEASE_TIME,
        }) * 7 <= u32::MAX,
    ensures
        ({
            let lt: u32 = match ack.lease_time {
                Some(x) => x,
                None => 3600,
            };
            let l = lease_from_ack(ack, t0);
            let b = DhcpClientView { state: DhcpClientState::Bound, lease: Some(l), ..c };
            &&& l.ip_address == ack.your_ip
            &&& l.gateway == ack.gateway_ip
            &&& l.start_time == t0
            &&& l.lease_time == lt
            &&& l.renewal_time == lt / 2
            &&& l.rebinding_time == lt * 7 / 8
            &&& l.renewal_time <= l.rebinding_time <= l.lease_time
            &&& (t <= t0 + lt / 2 ==> update_spec(b, t) == b)
            &&& (t > t0 + lt / 2 ==> update_spec(b, t).state == DhcpClientState::Renewing
                && update_spec(b, t).lease == Some(l))
        }),
{
    let lt: u32 = match ack.lease_time {
        Some(x) => x,
        None => 3600,
    };
    assert(lt / 2 <= lt * 7 / 8 <= lt) by (nonlinear_arith);
}

} // verus!
