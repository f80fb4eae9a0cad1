//! Network devices: the loopback and virtual Ethernet devices, their
//! capabilities and counters, and the table of registered devices.
//!
//! The kernel-wide table is the caller's: the functions here take it as an
//! argument.
use vstd::prelude::*;
use vstd::string::StringExecFns;
use crate::net::types::{NetworkAddress, NetworkError, NetworkResult};
use crate::net::buffer::PacketBuffer;
use crate::net::wire::copy_range;

verus! {

/// Packet and byte counters of an interface; they wrap around.
#[derive(Debug, Clone, Copy, PartialEq, Eq, Structural)]
pub struct InterfaceStats {
    pub rx_packets: u64,
    pub tx_packets: u64,
    pub rx_bytes: u64,
    pub tx_bytes: u64,
}

/// All counters zero.
pub open spec fn zero_stats() -> InterfaceStats {
    InterfaceStats { rx_packets: 0, tx_packets: 0, rx_bytes: 0, tx_bytes: 0 }
}

impl Default for InterfaceStats {
    fn default() -> (r: Self)
        ensures
            r == zero_stats(),
    {
        InterfaceStats { rx_packets: 0, tx_packets: 0, rx_bytes: 0, tx_bytes: 0 }
    }
}

/// Kinds of network devices.
#[derive(Debug, Clone, Copy, PartialEq, Eq, Structural)]
pub enum DeviceType {
    Ethernet,
    Wireless,
    Loopback,
    VirtualEthernet,
    Tunnel,
    Bridge,
}

/// What a device supports.
#[derive(Debug, Clone, Copy, PartialEq, Eq, Structural)]
pub struct DeviceCapabilities {
    pub max_mtu: u16,
    pub hw_checksum: bool,
    pub scatter_gather: bool,
    pub tso: bool,
    pub rss: bool,
    pub vlan: bool,
    pub jumbo_frames: bool,
}

impl Default for DeviceCapabilities {
    fn default() -> (r: Self)
        ensures
            r == (DeviceCapabilities {
                max_mtu: 1500,
                hw_checksum: false,
                scatter_gather: false,
                tso: false,
                rss: false,
                vlan: false,
                jumbo_frames: false,
            }),
    {
        DeviceCapabilities {
            max_mtu: 1500,
            hw_checksum: false,
            scatter_gather: false,
            tso: false,
            rss: false,
            vlan: false,
            jumbo_frames: false,
        }
    }
}

/// Link modes.
#[derive(Debug, Clone, Copy, PartialEq, Eq, Structural)]
pub enum LinkMode {
    Mode10BaseTHalf,
    Mode10BaseTFull,
    Mode100BaseTHalf,
    Mode100BaseTFull,
    Mode1000BaseTFull,
    Mode10GBaseTFull,
}

/// Duplex modes.
#[derive(Debug, Clone, Copy, PartialEq, Eq, Structural)]
pub enum DuplexMode {
    Half,
    Full,
}

/// Driver and link information of a device.
#[derive(Debug, Clone)]
pub struct DeviceInfo {
    pub driver: String,
    pub version: String,
    pub firmware: Option<String>,
    pub bus_info: Option<String>,
    pub link_modes: Vec<LinkMode>,
    pub link_speed: Option<u32>,
    pub duplex: Option<DuplexMode>,
}

/// The smallest MTU a device accepts (IPv4's minimum).
pub const MIN_MTU: u16 = 68;

/// The counters after sending a packet of `n` bytes.
pub open spec fn after_send(s: InterfaceStats, n: nat) -> InterfaceStats {
    InterfaceStats {
        tx_packets: vstd::wrapping::u64_specs::wrapping_add(s.tx_packets, 1),
        tx_bytes: vstd::wrapping::u64_specs::wrapping_add(s.tx_bytes, n as u64),
        ..s
    }
}

/// The counters after receiving a packet of `n` bytes.
pub open spec fn after_recv(s: InterfaceStats, n: nat) -> InterfaceStats {
    InterfaceStats {
        rx_packets: vstd::wrapping::u64_specs::wrapping_add(s.rx_packets, 1),
        rx_bytes: vstd::wrapping::u64_specs::wrapping_add(s.rx_bytes, n as u64),
        ..s
    }
}

fn count_send(s: InterfaceStats, n: usize) -> (r: InterfaceStats)
    ensures
        r == after_send(s, n as nat),
{
    InterfaceStats { tx_packets: s.tx_packets.wrapping_add(1), tx_bytes: s.tx_bytes.wrapping_add(n as u64), ..s }
}

fn count_recv(s: InterfaceStats, n: usize) -> (r: InterfaceStats)
    ensures
        r == after_recv(s, n as nat),
{
    InterfaceStats { rx_packets: s.rx_packets.wrapping_add(1), rx_bytes: s.rx_bytes.wrapping_add(n as u64), ..s }
}

/// A copy of the packet bytes `data` as a new buffer.
fn packet_copy(data: &[u8]) -> (r: PacketBuffer)
    ensures
        r.wf(),
        r.storage() == data@,
        r.length_spec() == data@.len(),
        r.read_pos_spec() == 0,
        r.write_pos_spec() == data@.len(),
{
    let v = copy_range(data, 0, data.len());
    assert(data@.subrange(0, data@.len() as int) =~= data@);
    PacketBuffer::from_data(v)
}

/// A network device.
pub trait NetworkDevice {
    /// The name.
    fn name(&self) -> &str;

    /// The kind of device.
    fn device_type(&self) -> DeviceType;

    /// The hardware address.
    fn mac_address(&self) -> NetworkAddress;

    /// What the device supports.
    fn capabilities(&self) -> DeviceCapabilities;

    /// The MTU.
    fn mtu(&self) -> u16;

    /// Sets the MTU.
    fn set_mtu(&mut self, mtu: u16) -> NetworkResult<()>;

    /// Whether the device is up.
    fn is_up(&self) -> bool;

    /// Brings the device up.
    fn up(&mut self) -> NetworkResult<()>;

    /// Brings the device down.
    fn down(&mut self) -> NetworkResult<()>;

    /// Sends a packet.
    fn send(&mut self, packet: PacketBuffer) -> NetworkResult<()>
        requires
            packet.wf(),
    ;

    /// Receives a packet, if one is waiting.
    fn recv(&mut self) -> NetworkResult<Option<PacketBuffer>>;

    /// The counters.
    fn stats(&self) -> InterfaceStats;

    /// Sets the counters to zero.
    fn reset_stats(&mut self);

    /// Driver and link information.
    fn device_info(&self) -> DeviceInfo;
}

/// The loopback device: what it sends it receives.
#[derive(Debug)]
pub struct LoopbackDevice {
    name: String,
    mac_address: NetworkAddress,
    mtu: u16,
    up: bool,
    stats: InterfaceStats,
    recv_queue: Vec<PacketBuffer>,
}

impl LoopbackDevice {
    /// The name.
    pub closed spec fn name_spec(&self) -> Seq<char> {
        self.name@
    }

    /// The MTU.
    pub closed spec fn mtu_spec(&self) -> u16 {
        self.mtu
    }

    /// Whether the device is up.
    pub closed spec fn up_spec(&self) -> bool {
        self.up
    }

    /// The counters.
    pub closed spec fn stats_spec(&self) -> InterfaceStats {
        self.stats
    }

    /// The packets waiting to be received (the last is received first).
    pub closed spec fn queue(&self) -> Seq<PacketBuffer> {
        self.recv_queue@
    }

    /// `lo`, down, MTU 65535, zero hardware address, nothing queued.
    pub fn new() -> (r: Self)
        ensures
            r.name_spec() == "lo"@,
            r.mtu_spec() == 65535,
            !r.up_spec(),
            r.stats_spec() == zero_stats(),
            r.queue().len() == 0,
    {
        LoopbackDevice {
            name: String::from_str("lo"),
            mac_address: NetworkAddress::Mac([0, 0, 0, 0, 0, 0]),
            mtu: 65535,
            up: false,
            stats: InterfaceStats::default(),
            recv_queue: Vec::new(),
        }
    }
}

impl NetworkDevice for LoopbackDevice {
    /// The name.
    fn name(&self) -> (r: &str)
        ensures
            r@ == self.name_spec(),
    {
        self.name.as_str()
    }

    /// Always `Loopback`.
    fn device_type(&self) -> (r: DeviceType)
        ensures
            r == DeviceType::Loopback,
    {
        DeviceType::Loopback
    }

    /// The all-zero hardware address.
    fn mac_address(&self) -> (r: NetworkAddress)
        ensures
            r == NetworkAddress::Mac([0u8, 0u8, 0u8, 0u8, 0u8, 0u8]),
    {
        NetworkAddress::Mac([0, 0, 0, 0, 0, 0])
    }

    /// MTU 65535, checksums, scatter-gather, TSO and jumbo frames.
    fn capabilities(&self) -> (r: DeviceCapabilities)
        ensures
            r == (DeviceCapabilities {
                max_mtu: 65535,
                hw_checksum: true,
                scatter_gather: true,
                tso: true,
                rss: false,
                vlan: false,
                jumbo_frames: true,
            }),
    {
        DeviceCapabilities {
            max_mtu: 65535,
            hw_checksum: true,
            scatter_gather: true,
            tso: true,
            rss: false,
            vlan: false,
            jumbo_frames: true,
        }
    }

    /// The MTU.
    fn mtu(&self) -> (r: u16)
        ensures
            r == self.mtu_spec(),
    {
        self.mtu
    }

    /// Sets the MTU; `InvalidArgument` under 68.
    fn set_mtu(&mut self, mtu: u16) -> (r: NetworkResult<()>)
        ensures
            mtu < MIN_MTU ==> r == Err::<(), NetworkError>(NetworkError::InvalidArgument) && final(self).mtu_spec()
                == old(self).mtu_spec(),
            mtu >= MIN_MTU ==> r is Ok && final(self).mtu_spec() == mtu,
            final(self).name_spec() == old(self).name_spec(),
            final(self).up_spec() == old(self).up_spec(),
            final(self).stats_spec() == old(self).stats_spec(),
            final(self).queue() == old(self).queue(),
    {
        if mtu < MIN_MTU {
            return Err(NetworkError::InvalidArgument);
        }
        self.mtu = mtu;
        Ok(())
    }

    /// Whether the device is up.
    fn is_up(&self) -> (r: bool)
        ensures
            r == self.up_spec(),
    {
        self.up
    }

    /// Brings the device up.
    fn up(&mut self) -> (r: NetworkResult<()>)
        ensures
            r is Ok,
            final(self).up_spec(),
            final(self).name_spec() == old(self).name_spec(),
            final(self).mtu_spec() == old(self).mtu_spec(),
            final(self).stats_spec() == old(self).stats_spec(),
            final(self).queue() == old(self).queue(),
    {
        self.up = true;
        Ok(())
    }

    /// Brings the device down, dropping what was queued.
    fn down(&mut self) -> (r: NetworkResult<()>)
        ensures
            r is Ok,
            !final(self).up_spec(),
            final(self).queue().len() == 0,
            final(self).name_spec() == old(self).name_spec(),
            final(self).mtu_spec() == old(self).mtu_spec(),
            final(self).stats_spec() == old(self).stats_spec(),
    {
        self.up = false;
        self.recv_queue.clear();
        Ok(())
    }

    /// Sends `packet` to itself: `NetworkUnreachable` when down,
    /// `InvalidPacket` for less than an Ethernet header (14 bytes); else a
    /// copy of the packet is queued and counted.
    fn send(&mut self, packet: PacketBuffer) -> (r: NetworkResult<()>)
        ensures
            loopback_sent(*old(self), *final(self), packet, r),

    {
        if !self.up {
            return Err(NetworkError::NetworkUnreachable);
        }
        let packet_data = packet.as_slice();
        if packet_data.len() == 0 {
            return Err(NetworkError::InvalidPacket);
        }
        if packet_data.len() < 14 {
            return Err(NetworkError::InvalidPacket);
        }
        let copy = packet_copy(packet_data);
        self.recv_queue.push(copy);
        self.stats = count_send(self.stats, packet_data.len());
        assert(self.recv_queue@.drop_last() =~= old(self).recv_queue@);
        Ok(())
    }

    /// The last queued packet, counted as received; nothing when down or
    /// when nothing is queued.
    fn recv(&mut self) -> (r: NetworkResult<Option<PacketBuffer>>)
        ensures
            loopback_received(*old(self), *final(self), r),

    {
        if !self.up {
            return Ok(None);
        }
        match self.recv_queue.pop() {
            Some(packet) => {
                self.stats = count_recv(self.stats, packet.len());
                Ok(Some(packet))
            },
            None => Ok(None),
        }
    }

    /// The counters.
    fn stats(&self) -> (r: InterfaceStats)
        ensures
            r == self.stats_spec(),
    {
        self.stats
    }

    /// Sets all counters to zero.
    fn reset_stats(&mut self)
        ensures
            final(self).stats_spec() == zero_stats(),
            final(self).name_spec() == old(self).name_spec(),
            final(self).mtu_spec() == old(self).mtu_spec(),
            final(self).up_spec() == old(self).up_spec(),
            final(self).queue() == old(self).queue(),
    {
        self.stats = InterfaceStats::default();
    }

    /// Driver `loopback` 1.0.0, no link information.
    fn device_info(&self) -> (r: DeviceInfo)
        ensures
            r.driver@ == "loopback"@,
            r.version@ == "1.0.0"@,
            r.firmware is None,
            r.bus_info is None,
            r.link_modes@.len() == 0,
            r.link_speed is None,
            r.duplex is None,
    {
        DeviceInfo {
            driver: String::from_str("loopback"),
            version: String::from_str("1.0.0"),
            firmware: None,
            bus_info: None,
            link_modes: Vec::new(),
            link_speed: None,
            duplex: None,
        }
    }
}


/// A virtual Ethernet device: what it sends to its peer it queues for
/// receiving.
#[derive(Debug)]
pub struct VirtualEthernetDevice {
    name: String,
    mac_address: NetworkAddress,
    mtu: u16,
    up: bool,
    stats: InterfaceStats,
    peer: Option<String>,
    recv_queue: Vec<PacketBuffer>,
}

impl VirtualEthernetDevice {
    /// The name.
    pub closed spec fn name_spec(&self) -> Seq<char> {
        self.name@
    }

    /// The hardware address.
    pub closed spec fn mac_spec(&self) -> NetworkAddress {
        self.mac_address
    }

    /// The MTU.
    pub closed spec fn mtu_spec(&self) -> u16 {
        self.mtu
    }

    /// Whether the device is up.
    pub closed spec fn up_spec(&self) -> bool {
        self.up
    }

    /// The counters.
    pub closed spec fn stats_spec(&self) -> InterfaceStats {
        self.stats
    }

    /// The peer's name, if one is set.
    pub closed spec fn peer_spec(&self) -> Option<Seq<char>> {
        match self.peer {
            Some(p) => Some(p@),
            None => None,
        }
    }

    /// The packets waiting to be received (the last is received first).
    pub closed spec fn queue(&self) -> Seq<PacketBuffer> {
        self.recv_queue@
    }

    /// A device `name` with hardware address `mac_address`: down, MTU
    /// 1500, no peer, nothing queued.
    pub fn new(name: String, mac_address: NetworkAddress) -> (r: Self)
        ensures
            r.name_spec() == name@,
            r.mac_spec() == mac_address,
            r.mtu_spec() == 1500,
            !r.up_spec(),
            r.stats_spec() == zero_stats(),
            r.peer_spec() is None,
            r.queue().len() == 0,
    {
        VirtualEthernetDevice {
            name,
            mac_address,
            mtu: 1500,
            up: false,
            stats: InterfaceStats::default(),
            peer: None,
            recv_queue: Vec::new(),
        }
    }

    /// Sets the peer.
    pub fn set_peer(&mut self, peer_name: String)
        ensures
            final(self).peer_spec() == Some(peer_name@),
            final(self).name_spec() == old(self).name_spec(),
            final(self).mac_spec() == old(self).mac_spec(),
            final(self).mtu_spec() == old(self).mtu_spec(),
            final(self).up_spec() == old(self).up_spec(),
            final(self).stats_spec() == old(self).stats_spec(),
            final(self).queue() == old(self).queue(),
    {
        self.peer = Some(peer_name);
    }
}

impl NetworkDevice for VirtualEthernetDevice {
    /// The name.
    fn name(&self) -> (r: &str)
        ensures
            r@ == self.name_spec(),
    {
        self.name.as_str()
    }

    /// Always `VirtualEthernet`.
    fn device_type(&self) -> (r: DeviceType)
        ensures
            r == DeviceType::VirtualEthernet,
    {
        DeviceType::VirtualEthernet
    }

    /// The hardware address.
    fn mac_address(&self) -> (r: NetworkAddress)
        ensures
            r == self.mac_spec(),
    {
        self.mac_address
    }

    /// MTU 65535, scatter-gather, VLAN and jumbo frames.
    fn capabilities(&self) -> (r: DeviceCapabilities)
        ensures
            r == (DeviceCapabilities {
                max_mtu: 65535,
                hw_checksum: false,
                scatter_gather: true,
                tso: false,
                rss: false,
                vlan: true,
                jumbo_frames: true,
            }),
    {
        DeviceCapabilities {
            max_mtu: 65535,
            hw_checksum: false,
            scatter_gather: true,
            tso: false,
            rss: false,
            vlan: true,
            jumbo_frames: true,
        }
    }

    /// The MTU.
    fn mtu(&self) -> (r: u16)
        ensures
            r == self.mtu_spec(),
    {
        self.mtu
    }

    /// Sets the MTU; `InvalidArgument` under 68.
    fn set_mtu(&mut self, mtu: u16) -> (r: NetworkResult<()>)
        ensures
            mtu < MIN_MTU ==> r == Err::<(), NetworkError>(NetworkError::InvalidArgument) && final(self).mtu_spec()
                == old(self).mtu_spec(),
            mtu >= MIN_MTU ==> r is Ok && final(self).mtu_spec() == mtu,
            final(self).name_spec() == old(self).name_spec(),
            final(self).mac_spec() == old(self).mac_spec(),
            final(self).up_spec() == old(self).up_spec(),
            final(self).stats_spec() == old(self).stats_spec(),
            final(self).peer_spec() == old(self).peer_spec(),
            final(self).queue() == old(self).queue(),
    {
        if mtu < MIN_MTU {
            return Err(NetworkError::InvalidArgument);
        }
        self.mtu = mtu;
        Ok(())
    }

    /// Whether the device is up.
    fn is_up(&self) -> (r: bool)
        ensures
            r == self.up_spec(),
    {
        self.up
    }

    /// Brings the device up.
    fn up(&mut self) -> (r: NetworkResult<()>)
        ensures
            r is Ok,
            final(self).up_spec(),
            final(self).name_spec() == old(self).name_spec(),
            final(self).mac_spec() == old(self).mac_spec(),
            final(self).mtu_spec() == old(self).mtu_spec(),
            final(self).stats_spec() == old(self).stats_spec(),
            final(self).peer_spec() == old(self).peer_spec(),
            final(self).queue() == old(self).queue(),
    {
        self.up = true;
        Ok(())
    }

    /// Brings the device down, dropping what was queued.
    fn down(&mut self) -> (r: NetworkResult<()>)
        ensures
            r is Ok,
            !final(self).up_spec(),
            final(self).queue().len() == 0,
            final(self).name_spec() == old(self).name_spec(),
            final(self).mac_spec() == old(self).mac_spec(),
            final(self).mtu_spec() == old(self).mtu_spec(),
            final(self).stats_spec() == old(self).stats_spec(),
            final(self).peer_spec() == old(self).peer_spec(),
    {
        self.up = false;
        self.recv_queue.clear();
        Ok(())
    }

    /// Sends `packet`: `NetworkUnreachable` when down, `InvalidPacket` for
    /// less than an Ethernet header (14 bytes), `BufferOverflow` for more
    /// than the MTU and the header; else the packet is counted, and with a
    /// peer a copy is queued for receiving.
    fn send(&mut self, packet: PacketBuffer) -> (r: NetworkResult<()>)
        ensures
            veth_sent(*old(self), *final(self), packet, r),

    {
        if !self.up {
            return Err(NetworkError::NetworkUnreachable);
        }
        let packet_data = packet.as_slice();
        if packet_data.len() < 14 {
            return Err(NetworkError::InvalidPacket);
        }
        if packet_data.len() > self.mtu as usize + 14 {
            return Err(NetworkError::BufferOverflow);
        }
        if self.peer.is_some() {
            let copy = packet_copy(packet_data);
            self.recv_queue.push(copy);
            assert(self.recv_queue@.drop_last() =~= old(self).recv_queue@);
        }
        self.stats = count_send(self.stats, packet_data.len());
        Ok(())
    }

    /// The last queued packet, counted as received; nothing when down or
    /// when nothing is queued.
    fn recv(&mut self) -> (r: NetworkResult<Option<PacketBuffer>>)
        ensures
            veth_received(*old(self), *final(self), r),

    {
        if !self.up {
            return Ok(None);
        }
        match self.recv_queue.pop() {
            Some(packet) => {
                self.stats = count_recv(self.stats, packet.len());
                Ok(Some(packet))
            },
            None => Ok(None),
        }
    }

    /// The counters.
    fn stats(&self) -> (r: InterfaceStats)
        ensures
            r == self.stats_spec(),
    {
        self.stats
    }

    /// Sets all counters to zero.
    fn reset_stats(&mut self)
        ensures
            final(self).stats_spec() == zero_stats(),
            final(self).name_spec() == old(self).name_spec(),
            final(self).mac_spec() == old(self).mac_spec(),
            final(self).mtu_spec() == old(self).mtu_spec(),
            final(self).up_spec() == old(self).up_spec(),
            final(self).peer_spec() == old(self).peer_spec(),
            final(self).queue() == old(self).queue(),
    {
        self.stats = InterfaceStats::default();
    }

    /// Driver `veth` 1.0.0: 10, 100, 1000 Mbit/s and 10 Gbit/s full
    /// duplex, at 10 Gbit/s full duplex.
    fn device_info(&self) -> (r: DeviceInfo)
        ensures
            r.driver@ == "veth"@,
            r.version@ == "1.0.0"@,
            r.firmware is None,
            r.bus_info is None,
            r.link_modes@ == seq![
                LinkMode::Mode10BaseTFull,
                LinkMode::Mode100BaseTFull,
                LinkMode::Mode1000BaseTFull,
                LinkMode::Mode10GBaseTFull,
            ],
            r.link_speed == Some(10000u32),
            r.duplex == Some(DuplexMode::Full),
    {
        let modes = vec![
            LinkMode::Mode10BaseTFull,
            LinkMode::Mode100BaseTFull,
            LinkMode::Mode1000BaseTFull,
            LinkMode::Mode10GBaseTFull,
        ];
        DeviceInfo {
            driver: String::from_str("veth"),
            version: String::from_str("1.0.0"),
            firmware: None,
            bus_info: None,
            link_modes: modes,
            link_speed: Some(10000),
            duplex: Some(DuplexMode::Full),
        }
    }
}

/// `b` is loopback device `a` after sending `packet` with outcome `r`.
pub open spec fn loopback_sent(a: LoopbackDevice, b: LoopbackDevice, packet: PacketBuffer, r: NetworkResult<()>) -> bool {
    &&& (b.name_spec() == a.name_spec())
    &&& (b.mtu_spec() == a.mtu_spec())
    &&& (b.up_spec() == a.up_spec())
    &&& (!a.up_spec() ==> r == Err::<(), NetworkError>(NetworkError::NetworkUnreachable) && b.queue()
        == a.queue() && b.stats_spec() == a.stats_spec())
    &&& (a.up_spec() && packet.data_spec().len() < 14 ==> r == Err::<(), NetworkError>(
        NetworkError::InvalidPacket,
    ) && b.queue() == a.queue() && b.stats_spec() == a.stats_spec())
    &&& (a.up_spec() && packet.data_spec().len() >= 14 ==> r is Ok && b.queue().len() == a.queue().len() + 1 && b.queue().drop_last() == a.queue() && b.queue().last().storage()
        == packet.data_spec() && b.queue().last().write_pos_spec() == packet.data_spec().len()
        && b.queue().last().read_pos_spec() == 0 && b.queue().last().wf()
        && b.stats_spec() == after_send(a.stats_spec(), packet.data_spec().len()))
}

/// `b` is loopback device `a` after a receive with outcome `r`.
pub open spec fn loopback_received(a: LoopbackDevice, b: LoopbackDevice, r: NetworkResult<Option<PacketBuffer>>) -> bool {
    &&& (b.name_spec() == a.name_spec())
    &&& (b.mtu_spec() == a.mtu_spec())
    &&& (b.up_spec() == a.up_spec())
    &&& ((!a.up_spec() || a.queue().len() == 0) ==> r == Ok::<Option<PacketBuffer>, NetworkError>(None)
        && b.queue() == a.queue() && b.stats_spec() == a.stats_spec())
    &&& ((a.up_spec() && a.queue().len() > 0) ==> r == Ok::<Option<PacketBuffer>, NetworkError>(
        Some(a.queue().last()),
    ) && b.queue() == a.queue().drop_last() && b.stats_spec() == after_recv(
        a.stats_spec(),
        a.queue().last().length_spec(),
    ))
}

/// `b` is virtual Ethernet device `a` after sending `packet` with outcome `r`.
pub open spec fn veth_sent(a: VirtualEthernetDevice, b: VirtualEthernetDevice, packet: PacketBuffer, r: NetworkResult<()>) -> bool {
    &&& (b.name_spec() == a.name_spec())
    &&& (b.mac_spec() == a.mac_spec())
    &&& (b.mtu_spec() == a.mtu_spec())
    &&& (b.up_spec() == a.up_spec())
    &&& (b.peer_spec() == a.peer_spec())
    &&& (({
        let n = packet.data_spec().len();
        if !a.up_spec() {
            r == Err::<(), NetworkError>(NetworkError::NetworkUnreachable) && b.queue() == a.queue()
                && b.stats_spec() == a.stats_spec()
        } else if n < 14 {
            r == Err::<(), NetworkError>(NetworkError::InvalidPacket) && b.queue() == a.queue()
                && b.stats_spec() == a.stats_spec()
        } else if n > a.mtu_spec() + 14 {
            r == Err::<(), NetworkError>(NetworkError::BufferOverflow) && b.queue() == a.queue()
                && b.stats_spec() == a.stats_spec()
        } else {
            &&& r is Ok
            &&& b.stats_spec() == after_send(a.stats_spec(), n)
            &&& a.peer_spec() is None ==> b.queue() == a.queue()
            &&& a.peer_spec() is Some ==> b.queue().len() == a.queue().len() + 1
                && b.queue().drop_last() == a.queue() && b.queue().last().storage()
                == packet.data_spec() && b.queue().last().write_pos_spec() == n
                && b.queue().last().read_pos_spec() == 0 && b.queue().last().wf()
        }
    }))
}

/// `b` is virtual Ethernet device `a` after a receive with outcome `r`.
pub open spec fn veth_received(a: VirtualEthernetDevice, b: VirtualEthernetDevice, r: NetworkResult<Option<PacketBuffer>>) -> bool {
    &&& (b.name_spec() == a.name_spec())
    &&& (b.mac_spec() == a.mac_spec())
    &&& (b.mtu_spec() == a.mtu_spec())
    &&& (b.up_spec() == a.up_spec())
    &&& (b.peer_spec() == a.peer_spec())
    &&& ((!a.up_spec() || a.queue().len() == 0) ==> r == Ok::<Option<PacketBuffer>, NetworkError>(None)
        && b.queue() == a.queue() && b.stats_spec() == a.stats_spec())
    &&& ((a.up_spec() && a.queue().len() > 0) ==> r == Ok::<Option<PacketBuffer>, NetworkError>(
        Some(a.queue().last()),
    ) && b.queue() == a.queue().drop_last() && b.stats_spec() == after_recv(
        a.stats_spec(),
        a.queue().last().length_spec(),
    ))
}

/// A registered device of either kind.
#[derive(Debug)]
pub enum AnyDevice {
    Loopback(LoopbackDevice),
    Veth(VirtualEthernetDevice),
}

/// The driver name of a device kind.
pub open spec fn driver_of(d: AnyDevice) -> Seq<char> {
    match d {
        AnyDevice::Loopback(_) => "loopback"@,
        AnyDevice::Veth(_) => "veth"@,
    }
}

impl AnyDevice {
    /// The name.
    pub open spec fn name_spec(&self) -> Seq<char> {
        match self {
            AnyDevice::Loopback(d) => d.name_spec(),
            AnyDevice::Veth(d) => d.name_spec(),
        }
    }

    /// The kind.
    pub open spec fn kind(&self) -> DeviceType {
        match self {
            AnyDevice::Loopback(_) => DeviceType::Loopback,
            AnyDevice::Veth(_) => DeviceType::VirtualEthernet,
        }
    }

    /// The hardware address.
    pub open spec fn mac_spec(&self) -> NetworkAddress {
        match self {
            AnyDevice::Loopback(_) => NetworkAddress::Mac([0u8, 0u8, 0u8, 0u8, 0u8, 0u8]),
            AnyDevice::Veth(d) => d.mac_spec(),
        }
    }

    /// The MTU.
    pub open spec fn mtu_spec(&self) -> u16 {
        match self {
            AnyDevice::Loopback(d) => d.mtu_spec(),
            AnyDevice::Veth(d) => d.mtu_spec(),
        }
    }

    /// Whether the device is up.
    pub open spec fn up_spec(&self) -> bool {
        match self {
            AnyDevice::Loopback(d) => d.up_spec(),
            AnyDevice::Veth(d) => d.up_spec(),
        }
    }

    /// The counters.
    pub open spec fn stats_spec(&self) -> InterfaceStats {
        match self {
            AnyDevice::Loopback(d) => d.stats_spec(),
            AnyDevice::Veth(d) => d.stats_spec(),
        }
    }

    /// The packets waiting to be received.
    pub open spec fn queue(&self) -> Seq<PacketBuffer> {
        match self {
            AnyDevice::Loopback(d) => d.queue(),
            AnyDevice::Veth(d) => d.queue(),
        }
    }

    /// The name.
    pub fn name(&self) -> (r: &str)
        ensures
            r@ == self.name_spec(),
    {
        match self {
            AnyDevice::Loopback(d) => d.name(),
            AnyDevice::Veth(d) => d.name(),
        }
    }

    /// The kind.
    pub fn device_type(&self) -> (r: DeviceType)
        ensures
            r == self.kind(),
    {
        match self {
            AnyDevice::Loopback(d) => d.device_type(),
            AnyDevice::Veth(d) => d.device_type(),
        }
    }

    /// The hardware address.
    pub fn mac_address(&self) -> (r: NetworkAddress)
        ensures
            r == self.mac_spec(),
    {
        match self {
            AnyDevice::Loopback(d) => d.mac_address(),
            AnyDevice::Veth(d) => d.mac_address(),
        }
    }

    /// The MTU.
    pub fn mtu(&self) -> (r: u16)
        ensures
            r == self.mtu_spec(),
    {
        match self {
            AnyDevice::Loopback(d) => d.mtu(),
            AnyDevice::Veth(d) => d.mtu(),
        }
    }

    /// Whether the device is up.
    pub fn is_up(&self) -> (r: bool)
        ensures
            r == self.up_spec(),
    {
        match self {
            AnyDevice::Loopback(d) => d.is_up(),
            AnyDevice::Veth(d) => d.is_up(),
        }
    }

    /// The counters.
    pub fn stats(&self) -> (r: InterfaceStats)
        ensures
            r == self.stats_spec(),
    {
        match self {
            AnyDevice::Loopback(d) => d.stats(),
            AnyDevice::Veth(d) => d.stats(),
        }
    }

    /// Driver and link information.
    pub fn device_info(&self) -> (r: DeviceInfo)
        ensures
            r.driver@ == driver_of(*self),
    {
        match self {
            AnyDevice::Loopback(d) => d.device_info(),
            AnyDevice::Veth(d) => d.device_info(),
        }
    }

    /// Sends `packet` (`device_sent`).
    pub fn send(&mut self, packet: PacketBuffer) -> (r: NetworkResult<()>)
        requires
            packet.wf(),
        ensures
            device_sent(*old(self), *final(self), packet, r),
    {
        match self {
            AnyDevice::Loopback(d) => d.send(packet),
            AnyDevice::Veth(d) => d.send(packet),
        }
    }

    /// Receives a packet (`device_received`).
    pub fn recv(&mut self) -> (r: NetworkResult<Option<PacketBuffer>>)
        ensures
            device_received(*old(self), *final(self), r),
    {
        match self {
            AnyDevice::Loopback(d) => d.recv(),
            AnyDevice::Veth(d) => d.recv(),
        }
    }

    /// Brings the device up or down (`state_set`).
    pub fn set_state(&mut self, up: bool) -> (r: NetworkResult<()>)
        ensures
            state_set(*old(self), *final(self), up, r),
    {
        match self {
            AnyDevice::Loopback(d) => if up {
                d.up()
            } else {
                d.down()
            },
            AnyDevice::Veth(d) => if up {
                d.up()
            } else {
                d.down()
            },
        }
    }
}

/// `b` is `a` after sending `packet` with outcome `r`.
pub open spec fn device_sent(a: AnyDevice, b: AnyDevice, packet: PacketBuffer, r: NetworkResult<()>) -> bool {
    match (a, b) {
        (AnyDevice::Loopback(x), AnyDevice::Loopback(y)) => loopback_sent(x, y, packet, r),
        (AnyDevice::Veth(x), AnyDevice::Veth(y)) => veth_sent(x, y, packet, r),
        _ => false,
    }
}

/// `b` is `a` after a receive with outcome `r`.
pub open spec fn device_received(a: AnyDevice, b: AnyDevice, r: NetworkResult<Option<PacketBuffer>>) -> bool {
    match (a, b) {
        (AnyDevice::Loopback(x), AnyDevice::Loopback(y)) => loopback_received(x, y, r),
        (AnyDevice::Veth(x), AnyDevice::Veth(y)) => veth_received(x, y, r),
        _ => false,
    }
}

/// `b` is `a` brought up (or down, dropping its queue), with outcome `r`.
pub open spec fn state_set(a: AnyDevice, b: AnyDevice, up: bool, r: NetworkResult<()>) -> bool {
    &&& r is Ok
    &&& b.kind() == a.kind()
    &&& b.name_spec() == a.name_spec()
    &&& b.mac_spec() == a.mac_spec()
    &&& b.mtu_spec() == a.mtu_spec()
    &&& b.stats_spec() == a.stats_spec()
    &&& b.up_spec() == up
    &&& up ==> b.queue() == a.queue()
    &&& !up ==> b.queue().len() == 0
}

/// What a receive on `a` gives: its last queued packet when it is up.
pub open spec fn received_packet(a: AnyDevice) -> Option<PacketBuffer> {
    if a.up_spec() && a.queue().len() > 0 {
        Some(a.queue().last())
    } else {
        None
    }
}

/// The index of the device named `name` among `v`, if any.
pub open spec fn device_index(v: Seq<AnyDevice>, name: Seq<char>) -> Option<int> {
    if exists|i: int| 0 <= i < v.len() && v[i].name_spec() == name {
        Some(choose|i: int| 0 <= i < v.len() && v[i].name_spec() == name)
    } else {
        None
    }
}

/// Flags of an interface.
#[derive(Debug, Clone, Copy, PartialEq, Eq, Structural)]
pub struct InterfaceFlags {
    pub up: bool,
    pub loopback: bool,
}

/// An interface made from a device.
#[derive(Debug)]
pub struct NetworkInterface {
    pub name: String,
    pub mac_address: NetworkAddress,
    pub ip_addresses: Vec<NetworkAddress>,
    pub mtu: u16,
    pub flags: InterfaceFlags,
    pub stats: InterfaceStats,
}

/// The registered devices, by name.
#[derive(Debug)]
pub struct DeviceManager {
    devices: Vec<AnyDevice>,
}

impl DeviceManager {
    /// The devices in the order they were registered.
    pub closed spec fn devices_spec(&self) -> Seq<AnyDevice> {
        self.devices@
    }

    /// No two devices share a name.
    pub open spec fn wf(&self) -> bool {
        forall|a: int, b: int|
            0 <= a < b < self.devices_spec().len() ==> self.devices_spec()[a].name_spec()
                != self.devices_spec()[b].name_spec()
    }

    /// No devices.
    pub fn new() -> (r: Self)
        ensures
            r.wf(),
            r.devices_spec().len() == 0,
    {
        DeviceManager { devices: Vec::new() }
    }

    /// The position of the device named `name`.
    pub fn get_device(&self, name: &str) -> (r: Option<usize>)
        requires
            self.wf(),
        ensures
            match r {
                Some(i) => i < self.devices_spec().len() && self.devices_spec()[i as int].name_spec() == name@
                    && device_index(self.devices_spec(), name@) == Some(i as int),
                None => device_index(self.devices_spec(), name@) is None,
            },
    {
        let mut i: usize = 0;
        while i < self.devices.len()
            invariant
                i <= self.devices@.len(),
                self.wf(),
                forall|k: int| 0 <= k < i ==> self.devices@[k].name_spec() != name@,
            decreases self.devices@.len() - i,
        {
            let n = self.devices[i].name();
            if crate::package::types::str_eq(&String::from_str(n), name) {
                let ghost j = choose|j: int| 0 <= j < self.devices@.len() && self.devices@[j].name_spec() == name@;
                assert(j == i as int);
                return Some(i);
            }
            i = i + 1;
        }
        None
    }

    /// Registers `device`; `AddressInUse` where a device has its name.
    pub fn register_device(&mut self, device: AnyDevice) -> (r: NetworkResult<()>)
        requires
            old(self).wf(),
        ensures
            final(self).wf(),
            device_index(old(self).devices_spec(), device.name_spec()) is Some ==> r == Err::<(), NetworkError>(
                NetworkError::AddressInUse,
            ) && final(self).devices_spec() == old(self).devices_spec(),
            device_index(old(self).devices_spec(), device.name_spec()) is None ==> r is Ok && final(self).devices_spec()
                == old(self).devices_spec().push(device),
    {
        let found = {
            let n = device.name();
            self.get_device(n)
        };
        if found.is_some() {
            return Err(NetworkError::AddressInUse);
        }
        self.devices.push(device);
        Ok(())
    }

    /// Removes the device named `name`; `InvalidAddress` where there is
    /// none.
    pub fn unregister_device(&mut self, name: &str) -> (r: NetworkResult<()>)
        requires
            old(self).wf(),
        ensures
            final(self).wf(),
            match device_index(old(self).devices_spec(), name@) {
                Some(i) => r is Ok && final(self).devices_spec() == old(self).devices_spec().remove(i),
                None => r == Err::<(), NetworkError>(NetworkError::InvalidAddress) && final(self).devices_spec() == old(
                    self,
                ).devices_spec(),
            },
    {
        match self.get_device(name) {
            Some(i) => {
                self.devices.remove(i);
                Ok(())
            },
            None => Err(NetworkError::InvalidAddress),
        }
    }

    /// The names of the devices, in registration order.
    pub fn list_devices(&self) -> (r: Vec<String>)
        ensures
            r@.len() == self.devices_spec().len(),
            forall|k: int| 0 <= k < r@.len() ==> (#[trigger] r@[k])@ == self.devices_spec()[k].name_spec(),
    {
        let mut out: Vec<String> = Vec::new();
        let mut i: usize = 0;
        while i < self.devices.len()
            invariant
                i <= self.devices@.len(),
                out@.len() == i,
                forall|k: int| 0 <= k < i ==> (#[trigger] out@[k])@ == self.devices@[k].name_spec(),
            decreases self.devices@.len() - i,
        {
            out.push(String::from_str(self.devices[i].name()));
            i = i + 1;
        }
        out
    }

    /// The information of the device named `name`, if any.
    pub fn get_device_info(&self, name: &str) -> (r: Option<DeviceInfo>)
        requires
            self.wf(),
        ensures
            match device_index(self.devices_spec(), name@) {
                Some(i) => r matches Some(info) && info.driver@ == driver_of(self.devices_spec()[i]),
                None => r is None,
            },
    {
        match self.get_device(name) {
            Some(i) => Some(self.devices[i].device_info()),
            None => None,
        }
    }

    /// Sends `packet` through the device named `name` (`device_sent`);
    /// `InvalidAddress` where there is none.
    pub fn send_packet(&mut self, device_name: &str, packet: PacketBuffer) -> (r: NetworkResult<()>)
        requires
            old(self).wf(),
            packet.wf(),
        ensures
            final(self).wf(),
            match device_index(old(self).devices_spec(), device_name@) {
                Some(i) => final(self).devices_spec().len() == old(self).devices_spec().len() && device_sent(
                    old(self).devices_spec()[i],
                    final(self).devices_spec()[i],
                    packet,
                    r,
                ) && forall|k: int| 0 <= k < old(self).devices_spec().len() && k != i ==> final(self).devices_spec()[k] == old(self).devices_spec()[k],
                None => r == Err::<(), NetworkError>(NetworkError::InvalidAddress) && final(self).devices_spec() == old(
                    self,
                ).devices_spec(),
            },
    {
        match self.get_device(device_name) {
            Some(i) => {
                let mut d = self.devices.remove(i);
                let r = d.send(packet);
                self.devices.insert(i, d);
                assert(forall|k: int| 0 <= k < old(self).devices@.len() && k != i ==> self.devices@[k] == old(self).devices@[k]);
                assert forall|a: int, b: int| 0 <= a < b < self.devices@.len() implies self.devices@[a].name_spec()
                    != self.devices@[b].name_spec() by {
                    assert(old(self).devices@[a].name_spec() != old(self).devices@[b].name_spec());
                }
                r
            },
            None => Err(NetworkError::InvalidAddress),
        }
    }

    /// Receives from the device named `name` (`device_received`);
    /// `InvalidAddress` where there is none.
    pub fn recv_packet(&mut self, device_name: &str) -> (r: NetworkResult<Option<PacketBuffer>>)
        requires
            old(self).wf(),
        ensures
            final(self).wf(),
            match device_index(old(self).devices_spec(), device_name@) {
                Some(i) => final(self).devices_spec().len() == old(self).devices_spec().len() && device_received(
                    old(self).devices_spec()[i],
                    final(self).devices_spec()[i],
                    r,
                ) && forall|k: int| 0 <= k < old(self).devices_spec().len() && k != i ==> final(self).devices_spec()[k] == old(self).devices_spec()[k],
                None => r == Err::<Option<PacketBuffer>, NetworkError>(NetworkError::InvalidAddress) && final(self).devices_spec()
                    == old(self).devices_spec(),
            },
    {
        match self.get_device(device_name) {
            Some(i) => {
                let mut d = self.devices.remove(i);
                let r = d.recv();
                self.devices.insert(i, d);
                assert(forall|k: int| 0 <= k < old(self).devices@.len() && k != i ==> self.devices@[k] == old(self).devices@[k]);
                assert forall|a: int, b: int| 0 <= a < b < self.devices@.len() implies self.devices@[a].name_spec()
                    != self.devices@[b].name_spec() by {
                    assert(old(self).devices@[a].name_spec() != old(self).devices@[b].name_spec());
                }
                r
            },
            None => Err(NetworkError::InvalidAddress),
        }
    }

    /// Brings the device named `name` up or down (`state_set`);
    /// `InvalidAddress` where there is none.
    pub fn set_device_state(&mut self, device_name: &str, up: bool) -> (r: NetworkResult<()>)
        requires
            old(self).wf(),
        ensures
            final(self).wf(),
            match device_index(old(self).devices_spec(), device_name@) {
                Some(i) => final(self).devices_spec().len() == old(self).devices_spec().len() && state_set(
                    old(self).devices_spec()[i],
                    final(self).devices_spec()[i],
                    up,
                    r,
                ) && forall|k: int| 0 <= k < old(self).devices_spec().len() && k != i ==> final(self).devices_spec()[k] == old(self).devices_spec()[k],
                None => r == Err::<(), NetworkError>(NetworkError::InvalidAddress) && final(self).devices_spec() == old(
                    self,
                ).devices_spec(),
            },
    {
        match self.get_device(device_name) {
            Some(i) => {
                let mut d = self.devices.remove(i);
                let r = d.set_state(up);
                self.devices.insert(i, d);
                assert(forall|k: int| 0 <= k < old(self).devices@.len() && k != i ==> self.devices@[k] == old(self).devices@[k]);
                assert forall|a: int, b: int| 0 <= a < b < self.devices@.len() implies self.devices@[a].name_spec()
                    != self.devices@[b].name_spec() by {
                    assert(old(self).devices@[a].name_spec() != old(self).devices@[b].name_spec());
                }
                r
            },
            None => Err(NetworkError::InvalidAddress),
        }
    }

    /// The counters of the device named `name`, if any.
    pub fn get_device_stats(&self, device_name: &str) -> (r: Option<InterfaceStats>)
        requires
            self.wf(),
        ensures
            match device_index(self.devices_spec(), device_name@) {
                Some(i) => r == Some(self.devices_spec()[i].stats_spec()),
                None => r is None,
            },
    {
        match self.get_device(device_name) {
            Some(i) => Some(self.devices[i].stats()),
            None => None,
        }
    }

    /// An interface for the device named `name`, without IP addresses, if
    /// there is such a device.
    pub fn create_interface(&self, device_name: &str) -> (r: Option<NetworkInterface>)
        requires
            self.wf(),
        ensures
            match device_index(self.devices_spec(), device_name@) {
                Some(i) => {
                    let d = self.devices_spec()[i];
                    r matches Some(n) && n.name@ == d.name_spec() && n.mac_address == d.mac_spec() && n.ip_addresses@.len()
                        == 0 && n.mtu == d.mtu_spec() && n.flags == (InterfaceFlags {
                        up: d.up_spec(),
                        loopback: d.kind() == DeviceType::Loopback,
                    }) && n.stats == d.stats_spec()
                },
                None => r is None,
            },
    {
        match self.get_device(device_name) {
            Some(i) => {
                let d = &self.devices[i];
                let flags = InterfaceFlags { up: d.is_up(), loopback: d.device_type() == DeviceType::Loopback };
                Some(
                    NetworkInterface {
                        name: String::from_str(d.name()),
                        mac_address: d.mac_address(),
                        ip_addresses: Vec::new(),
                        mtu: d.mtu(),
                        flags,
                        stats: d.stats(),
                    },
                )
            },
            None => None,
        }
    }

    /// Receives from every device in turn, giving each packet with the name
    /// of its device.
    pub fn poll_devices(&mut self) -> (r: Vec<(String, PacketBuffer)>)
        requires
            old(self).wf(),
        ensures
            final(self).wf(),
            final(self).devices_spec().len() == old(self).devices_spec().len(),
            forall|k: int|
                0 <= k < old(self).devices_spec().len() ==> device_received(
                    old(self).devices_spec()[k],
                    #[trigger] final(self).devices_spec()[k],
                    Ok(received_packet(old(self).devices_spec()[k])),
                ),
            r@.len() == polled(old(self).devices_spec(), old(self).devices_spec().len() as int).len(),
            forall|k: int|
                0 <= k < r@.len() ==> (#[trigger] r@[k]).0@ == polled(old(self).devices_spec(), old(self).devices_spec().len() as int)[k].0
                    && r@[k].1 == polled(old(self).devices_spec(), old(self).devices_spec().len() as int)[k].1,
    {
        let ghost orig = self.devices@;
        let mut out: Vec<(String, PacketBuffer)> = Vec::new();
        let mut i: usize = 0;
        while i < self.devices.len()
            invariant
                i <= self.devices@.len(),
                self.devices@.len() == orig.len(),
                forall|a: int, b: int| 0 <= a < b < orig.len() ==> orig[a].name_spec() != orig[b].name_spec(),
                forall|k: int| i <= k < orig.len() ==> self.devices@[k] == orig[k],
                forall|k: int|
                    0 <= k < i ==> device_received(orig[k], #[trigger] self.devices@[k], Ok(received_packet(orig[k]))),
                out@.len() == polled(orig, i as int).len(),
                forall|k: int|
                    0 <= k < out@.len() ==> (#[trigger] out@[k]).0@ == polled(orig, i as int)[k].0 && out@[k].1 == polled(
                        orig,
                        i as int,
                    )[k].1,
            decreases self.devices@.len() - i,
        {
            let ghost before = self.devices@;
            let mut d = self.devices.remove(i);
            let r = d.recv();
            let name = String::from_str(d.name());
            self.devices.insert(i, d);
            assert(forall|k: int| 0 <= k < before.len() && k != i ==> self.devices@[k] == before[k]);
            let ghost out0 = out@;
            match r {
                Ok(Some(p)) => {
                    out.push((name, p));
                },
                _ => {},
            }
            i = i + 1;
        }
        proof {
            assert forall|a: int, b: int| 0 <= a < b < self.devices@.len() implies self.devices@[a].name_spec()
                != self.devices@[b].name_spec() by {
                assert(self.devices@[a].name_spec() == orig[a].name_spec());
                assert(self.devices@[b].name_spec() == orig[b].name_spec());
            }
        }
        out
    }
}

/// The packets that receiving from each of the first `n` devices of `v`
/// gives, with their device names.
pub open spec fn polled(v: Seq<AnyDevice>, n: int) -> Seq<(Seq<char>, PacketBuffer)>
    decreases n,
{
    if n <= 0 {
        Seq::empty()
    } else {
        let r = polled(v, n - 1);
        match received_packet(v[n - 1]) {
            Some(p) => r.push((v[n - 1].name_spec(), p)),
            None => r,
        }
    }
}


/// Registers the loopback device `lo` in `manager` and brings it up.
pub fn init(manager: &mut DeviceManager) -> (r: NetworkResult<()>)
    requires
        old(manager).wf(),
    ensures
        final(manager).wf(),
        device_index(old(manager).devices_spec(), "lo"@) is Some ==> r == Err::<(), NetworkError>(NetworkError::AddressInUse)
            && final(manager).devices_spec() == old(manager).devices_spec(),
        device_index(old(manager).devices_spec(), "lo"@) is None ==> ({
            let n = old(manager).devices_spec().len();
            &&& r is Ok
            &&& final(manager).devices_spec().len() == n + 1
            &&& forall|k: int| 0 <= k < n ==> final(manager).devices_spec()[k] == old(manager).devices_spec()[k]
            &&& final(manager).devices_spec()[n as int] is Loopback
            &&& final(manager).devices_spec()[n as int].name_spec() == "lo"@
            &&& final(manager).devices_spec()[n as int].up_spec()
            &&& final(manager).devices_spec()[n as int].queue().len() == 0
            &&& final(manager).devices_spec()[n as int].stats_spec() == zero_stats()
        }),
{
    let lo = LoopbackDevice::new();
    manager.register_device(AnyDevice::Loopback(lo))?;
    let ghost mid = manager.devices_spec();
    proof {
        reveal_strlit("lo");
        assert(mid[mid.len() - 1].name_spec() == "lo"@);
        assert forall|k: int| 0 <= k < mid.len() - 1 implies mid[k].name_spec() != "lo"@ by {
            assert(mid[k].name_spec() != mid[mid.len() - 1].name_spec());
        }
        assert(device_index(mid, "lo"@) == Some(mid.len() - 1));
    }
    let r = manager.set_device_state("lo", true);
    r
}

/// Two virtual Ethernet devices `name1` and `name2`, with hardware
/// addresses 02:00:00:00:00:01 and 02:00:00:00:00:02, each the other's
/// peer, registered in that order.
pub fn create_veth_pair(manager: &mut DeviceManager, name1: &str, name2: &str) -> (r: NetworkResult<()>)
    requires
        old(manager).wf(),
    ensures
        final(manager).wf(),
        device_index(old(manager).devices_spec(), name1@) is Some ==> r == Err::<(), NetworkError>(NetworkError::AddressInUse)
            && final(manager).devices_spec() == old(manager).devices_spec(),
        device_index(old(manager).devices_spec(), name1@) is None && (name1@ == name2@ || device_index(
            old(manager).devices_spec(),
            name2@,
        ) is Some) ==> r == Err::<(), NetworkError>(NetworkError::AddressInUse) && final(manager).devices_spec().len()
            == old(manager).devices_spec().len() + 1,
        device_index(old(manager).devices_spec(), name1@) is None && name1@ != name2@ && device_index(
            old(manager).devices_spec(),
            name2@,
        ) is None ==> ({
            let n = old(manager).devices_spec().len();
            let v = final(manager).devices_spec();
            &&& r is Ok
            &&& v.len() == n + 2
            &&& forall|k: int| 0 <= k < n ==> v[k] == old(manager).devices_spec()[k]
            &&& v[n as int] matches AnyDevice::Veth(a) && a.name_spec() == name1@ && a.mac_spec() == NetworkAddress::Mac(
                [2u8, 0u8, 0u8, 0u8, 0u8, 1u8],
            ) && a.peer_spec() == Some(name2@) && !a.up_spec()
            &&& v[n + 1int] matches AnyDevice::Veth(b) && b.name_spec() == name2@ && b.mac_spec() == NetworkAddress::Mac(
                [2u8, 0u8, 0u8, 0u8, 0u8, 2u8],
            ) && b.peer_spec() == Some(name1@) && !b.up_spec()
        }),
{
    let mac1 = NetworkAddress::Mac([0x02, 0x00, 0x00, 0x00, 0x00, 0x01]);
    let mac2 = NetworkAddress::Mac([0x02, 0x00, 0x00, 0x00, 0x00, 0x02]);
    let mut veth1 = VirtualEthernetDevice::new(String::from_str(name1), mac1);
    let mut veth2 = VirtualEthernetDevice::new(String::from_str(name2), mac2);
    veth1.set_peer(String::from_str(name2));
    veth2.set_peer(String::from_str(name1));
    manager.register_device(AnyDevice::Veth(veth1))?;
    let ghost mid = manager.devices_spec();
    let r = manager.register_device(AnyDevice::Veth(veth2));
    proof {
        if name1@ == name2@ {
            assert(mid[mid.len() - 1].name_spec() == name2@);
        } else if device_index(old(manager).devices_spec(), name2@) is None {
            assert forall|k: int| 0 <= k < mid.len() implies mid[k].name_spec() != name2@ by {
                if k < mid.len() - 1 {
                    assert(mid[k] == old(manager).devices_spec()[k]);
                }
            }
        } else {
            let j = choose|j: int| 0 <= j < old(manager).devices_spec().len() && old(manager).devices_spec()[j].name_spec() == name2@;
            assert(mid[j].name_spec() == name2@);
        }
    }
    r
}

/// A summary of a device.
#[derive(Debug)]
pub struct DeviceStats {
    pub name: String,
    pub device_type: DeviceType,
    pub mac_address: NetworkAddress,
    pub mtu: u16,
    pub is_up: bool,
    pub stats: InterfaceStats,
}

/// A summary of every device, in registration order; the kind is always
/// given as `Ethernet`, since an interface does not carry it.
pub fn get_all_device_stats(manager: &DeviceManager) -> (r: Vec<DeviceStats>)
    requires
        manager.wf(),
    ensures
        r@.len() == manager.devices_spec().len(),
        forall|k: int|
            0 <= k < r@.len() ==> {
                let d = manager.devices_spec()[k];
                &&& (#[trigger] r@[k]).name@ == d.name_spec()
                &&& r@[k].device_type == DeviceType::Ethernet
                &&& r@[k].mac_address == d.mac_spec()
                &&& r@[k].mtu == d.mtu_spec()
                &&& r@[k].is_up == d.up_spec()
                &&& r@[k].stats == d.stats_spec()
            },
{
    let names = manager.list_devices();
    let mut out: Vec<DeviceStats> = Vec::new();
    let mut i: usize = 0;
    while i < names.len()
        invariant
            i <= names@.len(),
            manager.wf(),
            names@.len() == manager.devices_spec().len(),
            forall|k: int| 0 <= k < names@.len() ==> (#[trigger] names@[k])@ == manager.devices_spec()[k].name_spec(),
            out@.len() == i,
            forall|k: int|
                0 <= k < i ==> {
                    let d = manager.devices_spec()[k];
                    &&& (#[trigger] out@[k]).name@ == d.name_spec()
                    &&& out@[k].device_type == DeviceType::Ethernet
                    &&& out@[k].mac_address == d.mac_spec()
                    &&& out@[k].mtu == d.mtu_spec()
                    &&& out@[k].is_up == d.up_spec()
                    &&& out@[k].stats == d.stats_spec()
                },
        decreases names@.len() - i,
    {
        let iface = manager.create_interface(names[i].as_str());
        proof {
            let d = manager.devices_spec()[i as int];
            assert(manager.devices_spec()[i as int].name_spec() == names@[i as int]@);
            let j = choose|j: int| 0 <= j < manager.devices_spec().len() && manager.devices_spec()[j].name_spec() == names@[i as int]@;
            if j != i {
                if j < i {
                    assert(manager.devices_spec()[j].name_spec() != manager.devices_spec()[i as int].name_spec());
                } else {
                    assert(manager.devices_spec()[i as int].name_spec() != manager.devices_spec()[j].name_spec());
                }
            }
        }
        match iface {
            Some(n) => {
                out.push(
                    DeviceStats {
                        name: n.name,
                        device_type: DeviceType::Ethernet,
                        mac_address: n.mac_address,
                        mtu: n.mtu,
                        is_up: n.flags.up,
                        stats: n.stats,
                    },
                );
            },
            None => {},
        }
        i = i + 1;
    }
    out
}


/// What the loopback device sends it receives next: a send that succeeds
/// followed by a receive gives the sent bytes back and leaves the queue as
/// it was.
pub proof fn lemma_loopback_echo(
    a: LoopbackDevice,
    b: LoopbackDevice,
    c: LoopbackDevice,
    packet: PacketBuffer,
    r: NetworkResult<Option<PacketBuffer>>,
)
    requires
        loopback_sent(a, b, packet, Ok(())),
        loopback_received(b, c, r),
    ensures
        r matches Ok(Some(q)) && q.storage() == packet.data_spec() && q.read_pos_spec() == 0
            && q.write_pos_spec() == packet.data_spec().len(),
        c.queue() == a.queue(),
{
}

} // verus!
