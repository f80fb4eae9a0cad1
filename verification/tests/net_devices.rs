use rustos::net::buffer::PacketBuffer;
use rustos::net::device::{
    create_veth_pair, get_all_device_stats, init, AnyDevice, DeviceManager, DeviceType, LoopbackDevice, NetworkDevice,
    VirtualEthernetDevice,
};
use rustos::net::types::{NetworkAddress, NetworkError};

#[test]
fn loopback_returns_what_it_sends() {
    let mut lo = LoopbackDevice::new();
    assert_eq!(lo.name(), "lo");
    assert_eq!(lo.send(PacketBuffer::from_data(vec![7u8; 20])), Err(NetworkError::NetworkUnreachable));
    lo.up().unwrap();
    assert_eq!(lo.send(PacketBuffer::from_data(vec![7u8; 10])), Err(NetworkError::InvalidPacket));
    assert!(lo.send(PacketBuffer::from_data(vec![7u8; 20])).is_ok());
    let p = lo.recv().unwrap().unwrap();
    assert_eq!(p.as_slice(), &[7u8; 20][..]);
    assert!(lo.recv().unwrap().is_none());
    let s = lo.stats();
    assert_eq!((s.tx_packets, s.tx_bytes, s.rx_packets, s.rx_bytes), (1, 20, 1, 20));
    assert_eq!(lo.set_mtu(60), Err(NetworkError::InvalidArgument));
}

#[test]
fn veth_checks_mtu() {
    let mut v = VirtualEthernetDevice::new("veth0".to_string(), NetworkAddress::Mac([2, 0, 0, 0, 0, 1]));
    v.up().unwrap();
    v.set_mtu(100).unwrap();
    assert_eq!(v.send(PacketBuffer::from_data(vec![0u8; 115])), Err(NetworkError::BufferOverflow));
    assert!(v.send(PacketBuffer::from_data(vec![0u8; 114])).is_ok());
    assert!(v.recv().unwrap().is_none());
    v.set_peer("veth1".to_string());
    assert!(v.send(PacketBuffer::from_data(vec![0u8; 50])).is_ok());
    assert!(v.recv().unwrap().is_some());
}

#[test]
fn manager_registers_and_looks_up_devices() {
    let mut m = DeviceManager::new();
    assert!(init(&mut m).is_ok());
    assert_eq!(init(&mut m), Err(NetworkError::AddressInUse));
    assert!(create_veth_pair(&mut m, "veth0", "veth1").is_ok());
    assert_eq!(m.list_devices(), vec!["lo".to_string(), "veth0".to_string(), "veth1".to_string()]);
    assert_eq!(m.get_device("veth1"), Some(2));
    let iface = m.create_interface("lo").unwrap();
    assert!(iface.flags.up);
    assert!(iface.flags.loopback);
    assert!(m.send_packet("lo", PacketBuffer::from_data(vec![1u8; 30])).is_ok());
    let polled = m.poll_devices();
    assert_eq!(polled.len(), 1);
    assert_eq!(polled[0].0, "lo");
    assert_eq!(m.send_packet("nope", PacketBuffer::from_data(vec![1u8; 30])), Err(NetworkError::InvalidAddress));
    assert!(m.unregister_device("veth0").is_ok());
    assert_eq!(m.get_device("veth1"), Some(1));
    let stats = get_all_device_stats(&m);
    assert_eq!(stats.len(), 2);
    assert_eq!(stats[0].device_type, DeviceType::Ethernet);
    assert_eq!(m.get_device_info("veth1").unwrap().driver, "veth");
    let _ = AnyDevice::Loopback(LoopbackDevice::new());
}
