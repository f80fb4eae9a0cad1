use rustos::net::buffer::PacketBuffer;
use rustos::net::dma::{DmaBuffer, DmaDescriptor, EthernetFormatter, PacketFormatter, DMA_ALIGNMENT};

#[test]
fn test_dma_buffer_allocation() {
    let buffer = DmaBuffer::allocate(1024, DMA_ALIGNMENT, Some(0x10_0000)).unwrap();
    assert_eq!(buffer.size(), 1024);
    assert!(!buffer.virtual_addr().as_ptr().is_null());
}

#[test]
fn test_dma_descriptor() {
    let mut desc = DmaDescriptor::new(0x1000, 1500);
    assert_eq!(desc.buffer_addr, 0x1000);
    assert_eq!(desc.length, 1500);
    desc.set_eop();
    assert_eq!(desc.flags & 1, 1);
}

#[test]
fn test_ethernet_formatter() {
    let formatter = EthernetFormatter;
    let data = vec![0u8; 64];
    let checksum = formatter.calculate_hw_checksum(&data);
    assert!(formatter.validate_hw_checksum(&data, checksum));
}

#[test]
fn dma_buffer_without_physical_address_fails() {
    assert!(DmaBuffer::allocate(1024, DMA_ALIGNMENT, None).is_err());
    assert!(DmaBuffer::allocate(0, DMA_ALIGNMENT, Some(0x1000)).is_err());
    assert!(DmaBuffer::allocate(100, 48, Some(0x1000)).is_err());
}

#[test]
fn dma_buffer_rounds_up_to_alignment() {
    let buffer = DmaBuffer::allocate(100, 64, Some(0x2000)).unwrap();
    assert_eq!(buffer.size(), 128);
    assert_eq!(buffer.physical_addr(), 0x2000);
}

#[test]
fn formatter_pads_short_frames() {
    let formatter = EthernetFormatter;
    let mut dma = DmaBuffer::allocate(2048, DMA_ALIGNMENT, Some(0x3000)).unwrap();
    let packet = PacketBuffer::from_data(vec![1u8; 20]);
    let len = formatter.format_tx_packet(&packet, &mut dma).unwrap();
    assert_eq!(len, 60);
}
