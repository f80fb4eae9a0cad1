//! DMA buffers, hardware descriptors and descriptor rings for network
//! devices, with Ethernet frame formatting and checksums.
//!
//! A DMA buffer is held as owned bytes; the physical address at which the
//! device sees it is given by the platform when the buffer is made.
use vstd::prelude::*;
use crate::net::types::{NetworkError, NetworkResult};
use crate::net::buffer::{PacketBuffer, zeroed_bytes};
use crate::net::checksum::{word_sum, internet_checksum, internet_checksum_spec};

verus! {

/// Alignment of DMA buffers.
pub const DMA_ALIGNMENT: usize = 64;

/// Largest DMA buffer.
pub const MAX_DMA_BUFFER_SIZE: usize = 65536;

/// A DMA descriptor as the hardware reads it.
#[derive(Debug, Clone, Copy, PartialEq, Eq, Structural)]
pub struct DmaDescriptor {
    /// Physical address of the buffer.
    pub buffer_addr: u64,
    /// Length of the data.
    pub length: u16,
    /// Control flags: end of packet (bit 0), interrupt (bit 1), ready (bit 2).
    pub flags: u16,
    /// Status written by the hardware: done (bit 0), error (bit 1).
    pub status: u16,
    pub reserved: u16,
}

impl DmaDescriptor {
    /// A descriptor for `length` bytes at `buffer_addr`, with no flag.
    pub fn new(buffer_addr: u64, length: u16) -> (r: Self)
        ensures
            r == (DmaDescriptor { buffer_addr, length, flags: 0, status: 0, reserved: 0 }),
    {
        DmaDescriptor { buffer_addr, length, flags: 0, status: 0, reserved: 0 }
    }

    /// Marks the end of the packet (bit 0).
    pub fn set_eop(&mut self)
        ensures
            *final(self) == (DmaDescriptor { flags: old(self).flags | 1, ..*old(self) }),
    {
        self.flags = self.flags | 1;
    }

    /// Asks for an interrupt on completion (bit 1).
    pub fn set_interrupt(&mut self)
        ensures
            *final(self) == (DmaDescriptor { flags: old(self).flags | 2, ..*old(self) }),
    {
        self.flags = self.flags | 2;
    }

    /// Whether the hardware is done with the descriptor (status bit 0).
    pub fn is_done(&self) -> (r: bool)
        ensures
            r == (self.status & 1 != 0),
    {
        (self.status & 1) != 0
    }

    /// Whether the hardware reported an error (status bit 1).
    pub fn has_error(&self) -> (r: bool)
        ensures
            r == (self.status & 2 != 0),
    {
        (self.status & 2) != 0
    }
}

/// Whether `a` is a power of two.
pub open spec fn is_power_of_two(a: usize) -> bool {
    a != 0 && a & ((a - 1) as usize) == 0
}

/// `size` rounded up by the mask of `alignment`.
pub open spec fn aligned_size(size: usize, alignment: usize) -> usize {
    ((size + alignment - 1) as usize) & !((alignment - 1) as usize)
}

/// A buffer that a network device reads or writes by DMA.
#[derive(Debug)]
pub struct DmaBuffer {
    data: Vec<u8>,
    physical_addr: u64,
    alignment: usize,
}

impl DmaBuffer {
    /// The bytes of the buffer.
    pub closed spec fn bytes(&self) -> Seq<u8> {
        self.data@
    }

    /// The physical address of the buffer.
    pub closed spec fn physical_spec(&self) -> u64 {
        self.physical_addr
    }

    /// The alignment of the buffer.
    pub closed spec fn alignment_spec(&self) -> usize {
        self.alignment
    }

    /// A zeroed buffer of `size` bytes rounded up to `alignment`, which
    /// the device sees at `physical_addr`. `InvalidArgument` for an empty
    /// size or one over `MAX_DMA_BUFFER_SIZE`; `InsufficientMemory` for an
    /// alignment that is not a power of two; `InternalError` when the
    /// platform gave no physical address.
    pub fn allocate(size: usize, alignment: usize, physical_addr: Option<u64>) -> (r: NetworkResult<Self>)
        requires
            alignment > 0,
            size + alignment - 1 <= usize::MAX,
        ensures
            size == 0 || size > MAX_DMA_BUFFER_SIZE ==> r == Err::<DmaBuffer, NetworkError>(NetworkError::InvalidArgument),
            !(size == 0 || size > MAX_DMA_BUFFER_SIZE) && !is_power_of_two(alignment) ==> r == Err::<
                DmaBuffer,
                NetworkError,
            >(NetworkError::InsufficientMemory),
            !(size == 0 || size > MAX_DMA_BUFFER_SIZE) && is_power_of_two(alignment) && physical_addr is None ==> r
                == Err::<DmaBuffer, NetworkError>(NetworkError::InternalError),
            !(size == 0 || size > MAX_DMA_BUFFER_SIZE) && is_power_of_two(alignment) && physical_addr is Some ==> (
            r matches Ok(b) && b.bytes() == Seq::new(aligned_size(size, alignment) as nat, |i: int| 0u8)
                && b.physical_spec() == physical_addr->0 && b.alignment_spec() == alignment),
    {
        if size == 0 || size > MAX_DMA_BUFFER_SIZE {
            return Err(NetworkError::InvalidArgument);
        }
        let rounded = (size + (alignment - 1)) & !(alignment - 1);
        if (alignment & (alignment - 1)) != 0 {
            return Err(NetworkError::InsufficientMemory);
        }
        let physical = match physical_addr {
            Some(p) => p,
            None => {
                return Err(NetworkError::InternalError);
            },
        };
        let data = zeroed_bytes(rounded);
        assert(data@ =~= Seq::new(aligned_size(size, alignment) as nat, |i: int| 0u8));
        Ok(DmaBuffer { data, physical_addr: physical, alignment })
    }

    /// The physical address.
    pub fn physical_addr(&self) -> (r: u64)
        ensures
            r == self.physical_spec(),
    {
        self.physical_addr
    }

    /// The size in bytes.
    pub fn size(&self) -> (r: usize)
        ensures
            r == self.bytes().len(),
    {
        self.data.len()
    }

    /// The memory of the buffer as the CPU addresses it (its start is the
    /// buffer's virtual address).
    pub fn virtual_addr(&self) -> (r: &[u8])
        ensures
            r@ == self.bytes(),
    {
        self.data.as_slice()
    }

    /// The bytes.
    pub fn as_slice(&self) -> (r: &[u8])
        ensures
            r@ == self.bytes(),
    {
        self.data.as_slice()
    }

    /// Copies `data` to the start of the buffer; `BufferOverflow` when it
    /// does not fit.
    pub fn copy_from_slice(&mut self, data: &[u8]) -> (r: NetworkResult<()>)
        ensures
            data@.len() > old(self).bytes().len() ==> r == Err::<(), NetworkError>(NetworkError::BufferOverflow)
                && final(self).bytes() == old(self).bytes(),
            data@.len() <= old(self).bytes().len() ==> r is Ok && final(self).bytes() == data@
                + old(self).bytes().subrange(data@.len() as int, old(self).bytes().len() as int),
            final(self).physical_spec() == old(self).physical_spec(),
            final(self).alignment_spec() == old(self).alignment_spec(),
    {
        if data.len() > self.data.len() {
            return Err(NetworkError::BufferOverflow);
        }
        let ghost old_bytes = self.data@;
        let mut i: usize = 0;
        while i < data.len()
            invariant
                data@.len() <= old_bytes.len(),
                i <= data@.len(),
                self.data@.len() == old_bytes.len(),
                self.physical_addr == old(self).physical_addr,
                self.alignment == old(self).alignment,
                self.data@ == data@.subrange(0, i as int) + old_bytes.subrange(i as int, old_bytes.len() as int),
            decreases data@.len() - i,
        {
            self.data.set(i, data[i]);
            assert(self.data@ =~= data@.subrange(0, i + 1) + old_bytes.subrange(i + 1, old_bytes.len() as int));
            i = i + 1;
        }
        assert(data@.subrange(0, data@.len() as int) =~= data@);
        Ok(())
    }

    /// Copies the start of the buffer into `data`, as much as fits; the
    /// number of bytes copied.
    pub fn copy_to_slice(&self, data: &mut [u8]) -> (r: usize)
        ensures
            r == if old(data)@.len() < self.bytes().len() {
                old(data)@.len()
            } else {
                self.bytes().len()
            },
            final(data)@ == self.bytes().subrange(0, r as int) + old(data)@.subrange(r as int, old(data)@.len() as int),
    {
        let copy_len = if data.len() < self.data.len() {
            data.len()
        } else {
            self.data.len()
        };
        let ghost old_data = data@;
        let mut i: usize = 0;
        while i < copy_len
            invariant
                copy_len <= old_data.len(),
                copy_len <= self.data@.len(),
                i <= copy_len,
                data@.len() == old_data.len(),
                data@ == self.data@.subrange(0, i as int) + old_data.subrange(i as int, old_data.len() as int),
            decreases copy_len - i,
        {
            data[i] = self.data[i];
            assert(data@ =~= self.data@.subrange(0, i + 1) + old_data.subrange(i + 1, old_data.len() as int));
            i = i + 1;
        }
        copy_len
    }

    /// Sets byte `i`.
    fn set_byte(&mut self, i: usize, v: u8)
        requires
            i < old(self).bytes().len(),
        ensures
            final(self).bytes() == old(self).bytes().update(i as int, v),
            final(self).physical_spec() == old(self).physical_spec(),
            final(self).alignment_spec() == old(self).alignment_spec(),
    {
        self.data.set(i, v);
    }
}

/// A ring of descriptors and their buffers; the head is the next entry to
/// take back, the tail the next to fill.
#[derive(Debug)]
pub struct DmaRing {
    descriptors: Vec<DmaDescriptor>,
    buffers: Vec<DmaBuffer>,
    head: usize,
    tail: usize,
    size: usize,
    buffer_size: usize,
}

impl DmaRing {
    /// The descriptors.
    pub closed spec fn descriptors_spec(&self) -> Seq<DmaDescriptor> {
        self.descriptors@
    }

    /// The buffers.
    pub closed spec fn buffers_spec(&self) -> Seq<DmaBuffer> {
        self.buffers@
    }

    /// The head index.
    pub closed spec fn head_spec(&self) -> nat {
        self.head as nat
    }

    /// The tail index.
    pub closed spec fn tail_spec(&self) -> nat {
        self.tail as nat
    }

    /// The number of entries.
    pub closed spec fn size_spec(&self) -> nat {
        self.size as nat
    }

    /// Indices in range, one descriptor and buffer per entry.
    pub closed spec fn wf(&self) -> bool {
        &&& self.descriptors@.len() == self.size
        &&& self.buffers@.len() == self.size
        &&& self.head < self.size || self.size == 0
        &&& self.tail < self.size || self.size == 0
        &&& self.size == 0 ==> self.head == 0 && self.tail == 0
    }

    /// A ring of `ring_size` entries, each with a buffer of `buffer_size`
    /// bytes seen by the device at the matching address of `physical_addrs`
    /// and a descriptor for it; the first buffer that cannot be made fails
    /// the whole ring.
    pub fn new(ring_size: usize, buffer_size: usize, physical_addrs: &Vec<Option<u64>>) -> (r: NetworkResult<Self>)
        requires
            physical_addrs@.len() == ring_size,
            buffer_size + DMA_ALIGNMENT - 1 <= usize::MAX,
        ensures
            ring_size == 0 ==> (r matches Ok(ring) && ring.wf() && ring.size_spec() == 0),
            ring_size > 0 && (buffer_size == 0 || buffer_size > MAX_DMA_BUFFER_SIZE) ==> r == Err::<
                DmaRing,
                NetworkError,
            >(NetworkError::InvalidArgument),
            ring_size > 0 && !(buffer_size == 0 || buffer_size > MAX_DMA_BUFFER_SIZE) && (exists|i: int|
                0 <= i < ring_size && #[trigger] physical_addrs@[i] is None) ==> r == Err::<DmaRing, NetworkError>(
                NetworkError::InternalError,
            ),
            r matches Ok(ring) ==> ring.wf() && ring.size_spec() == ring_size && ring.head_spec() == 0
                && ring.tail_spec() == 0 && (forall|i: int|
                0 <= i < ring_size ==> #[trigger] ring.descriptors_spec()[i] == (DmaDescriptor {
                    buffer_addr: physical_addrs@[i]->0,
                    length: buffer_size as u16,
                    flags: 0,
                    status: 0,
                    reserved: 0,
                }) && ring.buffers_spec()[i].physical_spec() == physical_addrs@[i]->0 && ring.buffers_spec()[i].bytes()
                == Seq::new(aligned_size(buffer_size, DMA_ALIGNMENT) as nat, |k: int| 0u8)),
    {
        let mut descriptors: Vec<DmaDescriptor> = Vec::new();
        let mut buffers: Vec<DmaBuffer> = Vec::new();
        let mut i: usize = 0;
        while i < ring_size
            invariant
                physical_addrs@.len() == ring_size,
                buffer_size + DMA_ALIGNMENT - 1 <= usize::MAX,
                i <= ring_size,
                i > 0 ==> !(buffer_size == 0 || buffer_size > MAX_DMA_BUFFER_SIZE),
                descriptors@.len() == i,
                buffers@.len() == i,
                forall|j: int| 0 <= j < i ==> #[trigger] physical_addrs@[j] is Some,
                forall|j: int|
                    0 <= j < i ==> #[trigger] descriptors@[j] == (DmaDescriptor {
                        buffer_addr: physical_addrs@[j]->0,
                        length: buffer_size as u16,
                        flags: 0,
                        status: 0,
                        reserved: 0,
                    }) && buffers@[j].physical_spec() == physical_addrs@[j]->0 && buffers@[j].bytes() == Seq::new(
                        aligned_size(buffer_size, DMA_ALIGNMENT) as nat,
                        |k: int| 0u8,
                    ),
            decreases ring_size - i,
        {
            assert(64usize & 63usize == 0) by (bit_vector);
            let buffer = match DmaBuffer::allocate(buffer_size, DMA_ALIGNMENT, physical_addrs[i]) {
                Ok(b) => b,
                Err(e) => {
                    proof {
                        if !(buffer_size == 0 || buffer_size > MAX_DMA_BUFFER_SIZE) {
                            assert(physical_addrs@[i as int] is None);
                        }
                    }
                    return Err(e);
                },
            };
            let descriptor = DmaDescriptor::new(buffer.physical_addr(), buffer_size as u16);
            descriptors.push(descriptor);
            buffers.push(buffer);
            i = i + 1;
        }
        Ok(DmaRing { descriptors, buffers, head: 0, tail: 0, size: ring_size, buffer_size })
    }

    /// The entry to fill next when the ring is not full: its descriptor
    /// and buffer.
    pub fn get_tx_descriptor(&mut self) -> (r: Option<(&mut DmaDescriptor, &mut DmaBuffer)>)
        requires
            old(self).wf(),
            old(self).size_spec() > 0,
        ensures
            ((old(self).tail_spec() + 1) % old(self).size_spec() == old(self).head_spec()) == r is None,
            r is None ==> *final(self) == *old(self),
            r matches Some((d, b)) ==> *d == old(self).descriptors_spec()[old(self).tail_spec() as int]
                && *b == old(self).buffers_spec()[old(self).tail_spec() as int] && final(self).descriptors_spec()
                == old(self).descriptors_spec().update(old(self).tail_spec() as int, *final(d))
                && final(self).buffers_spec() == old(self).buffers_spec().update(
                old(self).tail_spec() as int,
                *final(b),
            ) && final(self).head_spec() == old(self).head_spec() && final(self).tail_spec()
                == old(self).tail_spec() && final(self).size_spec() == old(self).size_spec() && final(self).wf(),
    {
        let next_tail = (self.tail + 1) % self.size;
        if next_tail == self.head {
            return None;
        }
        let t = self.tail;
        let descriptor = &mut self.descriptors[t];
        let buffer = &mut self.buffers[t];
        Some((descriptor, buffer))
    }

    /// Moves the tail on by one entry.
    pub fn advance_tail(&mut self)
        requires
            old(self).wf(),
            old(self).size_spec() > 0,
        ensures
            final(self).wf(),
            final(self).tail_spec() == (old(self).tail_spec() + 1) % old(self).size_spec(),
            final(self).head_spec() == old(self).head_spec(),
            final(self).size_spec() == old(self).size_spec(),
            final(self).descriptors_spec() == old(self).descriptors_spec(),
            final(self).buffers_spec() == old(self).buffers_spec(),
    {
        self.tail = (self.tail + 1) % self.size;
    }

    /// The entry to take back next when the hardware is done with it.
    pub fn get_rx_descriptor(&mut self) -> (r: Option<(&mut DmaDescriptor, &mut DmaBuffer)>)
        requires
            old(self).wf(),
            old(self).size_spec() > 0,
        ensures
            (old(self).descriptors_spec()[old(self).head_spec() as int].status & 1 == 0) == r is None,
            r is None ==> *final(self) == *old(self),
            r matches Some((d, b)) ==> *d == old(self).descriptors_spec()[old(self).head_spec() as int]
                && *b == old(self).buffers_spec()[old(self).head_spec() as int] && final(self).descriptors_spec()
                == old(self).descriptors_spec().update(old(self).head_spec() as int, *final(d))
                && final(self).buffers_spec() == old(self).buffers_spec().update(
                old(self).head_spec() as int,
                *final(b),
            ) && final(self).head_spec() == old(self).head_spec() && final(self).tail_spec()
                == old(self).tail_spec() && final(self).size_spec() == old(self).size_spec() && final(self).wf(),
    {
        let h = self.head;
        if !self.descriptors[h].is_done() {
            return None;
        }
        let descriptor = &mut self.descriptors[h];
        let buffer = &mut self.buffers[h];
        Some((descriptor, buffer))
    }

    /// Moves the head on by one entry.
    pub fn advance_head(&mut self)
        requires
            old(self).wf(),
            old(self).size_spec() > 0,
        ensures
            final(self).wf(),
            final(self).head_spec() == (old(self).head_spec() + 1) % old(self).size_spec(),
            final(self).tail_spec() == old(self).tail_spec(),
            final(self).size_spec() == old(self).size_spec(),
            final(self).descriptors_spec() == old(self).descriptors_spec(),
            final(self).buffers_spec() == old(self).buffers_spec(),
    {
        self.head = (self.head + 1) % self.size;
    }

    /// The descriptor ring as the CPU addresses it (its start is the
    /// ring's address).
    pub fn descriptor_ring_addr(&self) -> (r: &[DmaDescriptor])
        ensures
            r@ == self.descriptors_spec(),
    {
        self.descriptors.as_slice()
    }

    /// The number of entries.
    pub fn size(&self) -> (r: usize)
        ensures
            r == self.size_spec(),
    {
        self.size
    }

    /// Whether head and tail meet.
    pub fn is_empty(&self) -> (r: bool)
        ensures
            r == (self.head_spec() == self.tail_spec()),
    {
        self.head == self.tail
    }

    /// Whether the entry after the tail is the head.
    pub fn is_full(&self) -> (r: bool)
        requires
            self.wf(),
            self.size_spec() > 0,
        ensures
            r == ((self.tail_spec() + 1) % self.size_spec() == self.head_spec()),
    {
        (self.tail + 1) % self.size == self.head
    }

    /// Entries that can still be filled (one is always left free).
    pub fn available_slots(&self) -> (r: usize)
        requires
            self.wf(),
            self.size_spec() > 0,
        ensures
            r == if self.tail_spec() >= self.head_spec() {
                self.size_spec() - (self.tail_spec() - self.head_spec()) - 1
            } else {
                self.head_spec() - self.tail_spec() - 1
            },
    {
        if self.tail >= self.head {
            self.size - (self.tail - self.head) - 1
        } else {
            self.head - self.tail - 1
        }
    }

    /// Entries filled and not yet taken back.
    pub fn used_slots(&self) -> (r: usize)
        requires
            self.wf(),
        ensures
            r == if self.tail_spec() >= self.head_spec() {
                self.tail_spec() - self.head_spec()
            } else {
                self.size_spec() - (self.head_spec() - self.tail_spec())
            },
    {
        if self.tail >= self.head {
            self.tail - self.head
        } else {
            self.size - (self.head - self.tail)
        }
    }
}

/// Used and free entries add up to the ring less the one kept free.
pub proof fn lemma_ring_slots(size: nat, head: nat, tail: nat)
    requires
        head < size,
        tail < size,
    ensures
        (if tail >= head {
            tail - head
        } else {
            size - (head - tail)
        }) + (if tail >= head {
            size - (tail - head) - 1
        } else {
            head - tail - 1
        }) == size - 1,
{
}

/// Formatting of frames for a device.
pub trait PacketFormatter {
    /// Puts a packet into a DMA buffer; the frame length.
    fn format_tx_packet(&self, packet: &PacketBuffer, dma_buffer: &mut DmaBuffer) -> NetworkResult<u16>
        requires
            packet.wf(),
    ;

    /// Takes a received frame of `length` bytes out of a DMA buffer.
    fn parse_rx_packet(&self, dma_buffer: &DmaBuffer, length: u16) -> NetworkResult<PacketBuffer>
        requires
            length <= dma_buffer.bytes().len(),
    ;

    /// The checksum of `data`.
    fn calculate_hw_checksum(&self, data: &[u8]) -> u16
        requires
            word_sum(data@) <= u32::MAX,
    ;

    /// Whether `checksum` is the checksum of `data`.
    fn validate_hw_checksum(&self, data: &[u8], checksum: u16) -> bool
        requires
            word_sum(data@) <= u32::MAX,
    ;
}

/// Minimum Ethernet frame without its CRC.
pub const MIN_FRAME_SIZE: usize = 60;

/// The bytes of a DMA buffer after an Ethernet frame `p` was put in:
/// the frame, zeros up to 60 bytes where the buffer has room, the rest as
/// before.
pub open spec fn framed_bytes(old: Seq<u8>, p: Seq<u8>) -> Seq<u8> {
    Seq::new(
        old.len(),
        |i: int|
            if i < p.len() {
                p[i]
            } else if i < MIN_FRAME_SIZE {
                0u8
            } else {
                old[i]
            },
    )
}

/// Formats frames for Ethernet.
#[derive(Debug, Clone, Copy)]
pub struct EthernetFormatter;

impl PacketFormatter for EthernetFormatter {
    /// Copies a frame of at least 14 bytes into the buffer and pads it with
    /// zeros to 60 bytes; the frame length. `InvalidPacket` for a shorter
    /// frame, `BufferOverflow` when it does not fit.
    fn format_tx_packet(&self, packet: &PacketBuffer, dma_buffer: &mut DmaBuffer) -> (r: NetworkResult<u16>)
        ensures
            ({
                let p = packet.data_spec();
                &&& p.len() < 14 ==> r == Err::<u16, NetworkError>(NetworkError::InvalidPacket) && final(dma_buffer).bytes() == old(dma_buffer).bytes()
                &&& p.len() >= 14 && p.len() > old(dma_buffer).bytes().len() ==> r == Err::<u16, NetworkError>(
                    NetworkError::BufferOverflow,
                ) && final(dma_buffer).bytes() == old(dma_buffer).bytes()
                &&& p.len() >= 14 && p.len() <= old(dma_buffer).bytes().len() ==> r == Ok::<u16, NetworkError>(
                    (if p.len() < 60 {
                        60
                    } else {
                        p.len()
                    }) as u16,
                ) && final(dma_buffer).bytes() == framed_bytes(old(dma_buffer).bytes(), p)
            }),
            final(dma_buffer).physical_spec() == old(dma_buffer).physical_spec(),
    {
        let packet_data = packet.as_slice();
        if packet_data.len() < 14 {
            return Err(NetworkError::InvalidPacket);
        }
        match dma_buffer.copy_from_slice(packet_data) {
            Ok(()) => {},
            Err(e) => {
                return Err(e);
            },
        }
        let ghost after_copy = dma_buffer.bytes();
        let mut frame_size = packet_data.len();
        if frame_size < MIN_FRAME_SIZE {
            let mut i = frame_size;
            while i < MIN_FRAME_SIZE
                invariant
                    frame_size <= i <= MIN_FRAME_SIZE,
                    packet_data@.len() == frame_size,
                    dma_buffer.bytes().len() == after_copy.len(),
                    dma_buffer.physical_spec() == old(dma_buffer).physical_spec(),
                    forall|k: int|
                        0 <= k < dma_buffer.bytes().len() ==> #[trigger] dma_buffer.bytes()[k] == if frame_size <= k
                            < i {
                            0u8
                        } else {
                            after_copy[k]
                        },
                decreases MIN_FRAME_SIZE - i,
            {
                if i < dma_buffer.size() {
                    dma_buffer.set_byte(i, 0);
                }
                i = i + 1;
            }
            frame_size = MIN_FRAME_SIZE;
        }
        assert(dma_buffer.bytes() =~= framed_bytes(old(dma_buffer).bytes(), packet_data@));
        Ok(frame_size as u16)
    }

    /// The first `length` bytes of the buffer as a packet; `InvalidPacket`
    /// for fewer than 14 bytes.
    fn parse_rx_packet(&self, dma_buffer: &DmaBuffer, length: u16) -> (r: NetworkResult<PacketBuffer>)
        ensures
            length < 14 ==> r == Err::<PacketBuffer, NetworkError>(NetworkError::InvalidPacket),
            length >= 14 ==> (r matches Ok(p) && p.wf() && p.data_spec() == dma_buffer.bytes().subrange(
                0,
                length as int,
            ) && p.read_pos_spec() == 0),
    {
        if length < 14 {
            return Err(NetworkError::InvalidPacket);
        }
        let bytes = dma_buffer.as_slice();
        let data = crate::net::wire::copy_range(bytes, 0, length as usize);
        let packet = PacketBuffer::from_data(data);
        assert(packet.data_spec() =~= dma_buffer.bytes().subrange(0, length as int));
        Ok(packet)
    }

    /// The Internet checksum of `data`.
    fn calculate_hw_checksum(&self, data: &[u8]) -> (r: u16)
        ensures
            r == internet_checksum_spec(data@),
    {
        internet_checksum(data)
    }

    /// Whether `checksum` is the Internet checksum of `data`.
    fn validate_hw_checksum(&self, data: &[u8], checksum: u16) -> (r: bool)
        ensures
            r == (internet_checksum_spec(data@) == checksum),
    {
        let calculated = self.calculate_hw_checksum(data);
        calculated == checksum
    }
}

/// DMA statistics.
#[derive(Debug, Clone, Copy, PartialEq, Eq, Structural)]
pub struct DmaStats {
    pub tx_packets: u64,
    pub tx_bytes: u64,
    pub rx_packets: u64,
    pub rx_bytes: u64,
    pub tx_errors: u64,
    pub rx_errors: u64,
    pub tx_ring_full: u64,
    pub rx_ring_empty: u64,
}

/// All counters at zero.
pub open spec fn zero_dma_stats() -> DmaStats {
    DmaStats {
        tx_packets: 0,
        tx_bytes: 0,
        rx_packets: 0,
        rx_bytes: 0,
        tx_errors: 0,
        rx_errors: 0,
        tx_ring_full: 0,
        rx_ring_empty: 0,
    }
}

impl Default for DmaStats {
    fn default() -> (r: Self)
        ensures
            r == zero_dma_stats(),
    {
        DmaStats {
            tx_packets: 0,
            tx_bytes: 0,
            rx_packets: 0,
            rx_bytes: 0,
            tx_errors: 0,
            rx_errors: 0,
            tx_ring_full: 0,
            rx_ring_empty: 0,
        }
    }
}

/// The frame length of a packet of `n` bytes: at least 60.
pub open spec fn frame_len(n: nat) -> nat {
    if n < 60 {
        60
    } else {
        n
    }
}

/// DMA transmit and receive rings of an Ethernet device.
#[derive(Debug)]
pub struct DmaOperations {
    tx_ring: DmaRing,
    rx_ring: DmaRing,
    formatter: EthernetFormatter,
    stats: DmaStats,
}

impl DmaOperations {
    /// The transmit ring.
    pub closed spec fn tx_spec(&self) -> &DmaRing {
        &self.tx_ring
    }

    /// The receive ring.
    pub closed spec fn rx_spec(&self) -> &DmaRing {
        &self.rx_ring
    }

    /// The statistics.
    pub closed spec fn stats_spec(&self) -> DmaStats {
        self.stats
    }

    /// Both rings are well formed and not empty.
    pub open spec fn ready(&self) -> bool {
        self.tx_spec().wf() && self.rx_spec().wf() && self.tx_spec().size_spec() > 0 && self.rx_spec().size_spec() > 0
    }

    /// Rings of the given sizes with buffers of `buffer_size` bytes at the
    /// given physical addresses.
    pub fn new(
        tx_ring_size: usize,
        rx_ring_size: usize,
        buffer_size: usize,
        tx_addrs: &Vec<Option<u64>>,
        rx_addrs: &Vec<Option<u64>>,
    ) -> (r: NetworkResult<Self>)
        requires
            tx_addrs@.len() == tx_ring_size,
            rx_addrs@.len() == rx_ring_size,
            buffer_size + DMA_ALIGNMENT - 1 <= usize::MAX,
        ensures
            r matches Ok(ops) ==> ops.tx_spec().wf() && ops.rx_spec().wf() && ops.tx_spec().size_spec()
                == tx_ring_size && ops.rx_spec().size_spec() == rx_ring_size && ops.stats_spec() == zero_dma_stats(),
            (tx_ring_size > 0 || rx_ring_size > 0) && (buffer_size == 0 || buffer_size > MAX_DMA_BUFFER_SIZE) ==> r
                == Err::<DmaOperations, NetworkError>(NetworkError::InvalidArgument),
    {
        let tx_ring = match DmaRing::new(tx_ring_size, buffer_size, tx_addrs) {
            Ok(r) => r,
            Err(e) => {
                return Err(e);
            },
        };
        let rx_ring = match DmaRing::new(rx_ring_size, buffer_size, rx_addrs) {
            Ok(r) => r,
            Err(e) => {
                return Err(e);
            },
        };
        Ok(DmaOperations { tx_ring, rx_ring, formatter: EthernetFormatter, stats: DmaStats::default() })
    }

    /// Puts a packet in the next transmit entry: the frame is formatted
    /// into its buffer, the descriptor gets the frame length and the end of
    /// packet and ready flags, and the tail moves on. `Busy` when the ring
    /// is full; the formatter's errors otherwise.
    pub fn transmit_packet(&mut self, packet: PacketBuffer) -> (r: NetworkResult<()>)
        requires
            old(self).ready(),
            packet.wf(),
            old(self).stats_spec().tx_packets < u64::MAX,
            old(self).stats_spec().tx_bytes + frame_len(packet.data_spec().len()) <= u64::MAX,
        ensures
            final(self).ready(),
            final(self).rx_spec() == old(self).rx_spec(),
            ({
                let tx = old(self).tx_spec();
                let t = tx.tail_spec() as int;
                let full = (tx.tail_spec() + 1) % tx.size_spec() == tx.head_spec();
                let p = packet.data_spec();
                &&& full ==> r == Err::<(), NetworkError>(NetworkError::Busy) && final(self).tx_spec() == tx
                    && final(self).stats_spec() == old(self).stats_spec()
                &&& !full && p.len() < 14 ==> r == Err::<(), NetworkError>(NetworkError::InvalidPacket)
                    && final(self).stats_spec() == old(self).stats_spec() && final(self).tx_spec().tail_spec()
                    == tx.tail_spec()
                &&& !full && p.len() >= 14 && p.len() > tx.buffers_spec()[t].bytes().len() ==> r == Err::<
                    (),
                    NetworkError,
                >(NetworkError::BufferOverflow) && final(self).stats_spec() == old(self).stats_spec()
                    && final(self).tx_spec().tail_spec() == tx.tail_spec()
                &&& !full && p.len() >= 14 && p.len() <= tx.buffers_spec()[t].bytes().len() ==> {
                    let d = tx.descriptors_spec()[t];
                    &&& r is Ok
                    &&& final(self).tx_spec().descriptors_spec() == tx.descriptors_spec().update(
                        t,
                        DmaDescriptor { length: frame_len(p.len()) as u16, flags: d.flags | 1 | 4, ..d },
                    )
                    &&& final(self).tx_spec().buffers_spec()[t].bytes() == framed_bytes(
                        tx.buffers_spec()[t].bytes(),
                        p,
                    )
                    &&& final(self).tx_spec().tail_spec() == (tx.tail_spec() + 1) % tx.size_spec()
                    &&& final(self).tx_spec().head_spec() == tx.head_spec()
                    &&& final(self).stats_spec() == (DmaStats {
                        tx_packets: (old(self).stats_spec().tx_packets + 1) as u64,
                        tx_bytes: (old(self).stats_spec().tx_bytes + (frame_len(p.len()) as u16)) as u64,
                        ..old(self).stats_spec()
                    })
                }
            }),
    {
        let formatter = self.formatter;
        let (descriptor, dma_buffer) = match self.tx_ring.get_tx_descriptor() {
            Some(pair) => pair,
            None => {
                return Err(NetworkError::Busy);
            },
        };
        let frame_size = match formatter.format_tx_packet(&packet, dma_buffer) {
            Ok(f) => f,
            Err(e) => {
                return Err(e);
            },
        };
        descriptor.length = frame_size;
        descriptor.set_eop();
        descriptor.flags = descriptor.flags | 4;
        self.tx_ring.advance_tail();
        self.stats.tx_packets = self.stats.tx_packets + 1;
        self.stats.tx_bytes = self.stats.tx_bytes + frame_size as u64;
        Ok(())
    }

    /// Takes the next received frame, if the hardware is done with the head
    /// entry: an entry with an error is counted, skipped and reported as
    /// `InvalidPacket`; otherwise its frame is returned, the descriptor is
    /// made ready again and the head moves on.
    pub fn receive_packet(&mut self) -> (r: NetworkResult<Option<PacketBuffer>>)
        requires
            old(self).ready(),
            old(self).rx_spec().descriptors_spec()[old(self).rx_spec().head_spec() as int].length
                <= old(self).rx_spec().buffers_spec()[old(self).rx_spec().head_spec() as int].bytes().len(),
            old(self).stats_spec().rx_errors < u64::MAX,
            old(self).stats_spec().rx_packets < u64::MAX,
            old(self).stats_spec().rx_bytes + u16::MAX <= u64::MAX,
        ensures
            final(self).ready(),
            final(self).tx_spec() == old(self).tx_spec(),
            ({
                let rx = old(self).rx_spec();
                let h = rx.head_spec() as int;
                let d = rx.descriptors_spec()[h];
                let b = rx.buffers_spec()[h];
                let st = old(self).stats_spec();
                let next = (rx.head_spec() + 1) % rx.size_spec();
                &&& d.status & 1 == 0 ==> {
                    &&& r == Ok::<Option<PacketBuffer>, NetworkError>(None)
                    &&& final(self).rx_spec() == rx
                    &&& final(self).stats_spec() == st
                }
                &&& d.status & 1 != 0 && d.status & 2 != 0 ==> {
                    &&& r == Err::<Option<PacketBuffer>, NetworkError>(NetworkError::InvalidPacket)
                    &&& final(self).rx_spec().head_spec() == next
                    &&& final(self).rx_spec().descriptors_spec() == rx.descriptors_spec()
                    &&& final(self).stats_spec() == (DmaStats { rx_errors: (st.rx_errors + 1) as u64, ..st })
                }
                &&& d.status & 1 != 0 && d.status & 2 == 0 && d.length < 14 ==> {
                    &&& r == Err::<Option<PacketBuffer>, NetworkError>(NetworkError::InvalidPacket)
                    &&& final(self).rx_spec().head_spec() == rx.head_spec()
                    &&& final(self).stats_spec() == st
                }
                &&& d.status & 1 != 0 && d.status & 2 == 0 && d.length >= 14 ==> {
                    &&& r matches Ok(Some(p))
                    &&& r->Ok_0->Some_0.wf()
                    &&& r->Ok_0->Some_0.data_spec() == b.bytes().subrange(0, d.length as int)
                    &&& final(self).rx_spec().descriptors_spec() == rx.descriptors_spec().update(
                        h,
                        DmaDescriptor { status: 0, flags: 4, ..d },
                    )
                    &&& final(self).rx_spec().head_spec() == next
                    &&& final(self).stats_spec() == (DmaStats {
                        rx_packets: (st.rx_packets + 1) as u64,
                        rx_bytes: (st.rx_bytes + d.length) as u64,
                        ..st
                    })
                }
            }),
    {
        let formatter = self.formatter;
        let (descriptor, dma_buffer) = match self.rx_ring.get_rx_descriptor() {
            Some(pair) => pair,
            None => {
                return Ok(None);
            },
        };
        if descriptor.has_error() {
            self.stats.rx_errors = self.stats.rx_errors + 1;
            self.rx_ring.advance_head();
            return Err(NetworkError::InvalidPacket);
        }
        let length = descriptor.length;
        let packet = match formatter.parse_rx_packet(dma_buffer, length) {
            Ok(p) => p,
            Err(e) => {
                return Err(e);
            },
        };
        descriptor.status = 0;
        descriptor.flags = 4;
        self.rx_ring.advance_head();
        self.stats.rx_packets = self.stats.rx_packets + 1;
        self.stats.rx_bytes = self.stats.rx_bytes + length as u64;
        Ok(Some(packet))
    }

    /// The statistics.
    pub fn get_stats(&self) -> (r: DmaStats)
        ensures
            r == self.stats_spec(),
    {
        self.stats
    }

    /// The sizes of the transmit and receive rings.
    pub fn get_ring_sizes(&self) -> (r: (usize, usize))
        ensures
            r == (self.tx_spec().size_spec() as usize, self.rx_spec().size_spec() as usize),
    {
        (self.tx_ring.size(), self.rx_ring.size())
    }

    /// The transmit descriptor ring (its start is the ring's address).
    pub fn get_tx_ring_addr(&self) -> (r: &[DmaDescriptor])
        ensures
            r@ == self.tx_spec().descriptors_spec(),
    {
        self.tx_ring.descriptor_ring_addr()
    }

    /// The receive descriptor ring (its start is the ring's address).
    pub fn get_rx_ring_addr(&self) -> (r: &[DmaDescriptor])
        ensures
            r@ == self.rx_spec().descriptors_spec(),
    {
        self.rx_ring.descriptor_ring_addr()
    }
}

/// DMA rings for an Ethernet device.
pub fn create_ethernet_dma(
    tx_ring_size: usize,
    rx_ring_size: usize,
    buffer_size: usize,
    tx_addrs: &Vec<Option<u64>>,
    rx_addrs: &Vec<Option<u64>>,
) -> (r: NetworkResult<DmaOperations>)
    requires
        tx_addrs@.len() == tx_ring_size,
        rx_addrs@.len() == rx_ring_size,
        buffer_size + DMA_ALIGNMENT - 1 <= usize::MAX,
    ensures
        r matches Ok(ops) ==> ops.tx_spec().wf() && ops.rx_spec().wf() && ops.tx_spec().size_spec() == tx_ring_size
            && ops.rx_spec().size_spec() == rx_ring_size && ops.stats_spec() == zero_dma_stats(),
        (tx_ring_size > 0 || rx_ring_size > 0) && (buffer_size == 0 || buffer_size > MAX_DMA_BUFFER_SIZE) ==> r
            == Err::<DmaOperations, NetworkError>(NetworkError::InvalidArgument),
{
    DmaOperations::new(tx_ring_size, rx_ring_size, buffer_size, tx_addrs, rx_addrs)
}

} // verus!
