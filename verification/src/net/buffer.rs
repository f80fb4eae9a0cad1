use vstd::prelude::*;
use vstd::slice::slice_subrange;
use vstd::slice::SliceAdditionalExecFns;
use std::collections::VecDeque;
use crate::net::types::NetworkError;

verus! {

/// Default buffer size for network packets.
pub const DEFAULT_BUFFER_SIZE: usize = 2048;

/// Maximum buffer size.
pub const MAX_BUFFER_SIZE: usize = 65536;

/// Minimum buffer size.
pub const MIN_BUFFER_SIZE: usize = 64;

/// Default number of buffers in a pool.
pub const DEFAULT_POOL_SIZE: usize = 256;

/// Buffer alignment for optimal performance.
pub const BUFFER_ALIGNMENT: usize = 64;

/// Network buffer metadata.
#[derive(Debug, Clone)]
pub struct BufferMetadata {
    /// Buffer ID for tracking
    pub id: u32,
    /// Timestamp when the buffer was allocated
    pub allocated_at: u64,
    /// Last used timestamp
    pub last_used: u64,
    /// Number of references to this buffer
    pub ref_count: u32,
    /// Buffer flags
    pub flags: BufferFlags,
    /// Protocol-specific data
    pub protocol_data: u32,
}

impl BufferMetadata {
    /// Metadata of a fresh buffer: one reference, no flags.
    pub fn new(id: u32, timestamp: u64) -> (r: Self)
        ensures
            r.id == id,
            r.allocated_at == timestamp,
            r.last_used == timestamp,
            r.ref_count == 1,
            r.flags.bits_spec() == 0,
            r.protocol_data == 0,
    {
        Self {
            id,
            allocated_at: timestamp,
            last_used: timestamp,
            ref_count: 1,
            flags: BufferFlags::empty(),
            protocol_data: 0,
        }
    }
}

/// Buffer flags for various purposes.
#[derive(Debug, Clone, Copy, PartialEq, Eq)]
pub struct BufferFlags {
    bits: u32,
}

impl BufferFlags {
    /// The raw bits of the flag set.
    pub closed spec fn bits_spec(self) -> u32 {
        self.bits
    }

    /// No flags set
    pub fn empty() -> (r: Self)
        ensures
            r.bits_spec() == 0,
    {
        Self { bits: 0 }
    }

    /// Buffer contains an IPv4 packet
    pub fn ipv4() -> (r: Self)
        ensures
            r.bits_spec() == 1,
    {
        Self { bits: 1 }
    }

    /// Buffer contains an IPv6 packet
    pub fn ipv6() -> (r: Self)
        ensures
            r.bits_spec() == 2,
    {
        Self { bits: 2 }
    }

    /// Buffer contains a TCP packet
    pub fn tcp() -> (r: Self)
        ensures
            r.bits_spec() == 4,
    {
        Self { bits: 4 }
    }

    /// Buffer contains a UDP packet
    pub fn udp() -> (r: Self)
        ensures
            r.bits_spec() == 8,
    {
        Self { bits: 8 }
    }

    /// Buffer contains an ICMP packet
    pub fn icmp() -> (r: Self)
        ensures
            r.bits_spec() == 16,
    {
        Self { bits: 16 }
    }

    /// Buffer is part of a fragmented packet
    pub fn fragmented() -> (r: Self)
        ensures
            r.bits_spec() == 32,
    {
        Self { bits: 32 }
    }

    /// Buffer needs checksum calculation
    pub fn checksum_needed() -> (r: Self)
        ensures
            r.bits_spec() == 64,
    {
        Self { bits: 64 }
    }

    /// Buffer is read-only
    pub fn readonly() -> (r: Self)
        ensures
            r.bits_spec() == 128,
    {
        Self { bits: 128 }
    }

    /// Whether every bit of `flag` is set.
    pub fn contains(self, flag: Self) -> (r: bool)
        ensures
            r == ((self.bits_spec() & flag.bits_spec()) == flag.bits_spec()),
    {
        (self.bits & flag.bits) == flag.bits
    }

    /// Sets the bits of `flag`.
    pub fn set(&mut self, flag: Self)
        ensures
            final(self).bits_spec() == old(self).bits_spec() | flag.bits_spec(),
    {
        self.bits = self.bits | flag.bits;
    }

    /// Clears the bits of `flag`.
    pub fn clear(&mut self, flag: Self)
        ensures
            final(self).bits_spec() == old(self).bits_spec() & !flag.bits_spec(),
    {
        self.bits = self.bits & !flag.bits;
    }

    /// Toggles the bits of `flag`.
    pub fn toggle(&mut self, flag: Self)
        ensures
            final(self).bits_spec() == old(self).bits_spec() ^ flag.bits_spec(),
    {
        self.bits = self.bits ^ flag.bits;
    }
}

/// After `set(f)` the flag set contains `f`; after `clear(f)` it contains
/// no bit of `f`, so it contains `f` only when `f` is empty; toggling twice
/// restores the set.
pub proof fn lemma_buffer_flags_laws(a: u32, f: u32)
    ensures
        ((a | f) & f) == f,
        (((a & !f) & f) == f) <==> f == 0,
        ((a ^ f) ^ f) == a,
{
    assert(((a | f) & f) == f) by (bit_vector);
    assert((((a & !f) & f) == f) <==> f == 0) by (bit_vector);
    assert(((a ^ f) ^ f) == a) by (bit_vector);
}

/// A zero-filled byte vector of length `n`.
pub fn zeroed_bytes(n: usize) -> (r: Vec<u8>)
    ensures
        r@ == Seq::new(n as nat, |i: int| 0u8),
{
    let mut v: Vec<u8> = Vec::with_capacity(n);
    let mut i: usize = 0;
    while i < n
        invariant
            i <= n,
            v@ == Seq::new(i as nat, |k: int| 0u8),
        decreases n - i,
    {
        v.push(0u8);
        i = i + 1;
        assert(v@ =~= Seq::new(i as nat, |k: int| 0u8));
    }
    v
}

/// Network packet buffer: a fixed storage area with a data length and
/// separate read and write positions.
#[derive(Debug)]
pub struct PacketBuffer {
    data: Vec<u8>,
    length: usize,
    read_pos: usize,
    write_pos: usize,
    metadata: BufferMetadata,
}

impl PacketBuffer {
    /// The whole storage area (its length is the capacity).
    pub closed spec fn storage(&self) -> Seq<u8> {
        self.data@
    }

    /// The data length.
    pub closed spec fn length_spec(&self) -> nat {
        self.length as nat
    }

    /// The read position.
    pub closed spec fn read_pos_spec(&self) -> nat {
        self.read_pos as nat
    }

    /// The write position.
    pub closed spec fn write_pos_spec(&self) -> nat {
        self.write_pos as nat
    }

    /// The metadata.
    pub closed spec fn meta(&self) -> BufferMetadata {
        self.metadata
    }

    /// The bytes between the read and the write position.
    pub open spec fn readable_spec(&self) -> Seq<u8> {
        self.storage().subrange(self.read_pos_spec() as int, self.write_pos_spec() as int)
    }

    /// The bytes of the data length.
    pub open spec fn data_spec(&self) -> Seq<u8> {
        self.storage().subrange(0, self.length_spec() as int)
    }

    /// Positions are ordered: read <= write <= length <= capacity.
    pub closed spec fn wf(&self) -> bool {
        self.read_pos <= self.write_pos <= self.length <= self.data@.len()
    }

    /// Ghost facts of a well-formed buffer.
    pub proof fn lemma_wf(&self)
        requires
            self.wf(),
        ensures
            self.read_pos_spec() <= self.write_pos_spec() <= self.length_spec() <= self.storage().len(),
    {
    }

    /// A zero-filled buffer of `size` bytes, or `InvalidPacket` when
    /// `size` is outside [MIN_BUFFER_SIZE, MAX_BUFFER_SIZE].
    pub fn new(size: usize, id: u32, timestamp: u64) -> (r: Result<Self, NetworkError>)
        ensures
            (size < MIN_BUFFER_SIZE || size > MAX_BUFFER_SIZE) <==> r is Err,
            r is Err ==> r == Err::<Self, NetworkError>(NetworkError::InvalidPacket),
            r matches Ok(b) ==> {
                &&& b.wf()
                &&& b.storage() == Seq::new(size as nat, |i: int| 0u8)
                &&& b.length_spec() == 0
                &&& b.read_pos_spec() == 0
                &&& b.write_pos_spec() == 0
                &&& b.meta() == BufferMetadata::new_spec(id, timestamp)
            },
    {
        if size < MIN_BUFFER_SIZE || size > MAX_BUFFER_SIZE {
            return Err(NetworkError::InvalidPacket);
        }
        let data = zeroed_bytes(size);
        let metadata = BufferMetadata::new(id, timestamp);
        Ok(Self { data, length: 0, read_pos: 0, write_pos: 0, metadata })
    }

    /// A buffer holding `data`, with the write position after it.
    pub fn with_data(data: Vec<u8>, id: u32, timestamp: u64) -> (r: Self)
        ensures
            r.wf(),
            r.storage() == data@,
            r.length_spec() == data@.len(),
            r.read_pos_spec() == 0,
            r.write_pos_spec() == data@.len(),
            r.meta() == BufferMetadata::new_spec(id, timestamp),
    {
        let length = data.len();
        let metadata = BufferMetadata::new(id, timestamp);
        Self { data, length, read_pos: 0, write_pos: length, metadata }
    }

    /// A buffer holding a received or built packet: `data` as written, with
    /// a zero ID and timestamp.
    pub fn from_data(data: Vec<u8>) -> (r: Self)
        ensures
            r.wf(),
            r.storage() == data@,
            r.length_spec() == data@.len(),
            r.read_pos_spec() == 0,
            r.write_pos_spec() == data@.len(),
            r.meta() == BufferMetadata::new_spec(0, 0),
    {
        Self::with_data(data, 0, 0)
    }

    /// The packet bytes: all data up to the data length.
    pub fn as_slice(&self) -> (r: &[u8])
        requires
            self.wf(),
        ensures
            r@ == self.data_spec(),
    {
        self.data()
    }

    /// Buffer capacity.
    pub fn capacity(&self) -> (r: usize)
        ensures
            r == self.storage().len(),
    {
        self.data.len()
    }

    /// Current data length.
    pub fn len(&self) -> (r: usize)
        ensures
            r == self.length_spec(),
    {
        self.length
    }

    /// Whether the data length is zero.
    pub fn is_empty(&self) -> (r: bool)
        ensures
            r == (self.length_spec() == 0),
    {
        self.length == 0
    }

    /// Space left for writing.
    pub fn available_space(&self) -> (r: usize)
        requires
            self.wf(),
        ensures
            r == self.storage().len() - self.write_pos_spec(),
    {
        self.data.len() - self.write_pos
    }

    /// Data left for reading.
    pub fn available_data(&self) -> (r: usize)
        requires
            self.wf(),
        ensures
            r == self.write_pos_spec() - self.read_pos_spec(),
    {
        self.write_pos - self.read_pos
    }

    /// All data up to the data length.
    pub fn data(&self) -> (r: &[u8])
        requires
            self.wf(),
        ensures
            r@ == self.data_spec(),
    {
        slice_subrange(self.data.as_slice(), 0, self.length)
    }

    /// All data up to the data length, to be changed in place; the bytes
    /// after it and the positions stay as they were.
    pub fn data_mut(&mut self) -> (r: &mut [u8])
        requires
            old(self).wf(),
        ensures
            r@ == old(self).data_spec(),
            final(self).storage() == final(r)@ + old(self).storage().subrange(old(self).length_spec() as int, old(self).storage().len() as int),
            final(self).length_spec() == old(self).length_spec(),
            final(self).read_pos_spec() == old(self).read_pos_spec(),
            final(self).write_pos_spec() == old(self).write_pos_spec(),
            final(self).meta() == old(self).meta(),
    {
        let length = self.length;
        let all = self.data.as_mut_slice();
        let (head, _rest) = all.split_at_mut(length);
        head
    }

    /// The storage after the write position, to be changed in place; the
    /// bytes before it and the positions stay as they were.
    pub fn writable_space(&mut self) -> (r: &mut [u8])
        requires
            old(self).wf(),
        ensures
            r@ == old(self).storage().subrange(old(self).write_pos_spec() as int, old(self).storage().len() as int),
            final(self).storage() == old(self).storage().subrange(0, old(self).write_pos_spec() as int) + final(r)@,
            final(self).length_spec() == old(self).length_spec(),
            final(self).read_pos_spec() == old(self).read_pos_spec(),
            final(self).write_pos_spec() == old(self).write_pos_spec(),
            final(self).meta() == old(self).meta(),
    {
        let write_pos = self.write_pos;
        let all = self.data.as_mut_slice();
        let (_before, tail) = all.split_at_mut(write_pos);
        tail
    }

    /// The readable data.
    pub fn readable_data(&self) -> (r: &[u8])
        requires
            self.wf(),
        ensures
            r@ == self.readable_spec(),
            r@.len() == self.write_pos_spec() - self.read_pos_spec(),
    {
        slice_subrange(self.data.as_slice(), self.read_pos, self.write_pos)
    }

    /// Writes as much of `src` as fits after the write position.
    /// Fails with `BufferTooSmall` when nothing can be written.
    pub fn write(&mut self, src: &[u8]) -> (r: Result<usize, NetworkError>)
        requires
            old(self).wf(),
        ensures
            final(self).wf(),
            ({
                let n = if src@.len() < old(self).storage().len() - old(self).write_pos_spec() {
                    src@.len()
                } else {
                    (old(self).storage().len() - old(self).write_pos_spec()) as nat
                };
                let w = old(self).write_pos_spec();
                if n == 0 {
                    &&& r == Err::<usize, NetworkError>(NetworkError::BufferTooSmall)
                    &&& *final(self) == *old(self)
                } else {
                    &&& r == Ok::<usize, NetworkError>(n as usize)
                    &&& final(self).storage() == old(self).storage().subrange(0, w as int)
                        + src@.subrange(0, n as int)
                        + old(self).storage().subrange((w + n) as int, old(self).storage().len() as int)
                    &&& final(self).write_pos_spec() == w + n
                    &&& final(self).length_spec() == if old(self).length_spec() > w + n {
                        old(self).length_spec()
                    } else {
                        w + n
                    }
                    &&& final(self).read_pos_spec() == old(self).read_pos_spec()
                    &&& final(self).meta() == old(self).meta()
                }
            }),
    {
        let available = self.data.len() - self.write_pos;
        let write_len = if src.len() < available { src.len() } else { available };
        if write_len == 0 {
            return Err(NetworkError::BufferTooSmall);
        }
        let w = self.write_pos;
        let cap = self.data.len();
        let ghost old_data = self.data@;
        let mut i: usize = 0;
        while i < write_len
            invariant
                cap == old_data.len(),
                i <= write_len,
                write_len <= src@.len(),
                w + write_len <= old_data.len(),
                self.data@.len() == old_data.len(),
                forall|k: int| 0 <= k < w ==> self.data@[k] == old_data[k],
                forall|k: int| w <= k < w + i ==> self.data@[k] == src@[k - w],
                forall|k: int| w + i <= k < old_data.len() ==> self.data@[k] == old_data[k],
                self.write_pos == w,
                self.read_pos == old(self).read_pos,
                self.length == old(self).length,
                self.metadata == old(self).metadata,
            decreases write_len - i,
        {
            self.data.set(w + i, src[i]);
            i = i + 1;
        }
        assert(self.data@ =~= old_data.subrange(0, w as int) + src@.subrange(0, write_len as int)
            + old_data.subrange(w + write_len, old_data.len() as int));
        self.write_pos = w + write_len;
        if self.length < self.write_pos {
            self.length = self.write_pos;
        }
        Ok(write_len)
    }

    /// Copies readable bytes into `buffer` without consuming them.
    pub fn peek(&self, buffer: &mut [u8]) -> (r: usize)
        requires
            self.wf(),
        ensures
            r == if old(buffer)@.len() < self.readable_spec().len() {
                old(buffer)@.len()
            } else {
                self.readable_spec().len()
            },
            final(buffer)@ == self.readable_spec().subrange(0, r as int) + old(buffer)@.subrange(
                r as int,
                old(buffer)@.len() as int,
            ),
    {
        let available = self.write_pos - self.read_pos;
        let read_len = if buffer.len() < available { buffer.len() } else { available };
        let rp = self.read_pos;
        let ghost old_buf = buffer@;
        let mut i: usize = 0;
        while i < read_len
            invariant
                i <= read_len,
                read_len <= old_buf.len(),
                rp + read_len <= self.write_pos,
                self.wf(),
                rp == self.read_pos,
                buffer@.len() == old_buf.len(),
                forall|k: int| 0 <= k < i ==> buffer@[k] == self.data@[rp + k],
                forall|k: int| i <= k < old_buf.len() ==> buffer@[k] == old_buf[k],
            decreases read_len - i,
        {
            buffer[i] = self.data[rp + i];
            i = i + 1;
        }
        assert(buffer@ =~= self.readable_spec().subrange(0, read_len as int) + old_buf.subrange(
            read_len as int,
            old_buf.len() as int,
        ));
        read_len
    }

    /// Copies readable bytes into `buffer` and consumes them.
    pub fn read(&mut self, buffer: &mut [u8]) -> (r: usize)
        requires
            old(self).wf(),
        ensures
            final(self).wf(),
            r == if old(buffer)@.len() < old(self).readable_spec().len() {
                old(buffer)@.len()
            } else {
                old(self).readable_spec().len()
            },
            final(buffer)@ == old(self).readable_spec().subrange(0, r as int) + old(buffer)@.subrange(
                r as int,
                old(buffer)@.len() as int,
            ),
            final(self).read_pos_spec() == old(self).read_pos_spec() + r,
            final(self).storage() == old(self).storage(),
            final(self).write_pos_spec() == old(self).write_pos_spec(),
            final(self).length_spec() == old(self).length_spec(),
            final(self).meta() == old(self).meta(),
    {
        let n = self.peek(buffer);
        self.read_pos = self.read_pos + n;
        n
    }

    /// Advances the read position by at most `count` bytes.
    pub fn consume(&mut self, count: usize) -> (r: usize)
        requires
            old(self).wf(),
        ensures
            final(self).wf(),
            r == if count < old(self).write_pos_spec() - old(self).read_pos_spec() {
                count as int
            } else {
                old(self).write_pos_spec() - old(self).read_pos_spec()
            },
            final(self).read_pos_spec() == old(self).read_pos_spec() + r,
            final(self).storage() == old(self).storage(),
            final(self).write_pos_spec() == old(self).write_pos_spec(),
            final(self).length_spec() == old(self).length_spec(),
            final(self).meta() == old(self).meta(),
    {
        let available = self.write_pos - self.read_pos;
        let consume_len = if count < available { count } else { available };
        self.read_pos = self.read_pos + consume_len;
        consume_len
    }

    /// Empties the buffer for reuse and resets its reference count to one.
    pub fn reset(&mut self)
        ensures
            final(self).wf(),
            final(self).length_spec() == 0,
            final(self).read_pos_spec() == 0,
            final(self).write_pos_spec() == 0,
            final(self).storage() == old(self).storage(),
            final(self).meta() == (BufferMetadata { ref_count: 1, ..old(self).meta() }),
    {
        self.length = 0;
        self.read_pos = 0;
        self.write_pos = 0;
        self.metadata.ref_count = 1;
    }

    /// A copy of the data up to the data length.
    pub fn clone_data(&self) -> (r: Vec<u8>)
        requires
            self.wf(),
        ensures
            r@ == self.data_spec(),
    {
        vstd::slice::slice_to_vec(self.data())
    }

    /// Sets the data length, clamping the positions to it; fails with
    /// `BufferTooSmall` when it exceeds the capacity.
    pub fn resize(&mut self, new_length: usize) -> (r: Result<(), NetworkError>)
        requires
            old(self).wf(),
        ensures
            final(self).wf(),
            (new_length > old(self).storage().len()) <==> r is Err,
            r is Err ==> r == Err::<(), NetworkError>(NetworkError::BufferTooSmall) && *final(self)
                == *old(self),
            r is Ok ==> {
                &&& final(self).length_spec() == new_length
                &&& final(self).write_pos_spec() == if old(self).write_pos_spec() < new_length {
                    old(self).write_pos_spec()
                } else {
                    new_length as nat
                }
                &&& final(self).read_pos_spec() == if old(self).read_pos_spec() < new_length {
                    old(self).read_pos_spec()
                } else {
                    new_length as nat
                }
                &&& final(self).storage() == old(self).storage()
                &&& final(self).meta() == old(self).meta()
            },
    {
        if new_length > self.data.len() {
            return Err(NetworkError::BufferTooSmall);
        }
        self.length = new_length;
        if self.write_pos > new_length {
            self.write_pos = new_length;
        }
        if self.read_pos > new_length {
            self.read_pos = new_length;
        }
        Ok(())
    }

    /// The buffer metadata.
    pub fn metadata(&self) -> (r: &BufferMetadata)
        ensures
            *r == self.meta(),
    {
        &self.metadata
    }

    /// The buffer metadata, to be changed in place; the rest of the buffer
    /// stays as it was.
    pub fn metadata_mut(&mut self) -> (r: &mut BufferMetadata)
        ensures
            *r == old(self).meta(),
            final(self).meta() == *final(r),
            final(self).storage() == old(self).storage(),
            final(self).length_spec() == old(self).length_spec(),
            final(self).read_pos_spec() == old(self).read_pos_spec(),
            final(self).write_pos_spec() == old(self).write_pos_spec(),
            final(self).wf() == old(self).wf(),
    {
        &mut self.metadata
    }

    /// Replaces the buffer metadata.
    pub fn set_metadata(&mut self, metadata: BufferMetadata)
        ensures
            final(self).meta() == metadata,
            final(self).storage() == old(self).storage(),
            final(self).length_spec() == old(self).length_spec(),
            final(self).read_pos_spec() == old(self).read_pos_spec(),
            final(self).write_pos_spec() == old(self).write_pos_spec(),
            old(self).wf() ==> final(self).wf(),
    {
        self.metadata = metadata;
    }

    /// Adds a reference.
    pub fn add_ref(&mut self)
        requires
            old(self).meta().ref_count < u32::MAX,
        ensures
            final(self).meta() == (BufferMetadata {
                ref_count: (old(self).meta().ref_count + 1) as u32,
                ..old(self).meta()
            }),
            final(self).storage() == old(self).storage(),
            final(self).length_spec() == old(self).length_spec(),
            final(self).read_pos_spec() == old(self).read_pos_spec(),
            final(self).write_pos_spec() == old(self).write_pos_spec(),
            old(self).wf() ==> final(self).wf(),
    {
        self.metadata.ref_count = self.metadata.ref_count + 1;
    }

    /// Drops a reference (never below zero) and returns the remaining count.
    pub fn release_ref(&mut self) -> (r: u32)
        ensures
            r == if old(self).meta().ref_count > 0 {
                (old(self).meta().ref_count - 1) as u32
            } else {
                0u32
            },
            final(self).meta() == (BufferMetadata { ref_count: r, ..old(self).meta() }),
            final(self).storage() == old(self).storage(),
            final(self).length_spec() == old(self).length_spec(),
            final(self).read_pos_spec() == old(self).read_pos_spec(),
            final(self).write_pos_spec() == old(self).write_pos_spec(),
            old(self).wf() ==> final(self).wf(),
    {
        if self.metadata.ref_count > 0 {
            self.metadata.ref_count = self.metadata.ref_count - 1;
        }
        self.metadata.ref_count
    }

    /// Sets the last-used timestamp.
    pub fn touch(&mut self, timestamp: u64)
        ensures
            final(self).meta() == (BufferMetadata { last_used: timestamp, ..old(self).meta() }),
            final(self).storage() == old(self).storage(),
            final(self).length_spec() == old(self).length_spec(),
            final(self).read_pos_spec() == old(self).read_pos_spec(),
            final(self).write_pos_spec() == old(self).write_pos_spec(),
            old(self).wf() ==> final(self).wf(),
    {
        self.metadata.last_used = timestamp;
    }
}

impl BufferMetadata {
    /// The metadata that `new` builds.
    pub open spec fn new_spec(id: u32, timestamp: u64) -> BufferMetadata {
        BufferMetadata {
            id,
            allocated_at: timestamp,
            last_used: timestamp,
            ref_count: 1,
            flags: BufferFlags::empty_spec(),
            protocol_data: 0,
        }
    }
}

impl BufferFlags {
    /// The empty flag set.
    pub closed spec fn empty_spec() -> BufferFlags {
        BufferFlags { bits: 0 }
    }

    /// The empty set has no bits.
    pub proof fn lemma_empty_spec()
        ensures
            Self::empty_spec().bits_spec() == 0,
    {
    }
}


/// The slot that holds the `i`-th queued element of a ring whose oldest
/// element sits at `start`.
pub open spec fn ring_slot(start: int, i: int, cap: int) -> int {
    if start + i < cap {
        start + i
    } else {
        start + i - cap
    }
}

/// Ring buffer for packet queuing: a fixed number of slots used first in,
/// first out.
#[derive(Debug)]
pub struct RingBuffer {
    buffers: Vec<Option<PacketBuffer>>,
    read_index: usize,
    write_index: usize,
    count: usize,
    capacity: usize,
}

impl RingBuffer {
    /// Slots agree with the capacity; queued slots are full, the others empty.
    pub closed spec fn wf(&self) -> bool {
        &&& self.buffers@.len() == self.capacity
        &&& self.count <= self.capacity
        &&& (self.capacity > 0 ==> self.read_index < self.capacity && self.write_index < self.capacity)
        &&& (self.capacity == 0 ==> self.read_index == 0 && self.write_index == 0)
        &&& self.write_index == ring_slot(self.read_index as int, self.count as int, self.capacity as int)
            || (self.count == self.capacity && self.write_index == self.read_index)
        &&& forall|j: int|
            0 <= j < self.capacity ==> (#[trigger] self.buffers@[j] is Some <==> exists|i: int|
                0 <= i < self.count && j == ring_slot(self.read_index as int, i, self.capacity as int))
    }

    /// The queued buffers, oldest first.
    pub closed spec fn queue(&self) -> Seq<PacketBuffer> {
        Seq::new(
            self.count as nat,
            |i: int| self.buffers@[ring_slot(self.read_index as int, i, self.capacity as int)]->0,
        )
    }

    /// The number of slots.
    pub closed spec fn capacity_spec(&self) -> nat {
        self.capacity as nat
    }

    /// An empty ring with `capacity` slots.
    pub fn new(capacity: usize) -> (r: Self)
        ensures
            r.wf(),
            r.queue() == Seq::<PacketBuffer>::empty(),
            r.capacity_spec() == capacity,
    {
        let mut buffers: Vec<Option<PacketBuffer>> = Vec::with_capacity(capacity);
        let mut i: usize = 0;
        while i < capacity
            invariant
                i <= capacity,
                buffers@.len() == i,
                forall|j: int| 0 <= j < i ==> buffers@[j] is None,
            decreases capacity - i,
        {
            buffers.push(None);
            i = i + 1;
        }
        let r = Self { buffers, read_index: 0, write_index: 0, count: 0, capacity };
        assert(r.queue() =~= Seq::<PacketBuffer>::empty());
        r
    }

    /// Whether nothing is queued.
    pub fn is_empty(&self) -> (r: bool)
        requires
            self.wf(),
        ensures
            r == (self.queue().len() == 0),
    {
        self.count == 0
    }

    /// Whether every slot is used.
    pub fn is_full(&self) -> (r: bool)
        requires
            self.wf(),
        ensures
            r == (self.queue().len() == self.capacity_spec()),
    {
        self.count == self.capacity
    }

    /// Number of queued buffers.
    pub fn len(&self) -> (r: usize)
        requires
            self.wf(),
        ensures
            r == self.queue().len(),
    {
        self.count
    }

    /// Number of slots.
    pub fn capacity(&self) -> (r: usize)
        ensures
            r == self.capacity_spec(),
    {
        self.capacity
    }

    /// Free slots.
    pub fn available_space(&self) -> (r: usize)
        requires
            self.wf(),
        ensures
            r == self.capacity_spec() - self.queue().len(),
    {
        self.capacity - self.count
    }

    /// Queues `buffer` at the back; fails with `InsufficientMemory` when full.
    pub fn push(&mut self, buffer: PacketBuffer) -> (r: Result<(), NetworkError>)
        requires
            old(self).wf(),
        ensures
            final(self).wf(),
            final(self).capacity_spec() == old(self).capacity_spec(),
            (old(self).queue().len() == old(self).capacity_spec()) <==> r is Err,
            r is Err ==> r == Err::<(), NetworkError>(NetworkError::InsufficientMemory) && final(self).queue() == old(self).queue(),
            r is Ok ==> final(self).queue() == old(self).queue().push(buffer),
    {
        if self.count == self.capacity {
            return Err(NetworkError::InsufficientMemory);
        }
        let ghost old_q = self.queue();
        let ghost old_bufs = self.buffers@;
        let w = self.write_index;
        assert(w == ring_slot(self.read_index as int, self.count as int, self.capacity as int));
        assert(old_bufs[w as int] is None) by {
            if old_bufs[w as int] is Some {
                let i = choose|i: int|
                    0 <= i < self.count && w == ring_slot(self.read_index as int, i, self.capacity as int);
                assert(false);
            }
        }
        self.buffers.set(w, Some(buffer));
        self.write_index = if w + 1 == self.capacity { 0 } else { w + 1 };
        self.count = self.count + 1;
        assert forall|j: int| 0 <= j < self.capacity implies (#[trigger] self.buffers@[j] is Some
            <==> exists|i: int|
            0 <= i < self.count && j == ring_slot(self.read_index as int, i, self.capacity as int)) by {
            if j == w {
                assert(j == ring_slot(self.read_index as int, self.count - 1, self.capacity as int));
            } else {
                if old_bufs[j] is Some {
                    let i = choose|i: int|
                        0 <= i < self.count - 1 && j == ring_slot(self.read_index as int, i, self.capacity as int);
                    assert(0 <= i < self.count);
                }
                if exists|i: int|
                    0 <= i < self.count && j == ring_slot(self.read_index as int, i, self.capacity as int)
                {
                    let i = choose|i: int|
                        0 <= i < self.count && j == ring_slot(self.read_index as int, i, self.capacity as int);
                    assert(i != self.count - 1);
                    assert(old_bufs[j] is Some);
                }
            }
        }
        assert(self.queue() =~= old_q.push(buffer));
        Ok(())
    }

    /// Removes and returns the oldest buffer, or `None` when empty.
    pub fn pop(&mut self) -> (r: Option<PacketBuffer>)
        requires
            old(self).wf(),
        ensures
            final(self).wf(),
            final(self).capacity_spec() == old(self).capacity_spec(),
            (old(self).queue().len() == 0) <==> r is None,
            r is None ==> final(self).queue() == old(self).queue(),
            r matches Some(b) ==> b == old(self).queue()[0] && final(self).queue() == old(self).queue().drop_first(),
    {
        if self.count == 0 {
            return None;
        }
        let ghost old_q = self.queue();
        let ghost old_bufs = self.buffers@;
        let ri = self.read_index;
        assert(ri == ring_slot(ri as int, 0, self.capacity as int));
        let mut slot: Option<PacketBuffer> = None;
        self.buffers.set_and_swap(ri, &mut slot);
        self.read_index = if ri + 1 == self.capacity { 0 } else { ri + 1 };
        self.count = self.count - 1;
        assert forall|i: int| 0 <= i < self.count implies ring_slot(self.read_index as int, i, self.capacity as int)
            == ring_slot(ri as int, i + 1, self.capacity as int) by {
        }
        assert forall|j: int| 0 <= j < self.capacity implies (#[trigger] self.buffers@[j] is Some
            <==> exists|i: int|
            0 <= i < self.count && j == ring_slot(self.read_index as int, i, self.capacity as int)) by {
            if j == ri {
                if exists|i: int|
                    0 <= i < self.count && j == ring_slot(self.read_index as int, i, self.capacity as int)
                {
                    let i = choose|i: int|
                        0 <= i < self.count && j == ring_slot(self.read_index as int, i, self.capacity as int);
                    assert(j == ring_slot(ri as int, i + 1, self.capacity as int));
                    assert(false);
                }
            } else {
                if old_bufs[j] is Some {
                    let i = choose|i: int|
                        0 <= i < self.count + 1 && j == ring_slot(ri as int, i, self.capacity as int);
                    assert(i != 0);
                    assert(j == ring_slot(self.read_index as int, i - 1, self.capacity as int));
                }
                if exists|i: int|
                    0 <= i < self.count && j == ring_slot(self.read_index as int, i, self.capacity as int)
                {
                    let i = choose|i: int|
                        0 <= i < self.count && j == ring_slot(self.read_index as int, i, self.capacity as int);
                    assert(j == ring_slot(ri as int, i + 1, self.capacity as int));
                }
            }
        }
        assert(self.queue() =~= old_q.drop_first());
        slot
    }

    /// The oldest buffer, if any, without removing it.
    pub fn peek(&self) -> (r: Option<&PacketBuffer>)
        requires
            self.wf(),
        ensures
            (self.queue().len() == 0) <==> r is None,
            r matches Some(b) ==> *b == self.queue()[0],
    {
        if self.count == 0 {
            None
        } else {
            assert(self.read_index == ring_slot(self.read_index as int, 0, self.capacity as int));
            match &self.buffers[self.read_index] {
                Some(b) => Some(b),
                None => None,
            }
        }
    }

    /// Drops every queued buffer.
    pub fn clear(&mut self)
        requires
            old(self).wf(),
        ensures
            final(self).wf(),
            final(self).queue() == Seq::<PacketBuffer>::empty(),
            final(self).capacity_spec() == old(self).capacity_spec(),
    {
        let n = self.buffers.len();
        let mut i: usize = 0;
        while i < n
            invariant
                i <= n,
                n == self.buffers@.len(),
                n == self.capacity,
                self.capacity == old(self).capacity,
                forall|j: int| 0 <= j < i ==> self.buffers@[j] is None,
            decreases n - i,
        {
            self.buffers.set(i, None);
            i = i + 1;
        }
        self.read_index = 0;
        self.write_index = 0;
        self.count = 0;
        assert(self.queue() =~= Seq::<PacketBuffer>::empty());
    }
}


/// What allocating from pool `old` at `timestamp` does: `new` is the pool
/// after and `r` the answer. A pool with a free buffer hands out its front
/// one, emptied, with one reference and last used at `timestamp`, and keeps
/// the rest; one that may still grow makes a new zeroed buffer of its size
/// with the next id; a pool at its limit fails with `InsufficientMemory`,
/// one whose buffer size is invalid with `InvalidPacket`.
pub open spec fn pool_allocated(old: BufferPool, new: BufferPool, timestamp: u64, r: Result<PacketBuffer, NetworkError>) -> bool {
    &&& new.buffer_size_spec() == old.buffer_size_spec()
    &&& new.max_size_spec() == old.max_size_spec()
    &&& (r is Ok <==> old.can_allocate())
    &&& (r matches Ok(b) ==> b.wf() && b.length_spec() == 0 && b.read_pos_spec() == 0 && b.write_pos_spec() == 0)
    &&& (old.available().len() > 0 ==> {
        let front = old.available()[0];
        &&& r matches Ok(b) && b.storage() == front.storage() && b.meta() == (BufferMetadata {
            ref_count: 1,
            last_used: timestamp,
            ..front.meta()
        })
        &&& new.available() == old.available().drop_first()
        &&& new.current_size_spec() == old.current_size_spec()
        &&& new.next_id_spec() == old.next_id_spec()
        &&& new.stats_spec() == (BufferPoolStats {
            allocations: (old.stats_spec().allocations + 1) as u64,
            ..old.stats_spec()
        })
    })
    &&& (old.available().len() == 0 && old.current_size_spec() < old.max_size_spec() && BufferPool::size_ok(
        old.buffer_size_spec(),
    ) ==> {
        &&& r matches Ok(b) && b.storage() == Seq::new(old.buffer_size_spec(), |k: int| 0u8) && b.meta()
            == BufferMetadata::new_spec(old.next_id_spec(), timestamp)
        &&& new.available() == old.available()
        &&& new.current_size_spec() == old.current_size_spec() + 1
        &&& new.next_id_spec() == old.next_id_spec() + 1
        &&& new.stats_spec() == (BufferPoolStats {
            allocations: (old.stats_spec().allocations + 1) as u64,
            expansions: (old.stats_spec().expansions + 1) as u64,
            ..old.stats_spec()
        })
    })
    &&& (old.available().len() == 0 && old.current_size_spec() < old.max_size_spec() && !BufferPool::size_ok(
        old.buffer_size_spec(),
    ) ==> {
        &&& r == Err::<PacketBuffer, NetworkError>(NetworkError::InvalidPacket)
        &&& new == old
    })
    &&& (old.available().len() == 0 && old.current_size_spec() >= old.max_size_spec() ==> {
        &&& r == Err::<PacketBuffer, NetworkError>(NetworkError::InsufficientMemory)
        &&& new.available() == old.available()
        &&& new.current_size_spec() == old.current_size_spec()
        &&& new.next_id_spec() == old.next_id_spec()
        &&& new.stats_spec() == (BufferPoolStats {
            allocation_failures: (old.stats_spec().allocation_failures + 1) as u64,
            ..old.stats_spec()
        })
    })
}

/// Buffer pool statistics.
#[derive(Debug, Clone)]
pub struct BufferPoolStats {
    pub allocations: u64,
    pub deallocations: u64,
    pub allocation_failures: u64,
    pub expansions: u64,
    pub clears: u64,
    pub peak_usage: usize,
}

impl Default for BufferPoolStats {
    fn default() -> (r: Self)
        ensures
            r == BufferPoolStats::zero(),
    {
        BufferPoolStats {
            allocations: 0,
            deallocations: 0,
            allocation_failures: 0,
            expansions: 0,
            clears: 0,
            peak_usage: 0,
        }
    }
}

impl BufferPoolStats {
    /// All counters at zero.
    pub open spec fn zero() -> BufferPoolStats {
        BufferPoolStats {
            allocations: 0,
            deallocations: 0,
            allocation_failures: 0,
            expansions: 0,
            clears: 0,
            peak_usage: 0,
        }
    }
}

/// Pool of equally sized packet buffers that grows up to a maximum.
#[derive(Debug)]
pub struct BufferPool {
    available_buffers: VecDeque<PacketBuffer>,
    buffer_size: usize,
    max_size: usize,
    current_size: usize,
    next_id: u32,
    stats: BufferPoolStats,
}

impl BufferPool {
    /// The buffers ready to hand out, front first.
    pub closed spec fn available(&self) -> Seq<PacketBuffer> {
        self.available_buffers@
    }

    /// Size of each buffer the pool creates.
    pub closed spec fn buffer_size_spec(&self) -> nat {
        self.buffer_size as nat
    }

    /// Largest number of buffers the pool may own.
    pub closed spec fn max_size_spec(&self) -> nat {
        self.max_size as nat
    }

    /// Number of buffers the pool counts as its own.
    pub closed spec fn current_size_spec(&self) -> nat {
        self.current_size as nat
    }

    /// The ID the next created buffer gets.
    pub closed spec fn next_id_spec(&self) -> u32 {
        self.next_id
    }

    /// The statistics.
    pub closed spec fn stats_spec(&self) -> BufferPoolStats {
        self.stats
    }

    /// Every available buffer is well formed.
    pub closed spec fn wf(&self) -> bool {
        forall|i: int| 0 <= i < self.available_buffers@.len() ==> (#[trigger] self.available_buffers@[i]).wf()
    }

    /// Whether a buffer of `size` bytes can be created.
    pub open spec fn size_ok(size: nat) -> bool {
        MIN_BUFFER_SIZE <= size <= MAX_BUFFER_SIZE
    }

    /// A pool that may grow to twice `initial_size` buffers, filled with
    /// `initial_size` fresh buffers (none when `buffer_size` is invalid).
    pub fn new(buffer_size: usize, initial_size: usize) -> (r: Self)
        requires
            initial_size * 2 <= usize::MAX,
            initial_size < u32::MAX,
        ensures
            r.wf(),
            r.buffer_size_spec() == buffer_size,
            r.max_size_spec() == initial_size * 2,
            r.stats_spec() == BufferPoolStats::zero(),
            Self::size_ok(buffer_size as nat) ==> {
                &&& r.available().len() == initial_size
                &&& r.current_size_spec() == initial_size
                &&& r.next_id_spec() == initial_size + 1
                &&& forall|i: int|
                    0 <= i < initial_size ==> {
                        &&& (#[trigger] r.available()[i]).storage() == Seq::new(
                            buffer_size as nat,
                            |k: int| 0u8,
                        )
                        &&& r.available()[i].length_spec() == 0
                        &&& r.available()[i].read_pos_spec() == 0
                        &&& r.available()[i].write_pos_spec() == 0
                        &&& r.available()[i].meta() == BufferMetadata::new_spec((i + 1) as u32, 0)
                    }
            },
            !Self::size_ok(buffer_size as nat) ==> {
                &&& r.available().len() == 0
                &&& r.current_size_spec() == 0
                &&& r.next_id_spec() == 1
            },
    {
        let mut pool = Self {
            available_buffers: VecDeque::new(),
            buffer_size,
            max_size: initial_size * 2,
            current_size: 0,
            next_id: 1,
            stats: BufferPoolStats::default(),
        };
        let mut n: usize = 0;
        while n < initial_size
            invariant
                n <= initial_size,
                initial_size < u32::MAX,
                pool.wf(),
                pool.buffer_size == buffer_size,
                pool.max_size == initial_size * 2,
                pool.stats == BufferPoolStats::zero(),
                Self::size_ok(buffer_size as nat) ==> {
                    &&& pool.available_buffers@.len() == n
                    &&& pool.current_size == n
                    &&& pool.next_id == n + 1
                    &&& forall|i: int|
                        0 <= i < n ==> {
                            &&& (#[trigger] pool.available_buffers@[i]).storage() == Seq::new(
                                buffer_size as nat,
                                |k: int| 0u8,
                            )
                            &&& pool.available_buffers@[i].length_spec() == 0
                            &&& pool.available_buffers@[i].read_pos_spec() == 0
                            &&& pool.available_buffers@[i].write_pos_spec() == 0
                            &&& pool.available_buffers@[i].meta() == BufferMetadata::new_spec(
                                (i + 1) as u32,
                                0,
                            )
                        }
                },
                !Self::size_ok(buffer_size as nat) ==> {
                    &&& pool.available_buffers@.len() == 0
                    &&& pool.current_size == 0
                    &&& pool.next_id == 1
                },
            decreases initial_size - n,
        {
            match PacketBuffer::new(buffer_size, pool.next_id, 0) {
                Ok(buffer) => {
                    pool.available_buffers.push_back(buffer);
                    pool.next_id = pool.next_id + 1;
                    pool.current_size = pool.current_size + 1;
                },
                Err(_) => {},
            }
            n = n + 1;
        }
        pool
    }

    /// Capacity of the buffer that `allocate` would hand out.
    pub open spec fn next_capacity(&self) -> nat {
        if self.available().len() > 0 {
            self.available()[0].storage().len()
        } else {
            self.buffer_size_spec()
        }
    }

    /// Whether `allocate` can hand out a buffer.
    pub open spec fn can_allocate(&self) -> bool {
        self.available().len() > 0 || (self.current_size_spec() < self.max_size_spec()
            && Self::size_ok(self.buffer_size_spec()))
    }

    /// Hands out the front available buffer, emptied; otherwise creates a
    /// new one while the pool may grow; otherwise fails with
    /// `InsufficientMemory` (or `InvalidPacket` when the pool's buffer size
    /// is invalid).
    pub fn allocate(&mut self, timestamp: u64) -> (r: Result<PacketBuffer, NetworkError>)
        requires
            old(self).wf(),
            old(self).stats_spec().allocations < u64::MAX,
            old(self).stats_spec().expansions < u64::MAX,
            old(self).stats_spec().allocation_failures < u64::MAX,
            old(self).available().len() == 0 && old(self).current_size_spec() < old(self).max_size_spec()
                ==> old(self).next_id_spec() < u32::MAX,
        ensures
            final(self).wf(),
            pool_allocated(*old(self), *final(self), timestamp, r),

    {
        if self.available_buffers.len() > 0 {
            let ghost q = self.available_buffers@;
            assert(q[0].wf());
            let mut buffer = self.available_buffers.pop_front().unwrap();
            assert(self.available_buffers@ =~= q.drop_first());
            assert forall|i: int| 0 <= i < self.available_buffers@.len() implies (
            #[trigger] self.available_buffers@[i]).wf() by {
                assert(self.available_buffers@[i] == q[i + 1]);
            }
            buffer.reset();
            buffer.touch(timestamp);
            self.stats.allocations = self.stats.allocations + 1;
            Ok(buffer)
        } else if self.current_size < self.max_size {
            let buffer = match PacketBuffer::new(self.buffer_size, self.next_id, timestamp) {
                Ok(b) => b,
                Err(e) => {
                    return Err(e);
                },
            };
            self.next_id = self.next_id + 1;
            self.current_size = self.current_size + 1;
            self.stats.allocations = self.stats.allocations + 1;
            self.stats.expansions = self.stats.expansions + 1;
            Ok(buffer)
        } else {
            self.stats.allocation_failures = self.stats.allocation_failures + 1;
            Err(NetworkError::InsufficientMemory)
        }
    }

    /// Takes a buffer back: keeps it when it holds at most one reference and
    /// the pool has room, otherwise stops counting it.
    pub fn deallocate(&mut self, buffer: PacketBuffer)
        requires
            old(self).wf(),
            buffer.wf(),
            old(self).stats_spec().deallocations < u64::MAX,
            !(buffer.meta().ref_count <= 1 && old(self).available().len() < old(self).max_size_spec())
                ==> old(self).current_size_spec() > 0,
        ensures
            final(self).wf(),
            final(self).buffer_size_spec() == old(self).buffer_size_spec(),
            final(self).max_size_spec() == old(self).max_size_spec(),
            final(self).next_id_spec() == old(self).next_id_spec(),
            final(self).stats_spec() == (BufferPoolStats {
                deallocations: (old(self).stats_spec().deallocations + 1) as u64,
                ..old(self).stats_spec()
            }),
            buffer.meta().ref_count <= 1 && old(self).available().len() < old(self).max_size_spec()
                ==> final(self).available() == old(self).available().push(buffer)
                && final(self).current_size_spec() == old(self).current_size_spec(),
            !(buffer.meta().ref_count <= 1 && old(self).available().len() < old(self).max_size_spec())
                ==> final(self).available() == old(self).available()
                && final(self).current_size_spec() == old(self).current_size_spec() - 1,
    {
        if buffer.metadata.ref_count <= 1 && self.available_buffers.len() < self.max_size {
            let ghost q = self.available_buffers@;
            self.available_buffers.push_back(buffer);
            assert forall|i: int| 0 <= i < self.available_buffers@.len() implies (
            #[trigger] self.available_buffers@[i]).wf() by {
                if i < q.len() {
                    assert(self.available_buffers@[i] == q[i]);
                }
            }
            self.stats.deallocations = self.stats.deallocations + 1;
        } else {
            self.current_size = self.current_size - 1;
            self.stats.deallocations = self.stats.deallocations + 1;
        }
    }

    /// The pool statistics.
    pub fn stats(&self) -> (r: &BufferPoolStats)
        ensures
            *r == self.stats_spec(),
    {
        &self.stats
    }

    /// Number of buffers ready to hand out.
    pub fn available_count(&self) -> (r: usize)
        ensures
            r == self.available().len(),
    {
        self.available_buffers.len()
    }

    /// Number of buffers the pool counts as its own.
    pub fn total_count(&self) -> (r: usize)
        ensures
            r == self.current_size_spec(),
    {
        self.current_size
    }

    /// Whether no buffer is ready to hand out.
    pub fn is_empty(&self) -> (r: bool)
        ensures
            r == (self.available().len() == 0),
    {
        self.available_buffers.len() == 0
    }

    /// Sets the maximum size and drops available buffers from the back
    /// until at most `new_max_size` remain.
    pub fn resize(&mut self, new_max_size: usize)
        requires
            old(self).wf(),
            old(self).available().len() > new_max_size ==> old(self).current_size_spec()
                >= old(self).available().len() - new_max_size,
        ensures
            final(self).wf(),
            final(self).max_size_spec() == new_max_size,
            final(self).buffer_size_spec() == old(self).buffer_size_spec(),
            final(self).next_id_spec() == old(self).next_id_spec(),
            final(self).stats_spec() == old(self).stats_spec(),
            old(self).available().len() > new_max_size ==> {
                &&& final(self).available() == old(self).available().subrange(0, new_max_size as int)
                &&& final(self).current_size_spec() == old(self).current_size_spec() - (old(self).available().len() - new_max_size)
            },
            old(self).available().len() <= new_max_size ==> {
                &&& final(self).available() == old(self).available()
                &&& final(self).current_size_spec() == old(self).current_size_spec()
            },
    {
        self.max_size = new_max_size;
        let ghost q = self.available_buffers@;
        while self.available_buffers.len() > new_max_size
            invariant
                self.max_size == new_max_size,
                self.buffer_size == old(self).buffer_size,
                self.next_id == old(self).next_id,
                self.stats == old(self).stats,
                q == old(self).available_buffers@,
                q.len() > new_max_size ==> self.current_size >= self.available_buffers@.len() - new_max_size,
                self.available_buffers@.len() >= new_max_size || self.available_buffers@ == q,
                self.available_buffers@ == q.subrange(0, self.available_buffers@.len() as int),
                self.available_buffers@.len() <= q.len(),
                self.current_size + (q.len() - self.available_buffers@.len()) == old(self).current_size,
                forall|i: int| 0 <= i < q.len() ==> (#[trigger] q[i]).wf(),
            decreases self.available_buffers@.len(),
        {
            let ghost before = self.available_buffers@;
            self.available_buffers.pop_back();
            assert(self.available_buffers@ =~= q.subrange(0, self.available_buffers@.len() as int));
            self.current_size = self.current_size - 1;
        }
        assert forall|i: int| 0 <= i < self.available_buffers@.len() implies (
        #[trigger] self.available_buffers@[i]).wf() by {
            assert(self.available_buffers@[i] == q[i]);
        }
        assert(q.len() <= new_max_size ==> self.available_buffers@ =~= q);
    }

    /// Drops every available buffer and forgets all buffers.
    pub fn clear(&mut self)
        requires
            old(self).stats_spec().clears < u64::MAX,
        ensures
            final(self).wf(),
            final(self).available() == Seq::<PacketBuffer>::empty(),
            final(self).current_size_spec() == 0,
            final(self).max_size_spec() == old(self).max_size_spec(),
            final(self).buffer_size_spec() == old(self).buffer_size_spec(),
            final(self).next_id_spec() == old(self).next_id_spec(),
            final(self).stats_spec() == (BufferPoolStats {
                clears: (old(self).stats_spec().clears + 1) as u64,
                ..old(self).stats_spec()
            }),
    {
        self.available_buffers.clear();
        self.current_size = 0;
        self.stats.clears = self.stats.clears + 1;
    }
}


/// The readable bytes of the buffers of `bufs` from index `i` on, in order.
pub open spec fn readable_from(bufs: Seq<PacketBuffer>, i: int) -> Seq<u8>
    decreases bufs.len() - i,
{
    if i < 0 || i >= bufs.len() {
        Seq::empty()
    } else {
        bufs[i].readable_spec() + readable_from(bufs, i + 1)
    }
}

/// The data (up to the data length) of the buffers of `bufs` from index
/// `i` on, in order.
pub open spec fn data_from(bufs: Seq<PacketBuffer>, i: int) -> Seq<u8>
    decreases bufs.len() - i,
{
    if i < 0 || i >= bufs.len() {
        Seq::empty()
    } else {
        bufs[i].data_spec() + data_from(bufs, i + 1)
    }
}

/// What a chain at position (`idx`, `off`) has still to read.
pub open spec fn pending_at(bufs: Seq<PacketBuffer>, idx: int, off: int) -> Seq<u8> {
    if idx < 0 || idx >= bufs.len() {
        Seq::empty()
    } else if off >= bufs[idx].readable_spec().len() {
        readable_from(bufs, idx + 1)
    } else {
        bufs[idx].readable_spec().subrange(off, bufs[idx].readable_spec().len() as int)
            + readable_from(bufs, idx + 1)
    }
}

/// A sequence of buffers read as one stream.
#[derive(Debug)]
pub struct BufferChain {
    buffers: Vec<PacketBuffer>,
    total_length: usize,
    read_position: (usize, usize),
}

impl BufferChain {
    /// The buffers of the chain.
    pub closed spec fn buffers_spec(&self) -> Seq<PacketBuffer> {
        self.buffers@
    }

    /// The recorded total length.
    pub closed spec fn total_length_spec(&self) -> nat {
        self.total_length as nat
    }

    /// The read position: buffer index and offset in its readable data.
    pub closed spec fn position(&self) -> (nat, nat) {
        (self.read_position.0 as nat, self.read_position.1 as nat)
    }

    /// What the chain has still to read.
    pub open spec fn pending(&self) -> Seq<u8> {
        pending_at(self.buffers_spec(), self.position().0 as int, self.position().1 as int)
    }

    /// Every buffer of the chain is well formed.
    pub closed spec fn wf(&self) -> bool {
        forall|i: int| 0 <= i < self.buffers@.len() ==> (#[trigger] self.buffers@[i]).wf()
    }

    /// An empty chain.
    pub fn new() -> (r: Self)
        ensures
            r.wf(),
            r.buffers_spec() == Seq::<PacketBuffer>::empty(),
            r.total_length_spec() == 0,
            r.position() == (0nat, 0nat),
    {
        Self { buffers: Vec::new(), total_length: 0, read_position: (0, 0) }
    }

    /// A chain of one buffer.
    pub fn from_buffer(buffer: PacketBuffer) -> (r: Self)
        requires
            buffer.wf(),
        ensures
            r.wf(),
            r.buffers_spec() == seq![buffer],
            r.total_length_spec() == buffer.length_spec(),
            r.position() == (0nat, 0nat),
    {
        let total_length = buffer.len();
        let mut buffers = Vec::new();
        buffers.push(buffer);
        assert(buffers@ =~= seq![buffer]);
        Self { buffers, total_length, read_position: (0, 0) }
    }

    /// Appends a buffer and adds its data length to the total.
    pub fn add_buffer(&mut self, buffer: PacketBuffer)
        requires
            old(self).wf(),
            buffer.wf(),
            old(self).total_length_spec() + buffer.length_spec() <= usize::MAX,
        ensures
            final(self).wf(),
            final(self).buffers_spec() == old(self).buffers_spec().push(buffer),
            final(self).total_length_spec() == old(self).total_length_spec() + buffer.length_spec(),
            final(self).position() == old(self).position(),
    {
        self.total_length = self.total_length + buffer.len();
        self.buffers.push(buffer);
    }

    /// The recorded total length of the data of all buffers.
    pub fn total_length(&self) -> (r: usize)
        ensures
            r == self.total_length_spec(),
    {
        self.total_length
    }

    /// Number of buffers.
    pub fn buffer_count(&self) -> (r: usize)
        ensures
            r == self.buffers_spec().len(),
    {
        self.buffers.len()
    }

    /// Whether the chain holds no buffer.
    pub fn is_empty(&self) -> (r: bool)
        ensures
            r == (self.buffers_spec().len() == 0),
    {
        self.buffers.len() == 0
    }

    /// Reading past the readable data of the current buffer moves to the
    /// start of the next one without changing what is pending.
    proof fn lemma_pending_next(bufs: Seq<PacketBuffer>, idx: int, off: int)
        requires
            0 <= idx < bufs.len(),
            off >= bufs[idx].readable_spec().len(),
        ensures
            pending_at(bufs, idx + 1, 0) == pending_at(bufs, idx, off),
    {
        if idx + 1 < bufs.len() {
            let r = bufs[idx + 1].readable_spec();
            assert(r.subrange(0, r.len() as int) =~= r);
        }
    }

    /// Copies pending bytes into `output`, following the buffers in order,
    /// and advances the read position past them.
    pub fn read(&mut self, output: &mut [u8]) -> (r: usize)
        requires
            old(self).wf(),
        ensures
            final(self).wf(),
            r == if old(output)@.len() < old(self).pending().len() {
                old(output)@.len()
            } else {
                old(self).pending().len()
            },
            final(output)@ == old(self).pending().subrange(0, r as int) + old(output)@.subrange(
                r as int,
                old(output)@.len() as int,
            ),
            final(self).pending() == old(self).pending().subrange(r as int, old(self).pending().len() as int),
            final(self).buffers_spec() == old(self).buffers_spec(),
            final(self).total_length_spec() == old(self).total_length_spec(),
    {
        let ghost p0 = self.pending();
        let ghost out0 = output@;
        let mut bytes_read: usize = 0;
        let mut output_offset: usize = 0;
        while output_offset < output.len() && self.read_position.0 < self.buffers.len()
            invariant
                self.wf(),
                self.buffers@ == old(self).buffers@,
                self.total_length == old(self).total_length,
                bytes_read == output_offset,
                output_offset <= out0.len(),
                output@.len() == out0.len(),
                p0 == output@.subrange(0, output_offset as int) + self.pending(),
                forall|k: int| output_offset <= k < out0.len() ==> output@[k] == out0[k],
            decreases self.buffers@.len() - self.read_position.0, p0.len() - output_offset,
        {
            let idx = self.read_position.0;
            let off = self.read_position.1;
            let buffer_data = self.buffers[idx].readable_data();
            if off >= buffer_data.len() {
                proof {
                    Self::lemma_pending_next(self.buffers@, idx as int, off as int);
                }
                self.read_position = (idx + 1, 0);
                continue;
            }
            let available = buffer_data.len() - off;
            let room = output.len() - output_offset;
            let to_read = if available < room { available } else { room };
            let ghost pend = self.pending();
            let ghost rest = readable_from(self.buffers@, idx + 1);
            assert(pend =~= buffer_data@.subrange(off as int, buffer_data@.len() as int) + rest);
            let out_len = output.len();
            let bd_len = buffer_data.len();
            let mut k: usize = 0;
            while k < to_read
                invariant
                    out_len == out0.len(),
                    bd_len == buffer_data@.len(),
                    k <= to_read,
                    to_read <= available,
                    available == buffer_data@.len() - off,
                    off + to_read <= buffer_data@.len(),
                    out0.len() == output@.len(),
                    output_offset + to_read <= out0.len(),
                    output@.len() == out0.len(),
                    forall|j: int| 0 <= j < output_offset ==> output@[j] == p0[j],
                    forall|j: int| output_offset <= j < output_offset + k ==> output@[j]
                        == buffer_data@[off + j - output_offset],
                    forall|j: int| output_offset + k <= j < out0.len() ==> output@[j] == out0[j],
                decreases to_read - k,
            {
                output[output_offset + k] = buffer_data[off + k];
                k = k + 1;
            }
            self.read_position = (idx, off + to_read);
            output_offset = output_offset + to_read;
            bytes_read = bytes_read + to_read;
            assert forall|j: int| 0 <= j < output_offset implies output@[j] == p0[j] by {
                if j >= output_offset - to_read {
                    assert(p0[j] == pend[j - (output_offset - to_read)]);
                }
            }
            assert(self.pending() =~= pend.subrange(to_read as int, pend.len() as int));
            assert(p0 =~= output@.subrange(0, output_offset as int) + self.pending());
        }
        assert(output_offset < output@.len() ==> self.pending() =~= Seq::<u8>::empty());
        assert(output@ =~= p0.subrange(0, bytes_read as int) + out0.subrange(
            bytes_read as int,
            out0.len() as int,
        ));
        assert(self.pending() =~= p0.subrange(bytes_read as int, p0.len() as int));
        bytes_read
    }

    /// The data of all buffers, concatenated.
    fn collect_data(&self) -> (r: Vec<u8>)
        requires
            self.wf(),
        ensures
            r@ == data_from(self.buffers_spec(), 0),
    {
        let mut data: Vec<u8> = Vec::new();
        let ghost bufs = self.buffers@;
        let mut j: usize = 0;
        assert(data_from(bufs, 0) =~= data@ + data_from(bufs, 0));
        while j < self.buffers.len()
            invariant
                self.wf(),
                bufs == self.buffers@,
                j <= bufs.len(),
                data_from(bufs, 0) == data@ + data_from(bufs, j as int),
            decreases bufs.len() - j,
        {
            let d = self.buffers[j].data();
            let ghost before = data@;
            let mut k: usize = 0;
            while k < d.len()
                invariant
                    k <= d@.len(),
                    data@ == before + d@.subrange(0, k as int),
                decreases d@.len() - k,
            {
                data.push(d[k]);
                k = k + 1;
                assert(data@ =~= before + d@.subrange(0, k as int));
            }
            assert(d@.subrange(0, d@.len() as int) =~= d@);
            assert(data_from(bufs, j as int) =~= d@ + data_from(bufs, j + 1));
            assert(data_from(bufs, 0) =~= data@ + data_from(bufs, j + 1));
            j = j + 1;
        }
        assert(data_from(bufs, j as int) =~= Seq::<u8>::empty());
        assert(data@ =~= data_from(bufs, 0));
        data
    }

    /// Copies the data of all buffers into one buffer taken from `pool`.
    /// Fails when the pool cannot hand out a buffer, or, with
    /// `BufferTooSmall`, when there is no data to write.
    pub fn flatten(&self, pool: &mut BufferPool, timestamp: u64) -> (r: Result<
        PacketBuffer,
        NetworkError,
    >)
        requires
            self.wf(),
            old(pool).wf(),
            old(pool).stats_spec().allocations < u64::MAX,
            old(pool).stats_spec().expansions < u64::MAX,
            old(pool).stats_spec().allocation_failures < u64::MAX,
            old(pool).available().len() == 0 && old(pool).current_size_spec() < old(pool).max_size_spec()
                ==> old(pool).next_id_spec() < u32::MAX,
        ensures
            final(pool).wf(),
            r is Ok ==> old(pool).can_allocate() && data_from(self.buffers_spec(), 0).len() > 0,
            old(pool).can_allocate() && data_from(self.buffers_spec(), 0).len() > 0
                && old(pool).next_capacity() > 0 ==> r is Ok,
            !old(pool).can_allocate() ==> r is Err,
            old(pool).can_allocate() && data_from(self.buffers_spec(), 0).len() == 0 ==> r
                == Err::<PacketBuffer, NetworkError>(NetworkError::BufferTooSmall),
            r matches Ok(b) ==> {
                let all = data_from(self.buffers_spec(), 0);
                let n = if all.len() < b.storage().len() {
                    all.len()
                } else {
                    b.storage().len()
                };
                &&& b.wf()
                &&& b.data_spec() == all.subrange(0, n as int)
                &&& b.read_pos_spec() == 0
                &&& b.write_pos_spec() == n
            },
    {
        let mut flattened = pool.allocate(timestamp)?;
        let data = self.collect_data();
        let ghost before = flattened;
        let w = flattened.write(data.as_slice());
        match w {
            Ok(n) => {
                assert(flattened.data_spec() =~= data@.subrange(0, n as int));
                Ok(flattened)
            },
            Err(e) => Err(e),
        }
    }

    /// Drops all buffers and rewinds.
    pub fn clear(&mut self)
        ensures
            final(self).wf(),
            final(self).buffers_spec() == Seq::<PacketBuffer>::empty(),
            final(self).total_length_spec() == 0,
            final(self).position() == (0nat, 0nat),
    {
        self.buffers.clear();
        self.total_length = 0;
        self.read_position = (0, 0);
    }

    /// The buffer at `index`, if any.
    pub fn get_buffer(&self, index: usize) -> (r: Option<&PacketBuffer>)
        ensures
            (index < self.buffers_spec().len()) <==> r is Some,
            r matches Some(b) ==> *b == self.buffers_spec()[index as int],
    {
        if index < self.buffers.len() {
            Some(&self.buffers[index])
        } else {
            None
        }
    }

    /// The buffer at `index`, if any, to be changed in place; the chain's
    /// other buffers and its totals stay as they were.
    pub fn get_buffer_mut(&mut self, index: usize) -> (r: Option<&mut PacketBuffer>)
        ensures
            (index < old(self).buffers_spec().len()) <==> r is Some,
            r is None ==> *final(self) == *old(self),
            r matches Some(b) ==> *b == old(self).buffers_spec()[index as int]
                && final(self).buffers_spec() == old(self).buffers_spec().update(index as int, *final(b))
                && final(self).total_length_spec() == old(self).total_length_spec()
                && final(self).position() == old(self).position(),
    {
        if index < self.buffers.len() {
            Some(&mut self.buffers[index])
        } else {
            None
        }
    }
}

impl Default for BufferChain {
    fn default() -> (r: Self)
        ensures
            r.wf(),
            r.buffers_spec() == Seq::<PacketBuffer>::empty(),
            r.total_length_spec() == 0,
            r.position() == (0nat, 0nat),
    {
        Self::new()
    }
}


/// Buffer manager statistics.
#[derive(Debug, Clone)]
pub struct BufferManagerStats {
    pub allocation_requests: u64,
    pub small_allocations: u64,
    pub medium_allocations: u64,
    pub large_allocations: u64,
    pub deallocations: u64,
    pub allocation_failures: u64,
}

impl BufferManagerStats {
    /// All counters at zero.
    pub open spec fn zero() -> BufferManagerStats {
        BufferManagerStats {
            allocation_requests: 0,
            small_allocations: 0,
            medium_allocations: 0,
            large_allocations: 0,
            deallocations: 0,
            allocation_failures: 0,
        }
    }

    /// Whether every counter can still be incremented.
    pub open spec fn below_max(self) -> bool {
        &&& self.allocation_requests < u64::MAX
        &&& self.small_allocations < u64::MAX
        &&& self.medium_allocations < u64::MAX
        &&& self.large_allocations < u64::MAX
        &&& self.deallocations < u64::MAX
        &&& self.allocation_failures < u64::MAX
    }
}

impl Default for BufferManagerStats {
    fn default() -> (r: Self)
        ensures
            r == BufferManagerStats::zero(),
    {
        BufferManagerStats {
            allocation_requests: 0,
            small_allocations: 0,
            medium_allocations: 0,
            large_allocations: 0,
            deallocations: 0,
            allocation_failures: 0,
        }
    }
}

/// Size classes of the buffer manager.
pub open spec fn size_class(size: nat) -> int {
    if size <= 256 {
        0
    } else if size <= DEFAULT_BUFFER_SIZE {
        1
    } else {
        2
    }
}

/// Three pools of small, medium and large buffers.
pub struct BufferManager {
    small_pool: BufferPool,
    medium_pool: BufferPool,
    large_pool: BufferPool,
    stats: BufferManagerStats,
}

impl BufferManager {
    /// The pool of size class `c` (0 small, 1 medium, 2 large).
    pub closed spec fn pool(&self, c: int) -> BufferPool {
        if c == 0 {
            self.small_pool
        } else if c == 1 {
            self.medium_pool
        } else {
            self.large_pool
        }
    }

    /// The statistics.
    pub closed spec fn stats_spec(&self) -> BufferManagerStats {
        self.stats
    }

    /// Whether a pool can serve one more allocation without overflow.
    pub open spec fn pool_ready(p: BufferPool) -> bool {
        &&& p.wf()
        &&& p.stats_spec().allocations < u64::MAX
        &&& p.stats_spec().expansions < u64::MAX
        &&& p.stats_spec().allocation_failures < u64::MAX
        &&& p.stats_spec().deallocations < u64::MAX
        &&& (p.available().len() == 0 && p.current_size_spec() < p.max_size_spec() ==> p.next_id_spec()
            < u32::MAX)
    }

    /// Pools of 64 buffers of 256 bytes, 256 of 2048 bytes and 32 of 8192
    /// bytes.
    pub fn new() -> (r: Self)
        ensures
            r.stats_spec() == BufferManagerStats::zero(),
            r.pool(0).buffer_size_spec() == 256 && r.pool(0).available().len() == 64,
            r.pool(1).buffer_size_spec() == DEFAULT_BUFFER_SIZE && r.pool(1).available().len()
                == DEFAULT_POOL_SIZE,
            r.pool(2).buffer_size_spec() == 8192 && r.pool(2).available().len() == 32,
            forall|c: int| 0 <= c < 3 ==> Self::pool_ready(#[trigger] r.pool(c)),
    {
        let r = Self {
            small_pool: BufferPool::new(256, 64),
            medium_pool: BufferPool::new(DEFAULT_BUFFER_SIZE, DEFAULT_POOL_SIZE),
            large_pool: BufferPool::new(8192, 32),
            stats: BufferManagerStats::default(),
        };
        assert(r.pool(0) == r.small_pool && r.pool(1) == r.medium_pool && r.pool(2) == r.large_pool);
        r
    }

    /// Allocates from the pool of the size class of `size`, counting the
    /// request and its outcome.
    pub fn allocate(&mut self, size: usize, timestamp: u64) -> (r: Result<PacketBuffer, NetworkError>)
        requires
            old(self).stats_spec().below_max(),
            Self::pool_ready(old(self).pool(size_class(size as nat))),
        ensures
            r is Ok <==> old(self).pool(size_class(size as nat)).can_allocate(),
            r matches Ok(b) ==> b.wf(),
            pool_allocated(
                old(self).pool(size_class(size as nat)),
                final(self).pool(size_class(size as nat)),
                timestamp,
                r,
            ),
            forall|c: int| c != size_class(size as nat) && 0 <= c < 3 ==> #[trigger] final(self).pool(c)
                == old(self).pool(c),
            final(self).pool(size_class(size as nat)).wf(),
            final(self).stats_spec().allocation_requests == old(self).stats_spec().allocation_requests + 1,
            r is Err ==> final(self).stats_spec() == (BufferManagerStats {
                allocation_requests: (old(self).stats_spec().allocation_requests + 1) as u64,
                allocation_failures: (old(self).stats_spec().allocation_failures + 1) as u64,
                ..old(self).stats_spec()
            }),
            r is Ok && size_class(size as nat) == 0 ==> final(self).stats_spec() == (BufferManagerStats {
                allocation_requests: (old(self).stats_spec().allocation_requests + 1) as u64,
                small_allocations: (old(self).stats_spec().small_allocations + 1) as u64,
                ..old(self).stats_spec()
            }),
            r is Ok && size_class(size as nat) == 1 ==> final(self).stats_spec() == (BufferManagerStats {
                allocation_requests: (old(self).stats_spec().allocation_requests + 1) as u64,
                medium_allocations: (old(self).stats_spec().medium_allocations + 1) as u64,
                ..old(self).stats_spec()
            }),
            r is Ok && size_class(size as nat) == 2 ==> final(self).stats_spec() == (BufferManagerStats {
                allocation_requests: (old(self).stats_spec().allocation_requests + 1) as u64,
                large_allocations: (old(self).stats_spec().large_allocations + 1) as u64,
                ..old(self).stats_spec()
            }),
    {
        self.stats.allocation_requests = self.stats.allocation_requests + 1;
        if size <= 256 {
            match self.small_pool.allocate(timestamp) {
                Ok(buffer) => {
                    self.stats.small_allocations = self.stats.small_allocations + 1;
                    Ok(buffer)
                },
                Err(e) => {
                    self.stats.allocation_failures = self.stats.allocation_failures + 1;
                    Err(e)
                },
            }
        } else if size <= DEFAULT_BUFFER_SIZE {
            match self.medium_pool.allocate(timestamp) {
                Ok(buffer) => {
                    self.stats.medium_allocations = self.stats.medium_allocations + 1;
                    Ok(buffer)
                },
                Err(e) => {
                    self.stats.allocation_failures = self.stats.allocation_failures + 1;
                    Err(e)
                },
            }
        } else {
            match self.large_pool.allocate(timestamp) {
                Ok(buffer) => {
                    self.stats.large_allocations = self.stats.large_allocations + 1;
                    Ok(buffer)
                },
                Err(e) => {
                    self.stats.allocation_failures = self.stats.allocation_failures + 1;
                    Err(e)
                },
            }
        }
    }

    /// Returns a buffer to the pool of the size class of its capacity.
    pub fn deallocate(&mut self, buffer: PacketBuffer)
        requires
            old(self).stats_spec().below_max(),
            buffer.wf(),
            Self::pool_ready(old(self).pool(size_class(buffer.storage().len()))),
            ({
                let p = old(self).pool(size_class(buffer.storage().len()));
                !(buffer.meta().ref_count <= 1 && p.available().len() < p.max_size_spec())
                    ==> p.current_size_spec() > 0
            }),
        ensures
            final(self).stats_spec() == (BufferManagerStats {
                deallocations: (old(self).stats_spec().deallocations + 1) as u64,
                ..old(self).stats_spec()
            }),
            forall|c: int| c != size_class(buffer.storage().len()) && 0 <= c < 3 ==> #[trigger] final(self).pool(c) == old(self).pool(c),
            ({
                let c = size_class(buffer.storage().len());
                let p = old(self).pool(c);
                let q = final(self).pool(c);
                &&& q.wf()
                &&& buffer.meta().ref_count <= 1 && p.available().len() < p.max_size_spec()
                    ==> q.available() == p.available().push(buffer)
                &&& !(buffer.meta().ref_count <= 1 && p.available().len() < p.max_size_spec())
                    ==> q.available() == p.available() && q.current_size_spec() == p.current_size_spec() - 1
            }),
    {
        let size = buffer.capacity();
        if size <= 256 {
            self.small_pool.deallocate(buffer);
        } else if size <= DEFAULT_BUFFER_SIZE {
            self.medium_pool.deallocate(buffer);
        } else {
            self.large_pool.deallocate(buffer);
        }
        self.stats.deallocations = self.stats.deallocations + 1;
    }

    /// A copy of the statistics.
    pub fn get_stats(&self) -> (r: BufferManagerStats)
        ensures
            r == self.stats_spec(),
    {
        BufferManagerStats {
            allocation_requests: self.stats.allocation_requests,
            small_allocations: self.stats.small_allocations,
            medium_allocations: self.stats.medium_allocations,
            large_allocations: self.stats.large_allocations,
            deallocations: self.stats.deallocations,
            allocation_failures: self.stats.allocation_failures,
        }
    }

    /// Available and total counts of the small, medium and large pools.
    pub fn get_pool_info(&self) -> (r: (usize, usize, usize, usize, usize, usize))
        ensures
            r.0 == self.pool(0).available().len() && r.1 == self.pool(0).current_size_spec(),
            r.2 == self.pool(1).available().len() && r.3 == self.pool(1).current_size_spec(),
            r.4 == self.pool(2).available().len() && r.5 == self.pool(2).current_size_spec(),
    {
        (
            self.small_pool.available_count(),
            self.small_pool.total_count(),
            self.medium_pool.available_count(),
            self.medium_pool.total_count(),
            self.large_pool.available_count(),
            self.large_pool.total_count(),
        )
    }
}

/// A freshly created buffer manager.
pub fn init_buffer_manager() -> (r: BufferManager)
    ensures
        r.stats_spec() == BufferManagerStats::zero(),
        forall|c: int| 0 <= c < 3 ==> BufferManager::pool_ready(#[trigger] r.pool(c)),
{
    BufferManager::new()
}

/// Allocates through `manager`; fails with `InsufficientMemory` when there
/// is no manager.
pub fn allocate_buffer(manager: &mut Option<BufferManager>, size: usize, timestamp: u64) -> (r: Result<
    PacketBuffer,
    NetworkError,
>)
    requires
        *old(manager) matches Some(m) ==> m.stats_spec().below_max() && BufferManager::pool_ready(
            m.pool(size_class(size as nat)),
        ),
    ensures
        *old(manager) is None ==> r == Err::<PacketBuffer, NetworkError>(NetworkError::InsufficientMemory),
        *old(manager) matches Some(m) ==> (r is Ok <==> m.pool(size_class(size as nat)).can_allocate()),
        *final(manager) is Some <==> *old(manager) is Some,
{
    match manager {
        Some(m) => m.allocate(size, timestamp),
        None => Err(NetworkError::InsufficientMemory),
    }
}


/// Returns a buffer through `manager`; without a manager the buffer is
/// dropped.
pub fn deallocate_buffer(manager: &mut Option<BufferManager>, buffer: PacketBuffer)
    requires
        *old(manager) matches Some(m) ==> {
            &&& m.stats_spec().below_max()
            &&& buffer.wf()
            &&& BufferManager::pool_ready(m.pool(size_class(buffer.storage().len())))
            &&& ({
                let p = m.pool(size_class(buffer.storage().len()));
                !(buffer.meta().ref_count <= 1 && p.available().len() < p.max_size_spec())
                    ==> p.current_size_spec() > 0
            })
        },
    ensures
        *old(manager) is None ==> *final(manager) is None,
        *old(manager) matches Some(m) ==> *final(manager) matches Some(n)
            && n.stats_spec().deallocations == m.stats_spec().deallocations + 1,
{
    match manager {
        Some(m) => m.deallocate(buffer),
        None => {},
    }
}

} // verus!
