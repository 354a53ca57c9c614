//! What a split virtqueue keeps in the memory that it shares with a device, and
//! the buffers that travel through it.

use vstd::prelude::*;

verus! {

/// Alignment of the descriptor table in physical memory.
pub const DESCRIPTOR_ALIGNMENT: usize = 16;

/// Alignment of the available ring in physical memory.
pub const AVAILABLE_RING_ALIGNMENT: usize = 2;

/// Alignment of the used ring in physical memory.
pub const USED_RING_ALIGNMENT: usize = 4;

/// The number of elements that a queue has room for.
pub const QUEUE_MAX_ELEMENTS: usize = 2;

/// Descriptor flag: the chain goes on in the descriptor at `next`.
pub const DESCRIPTOR_NEXT: u16 = 1;

/// Descriptor flag: the device writes to the buffer, and does not read it.
pub const DESCRIPTOR_WRITE_ONLY: u16 = 2;

/// Descriptor flag: the buffer holds further descriptors.
pub const DESCRIPTOR_INDIRECT: u16 = 4;

/// Available ring flag: the driver wants no interrupts.
pub const AVAILABLE_RING_NO_INTERRUPT: u16 = 1;

/// Used ring flag: the device wants no notifications.
pub const USED_RING_NO_NOTIFY: u16 = 1;

/// One entry of the descriptor table.
#[derive(Debug, Clone, Copy, PartialEq, Eq, Structural)]
pub struct VirtQueueDescriptor {
    /// Guest physical address of the shared buffer
    pub addr: u64,
    /// Length of the shared buffer
    pub len: u32,
    /// Descriptor flags
    pub flags: u16,
    /// Index of the next descriptor, if two buffers are chained
    pub next: u16,
}

impl VirtQueueDescriptor {
    /// The descriptor of a slot that was given back.
    pub open spec fn zero() -> VirtQueueDescriptor {
        VirtQueueDescriptor { addr: 0, len: 0, flags: 0, next: 0 }
    }

    /// The descriptor is followed by another one of the same chain.
    pub open spec fn has_next(self) -> bool {
        self.flags & DESCRIPTOR_NEXT != 0
    }

    /// The device writes to the buffer.
    pub open spec fn write_only(self) -> bool {
        self.flags & DESCRIPTOR_WRITE_ONLY != 0
    }
}

impl Default for VirtQueueDescriptor {
    fn default() -> (descriptor: VirtQueueDescriptor)
        ensures
            descriptor == VirtQueueDescriptor::zero(),
    {
        VirtQueueDescriptor { addr: 0, len: 0, flags: 0, next: 0 }
    }
}

/// The descriptor table.
pub struct VirtQueueDescriptors(pub [VirtQueueDescriptor; QUEUE_MAX_ELEMENTS]);

impl Default for VirtQueueDescriptors {
    fn default() -> (descriptors: VirtQueueDescriptors)
        ensures
            descriptors.0@ == Seq::new(QUEUE_MAX_ELEMENTS as nat, |i: int| VirtQueueDescriptor::zero()),
    {
        VirtQueueDescriptors([VirtQueueDescriptor::default(), VirtQueueDescriptor::default()])
    }
}

/// One position of the available ring: the index of the first descriptor of a
/// chain.
#[derive(Debug, Clone, Copy, PartialEq, Eq, Structural)]
pub struct VirtQueueAvailableElement(pub u16);

impl Default for VirtQueueAvailableElement {
    fn default() -> (element: VirtQueueAvailableElement)
        ensures
            element.0 == 0,
    {
        VirtQueueAvailableElement(0)
    }
}

/// The ring in which the driver makes chains available to the device.
pub struct VirtQueueAvailableRing {
    /// Available ring flags
    pub flags: u16,
    /// Incrementing index (where the driver would put the next descriptor entry
    /// in the ring, modulo the queue size)
    pub idx: u16,
    /// Ring containing the shared buffers (indices of descriptors)
    pub ring: [VirtQueueAvailableElement; QUEUE_MAX_ELEMENTS],
    /// Used event, for event suppression
    pub used_event: u16,
}

impl Default for VirtQueueAvailableRing {
    fn default() -> (available: VirtQueueAvailableRing)
        ensures
            available.flags == 0,
            available.idx == 0,
            available.ring@ == Seq::new(
                QUEUE_MAX_ELEMENTS as nat,
                |i: int| VirtQueueAvailableElement(0),
            ),
            available.used_event == 0,
    {
        VirtQueueAvailableRing {
            flags: 0,
            idx: 0,
            ring: [VirtQueueAvailableElement::default(), VirtQueueAvailableElement::default()],
            used_event: 0,
        }
    }
}

/// One position of the used ring.
#[derive(Debug, Clone, Copy, PartialEq, Eq, Structural)]
pub struct VirtQueueUsedElement {
    /// Index of the first descriptor of the used chain
    pub id: u32,
    /// Total length of what was written to the chain
    pub len: u32,
}

impl Default for VirtQueueUsedElement {
    fn default() -> (element: VirtQueueUsedElement)
        ensures
            element.id == 0,
            element.len == 0,
    {
        VirtQueueUsedElement { id: 0, len: 0 }
    }
}

/// The ring in which the device returns chains to the driver.
pub struct VirtQueueUsedRing {
    /// Used ring flags
    pub flags: u16,
    /// Incrementing index (where the device would put the next descriptor entry
    /// in the ring, modulo the queue size)
    pub idx: u16,
    /// Ring containing the used buffers (indices of descriptors)
    pub ring: [VirtQueueUsedElement; QUEUE_MAX_ELEMENTS],
    /// Available event, for event suppression
    pub avail_event: u16,
}

impl Default for VirtQueueUsedRing {
    fn default() -> (used: VirtQueueUsedRing)
        ensures
            used.flags == 0,
            used.idx == 0,
            used.ring@ == Seq::new(
                QUEUE_MAX_ELEMENTS as nat,
                |i: int| VirtQueueUsedElement { id: 0, len: 0 },
            ),
            used.avail_event == 0,
    {
        VirtQueueUsedRing {
            flags: 0,
            idx: 0,
            ring: [VirtQueueUsedElement::default(), VirtQueueUsedElement::default()],
            avail_event: 0,
        }
    }
}

/// A slice of memory together with the physical address at which a device
/// finds it.
///
/// A contract that speaks of `bytes` speaks of what the driver has in them.
/// What a device writes to the memory while the slice is lent to it is outside
/// of every contract.
pub struct SharedSlice<'b> {
    pub bytes: &'b mut [u8],
    pub addr: u64,
}

/// A buffer of a chain: the first `len` bytes of a slice are shared with the
/// device, which either writes or reads them.
pub struct VirtQueueBuffer<'b> {
    pub buf: SharedSlice<'b>,
    pub len: usize,
    pub device_writable: bool,
}

impl<'b> VirtQueueBuffer<'b> {
    /// The buffer can be described to a device: the shared part lies within the
    /// slice, and its length as stored in a descriptor is not zero.
    pub open spec fn describable(self) -> bool {
        &&& self.len <= self.buf.bytes@.len()
        &&& self.len as u32 > 0
    }

    /// Whether the buffer can be described to a device.
    pub fn is_describable(&self) -> (describable: bool)
        ensures
            describable == self.describable(),
    {
        self.len <= self.buf.bytes.len() && #[verifier::truncate] (self.len as u32) > 0
    }
}

} // verus!
