use std::cell::RefCell;
use tock_virtio::error::ErrorCode;
use tock_virtio::virtio::queues::layout::{
    SharedSlice, VirtQueueAvailableElement, VirtQueueAvailableRing, VirtQueueBuffer,
    VirtQueueDescriptor, VirtQueueDescriptors, VirtQueueUsedElement, VirtQueueUsedRing,
    AVAILABLE_RING_ALIGNMENT, DESCRIPTOR_ALIGNMENT, QUEUE_MAX_ELEMENTS, USED_RING_ALIGNMENT,
};
use tock_virtio::virtio::queues::split_queue::{SplitVirtQueue, SplitVirtQueueClient, UsedChain};
use tock_virtio::virtio::{
    VirtIODeviceType, VirtIODriver, VirtIOTransport, VirtQueue, VirtQueueAddresses,
};

type Queues = &'static mut [&'static mut dyn VirtQueue<'static, 'static>];

#[derive(Default)]
struct Transport {
    rings: RefCell<Vec<u32>>,
    queues: RefCell<Option<Queues>>,
}

impl Transport {
    /// Has every queue pass on what its device returned.
    fn interrupt(&self) {
        for queue in self.queues.borrow_mut().as_mut().unwrap().iter_mut() {
            while let Some(mut chain) = queue.used_interrupt() {
                chain.client.unwrap().buffer_chain_ready(
                    chain.queue_number,
                    &mut chain.buffer_chain,
                    chain.bytes_used,
                );
            }
        }
    }
}

impl VirtIOTransport for Transport {
    fn query(&self) -> Option<VirtIODeviceType> {
        Some(VirtIODeviceType::NetworkCard)
    }

    fn initialize(&self, driver: &dyn VirtIODriver, queues: Queues) -> VirtIODeviceType {
        for (i, queue) in queues.iter_mut().enumerate() {
            queue.negotiate_queue_size(256);
            queue.initialize(i as u32 + 10);
        }
        *self.queues.borrow_mut() = Some(queues);
        driver.device_type()
    }

    fn queue_notify(&self, queue_id: u32) {
        self.rings.borrow_mut().push(queue_id);
    }
}

/// A queue that is shared between its owner and a transport.
struct Handle(&'static RefCell<SplitVirtQueue<'static, 'static>>);

impl VirtQueue<'static, 'static> for Handle {
    fn physical_addresses(&self) -> VirtQueueAddresses {
        self.0.borrow().physical_addresses()
    }

    fn negotiate_queue_size(&mut self, device_max_elements: usize) -> usize {
        self.0.borrow_mut().negotiate_queue_size(device_max_elements)
    }

    fn initialize(&mut self, queue_number: u32) {
        self.0.borrow_mut().initialize(queue_number)
    }

    fn used_interrupt(&mut self) -> Option<UsedChain<'static, 'static>> {
        self.0.borrow_mut().used_interrupt()
    }

    fn negotiated_queue_size(&self) -> usize {
        self.0.borrow().negotiated_queue_size()
    }
}

fn shared() -> &'static RefCell<SplitVirtQueue<'static, 'static>> {
    Box::leak(Box::new(RefCell::new(fresh())))
}

fn handles(queues: Vec<&'static RefCell<SplitVirtQueue<'static, 'static>>>) -> Queues {
    let mut handles: Vec<&'static mut dyn VirtQueue<'static, 'static>> = Vec::new();
    for queue in queues {
        handles.push(Box::leak(Box::new(Handle(queue))));
    }
    Box::leak(handles.into_boxed_slice())
}

struct Rng;

impl VirtIODriver for Rng {
    fn negotiate_features(&self, _offered_features: u64) -> u64 {
        0
    }

    fn device_type(&self) -> VirtIODeviceType {
        VirtIODeviceType::EntropySource
    }
}

#[derive(Default)]
struct Client {
    ready: RefCell<Vec<(u32, u64, usize)>>,
}

impl<'b> SplitVirtQueueClient<'b> for Client {
    fn buffer_chain_ready(
        &self,
        queue_number: u32,
        buffer_chain: &mut [Option<VirtQueueBuffer<'b>>],
        bytes_used: usize,
    ) {
        let head = buffer_chain[0].take().unwrap();
        self.ready.borrow_mut().push((queue_number, head.buf.addr, bytes_used));
    }
}

const ADDRESSES: VirtQueueAddresses = VirtQueueAddresses {
    descriptor_area: 0x8000_0010,
    driver_area: 0x8000_0102,
    device_area: 0x8000_0204,
};

fn fresh() -> SplitVirtQueue<'static, 'static> {
    SplitVirtQueue::new(
        VirtQueueDescriptors::default(),
        VirtQueueAvailableRing::default(),
        VirtQueueUsedRing::default(),
        ADDRESSES,
    )
}

fn running(number: u32) -> (SplitVirtQueue<'static, 'static>, &'static Transport) {
    let transport: &'static Transport = Box::leak(Box::new(Transport::default()));
    let mut queue = fresh();
    assert!(!queue.has_transport());
    queue.set_transport(transport);
    queue.negotiate_queue_size(8);
    queue.initialize(number);
    (queue, transport)
}

fn slice(len: usize, addr: u64) -> SharedSlice<'static> {
    SharedSlice { bytes: Box::leak(vec![0u8; len].into_boxed_slice()), addr }
}

fn buffer(len: usize, addr: u64, device_writable: bool) -> VirtQueueBuffer<'static> {
    VirtQueueBuffer { buf: slice(len, addr), len, device_writable }
}

fn used(idx: u16, first: (u32, u32), second: (u32, u32)) -> VirtQueueUsedRing {
    VirtQueueUsedRing {
        flags: 0,
        idx,
        ring: [
            VirtQueueUsedElement { id: first.0, len: first.1 },
            VirtQueueUsedElement { id: second.0, len: second.1 },
        ],
        avail_event: 0,
    }
}

#[test]
fn layout_constants() {
    assert_eq!(DESCRIPTOR_ALIGNMENT, 16);
    assert_eq!(AVAILABLE_RING_ALIGNMENT, 2);
    assert_eq!(USED_RING_ALIGNMENT, 4);
    assert_eq!(QUEUE_MAX_ELEMENTS, 2);
}

#[test]
fn memory_defaults_to_zero() {
    let zero = VirtQueueDescriptor { addr: 0, len: 0, flags: 0, next: 0 };
    assert_eq!(VirtQueueDescriptor::default(), zero);
    assert_eq!(VirtQueueDescriptors::default().0, [zero, zero]);
    let available = VirtQueueAvailableRing::default();
    assert_eq!((available.flags, available.idx, available.used_event), (0, 0, 0));
    assert_eq!(available.ring, [VirtQueueAvailableElement(0), VirtQueueAvailableElement(0)]);
    assert_eq!(VirtQueueAvailableElement::default(), VirtQueueAvailableElement(0));
    let used = VirtQueueUsedRing::default();
    assert_eq!((used.flags, used.idx, used.avail_event), (0, 0, 0));
    assert_eq!(used.ring[1], VirtQueueUsedElement { id: 0, len: 0 });
    assert_eq!(VirtQueueUsedElement::default(), VirtQueueUsedElement { id: 0, len: 0 });
}

#[test]
fn queue_size_is_the_smaller_one() {
    for (offered, settled) in [(0usize, 0usize), (1, 1), (2, 2), (3, 2), (256, 2)] {
        let mut queue = fresh();
        assert!(!queue.is_initialized());
        assert_eq!(queue.negotiate_queue_size(offered), settled);
        queue.initialize(7);
        assert!(queue.is_initialized());
        assert_eq!(queue.negotiated_queue_size(), settled);
        assert_eq!(queue.free_descriptor_count(), settled);
        assert_eq!(queue.queue_number(), 7);
    }
}

#[test]
fn queue_keeps_its_addresses() {
    assert_eq!(fresh().physical_addresses(), ADDRESSES);
}

#[test]
fn providing_a_chain_writes_it_out() {
    let (mut queue, transport) = running(3);
    assert!(queue.has_transport());
    let mut chain = [Some(buffer(12, 0x1000, false)), Some(buffer(64, 0x2000, true))];
    let notification = queue.provide_buffer_chain(&mut chain).ok().unwrap();
    assert_eq!(notification.queue_id, 3);
    notification.transport.queue_notify(notification.queue_id);
    assert_eq!(*transport.rings.borrow(), vec![3]);
    assert!(chain[0].is_none() && chain[1].is_none());
    assert_eq!(
        queue.descriptors().0,
        [
            VirtQueueDescriptor { addr: 0x1000, len: 12, flags: 1, next: 1 },
            VirtQueueDescriptor { addr: 0x2000, len: 64, flags: 2, next: 0 },
        ]
    );
    assert_eq!(queue.available_ring().idx, 1);
    assert_eq!(queue.available_ring().ring[0], VirtQueueAvailableElement(0));
    assert_eq!(queue.free_descriptor_count(), 0);
}

#[test]
fn a_chained_buffer_keeps_its_direction() {
    let (mut queue, _) = running(0);
    let mut chain = [Some(buffer(12, 0x1000, true)), Some(buffer(64, 0x2000, true))];
    assert!(queue.provide_buffer_chain(&mut chain).is_ok());
    assert_eq!(queue.descriptors().0[0].flags, 3);
    assert_eq!(queue.descriptors().0[1].flags, 2);
}

#[test]
fn a_chain_ends_at_the_first_gap() {
    let (mut queue, _) = running(0);
    let mut chain = [Some(buffer(8, 0x1000, false)), None, Some(buffer(4, 0x3000, false))];
    assert!(queue.provide_buffer_chain(&mut chain).is_ok());
    assert!(chain[0].is_none());
    assert_eq!(chain[2].as_ref().unwrap().len, 4);
    assert_eq!(queue.free_descriptor_count(), 1);
    assert_eq!(queue.descriptors().0[0].flags, 0);
}

#[test]
fn a_chain_that_does_not_fit_is_left_alone() {
    let (mut queue, _) = running(0);
    let mut chain = [
        Some(buffer(1, 0x1000, false)),
        Some(buffer(2, 0x2000, false)),
        Some(buffer(3, 0x3000, false)),
    ];
    assert_eq!(queue.provide_buffer_chain(&mut chain).err(), Some(ErrorCode::NOMEM));
    assert_eq!(chain[0].as_ref().unwrap().len, 1);
    assert_eq!(chain[1].as_ref().unwrap().len, 2);
    assert_eq!(chain[2].as_ref().unwrap().len, 3);
    assert_eq!(queue.free_descriptor_count(), 2);
    assert_eq!(queue.available_ring().idx, 0);
}

#[test]
fn chains_are_taken_until_the_table_is_full() {
    let (mut queue, _) = running(0);
    for addr in [0x1000, 0x2000] {
        let mut chain = [Some(buffer(1, addr, false))];
        assert!(queue.provide_buffer_chain(&mut chain).is_ok());
    }
    let mut chain = [Some(buffer(1, 0x3000, false))];
    assert_eq!(queue.provide_buffer_chain(&mut chain).err(), Some(ErrorCode::NOMEM));
    assert_eq!(queue.available_ring().idx, 2);
}

#[test]
fn a_negotiated_size_limits_the_table() {
    let transport: &'static Transport = Box::leak(Box::new(Transport::default()));
    let mut queue = fresh();
    queue.set_transport(transport);
    queue.negotiate_queue_size(1);
    queue.initialize(0);
    let mut two = [Some(buffer(1, 0x1000, false)), Some(buffer(2, 0x2000, false))];
    assert_eq!(queue.provide_buffer_chain(&mut two).err(), Some(ErrorCode::NOMEM));
    let mut one = [Some(buffer(1, 0x1000, false))];
    assert!(queue.provide_buffer_chain(&mut one).is_ok());
    assert_eq!(queue.free_descriptor_count(), 0);
}

#[test]
fn a_returned_chain_is_what_was_provided() {
    let (mut queue, _) = running(0);
    let first = slice(12, 0x1000);
    let second = slice(100, 0x2000);
    let (first_at, second_at) = (first.bytes.as_ptr(), second.bytes.as_ptr());
    let mut chain = [
        Some(VirtQueueBuffer { buf: first, len: 12, device_writable: false }),
        Some(VirtQueueBuffer { buf: second, len: 60, device_writable: true }),
    ];
    assert!(queue.provide_buffer_chain(&mut chain).is_ok());
    assert_eq!(queue.used_descriptor_chains_count(), 0);
    assert!(queue.pop_used_descriptor_chain().is_none());

    queue.load_used_ring(used(1, (0, 33), (0, 0)));
    assert_eq!(queue.used_descriptor_chains_count(), 1);
    assert!(queue.can_pop_used_descriptor_chain());
    let (back, bytes_used) = queue.pop_used_descriptor_chain().unwrap();
    assert_eq!(bytes_used, 33);
    let [back0, back1] = back;
    let (back0, back1) = (back0.unwrap(), back1.unwrap());
    assert_eq!((back0.buf.addr, back0.len, back0.device_writable), (0x1000, 12, false));
    assert_eq!((back1.buf.addr, back1.len, back1.device_writable), (0x2000, 60, true));
    assert_eq!(back0.buf.bytes.as_ptr(), first_at);
    assert_eq!(back1.buf.bytes.as_ptr(), second_at);
    assert_eq!(back1.buf.bytes.len(), 100);

    assert_eq!(queue.free_descriptor_count(), 2);
    assert_eq!(queue.descriptors().0, VirtQueueDescriptors::default().0);
    assert_eq!(queue.used_descriptor_chains_count(), 0);
    assert!(queue.pop_used_descriptor_chain().is_none());
}

#[test]
fn chains_come_back_in_any_order() {
    let (mut queue, _) = running(9);
    let mut a = [Some(buffer(10, 0xa000, false))];
    let mut b = [Some(buffer(20, 0xb000, false))];
    assert!(queue.provide_buffer_chain(&mut a).is_ok());
    assert!(queue.provide_buffer_chain(&mut b).is_ok());
    assert_eq!(queue.available_ring().idx, 2);
    assert_eq!(
        queue.available_ring().ring,
        [VirtQueueAvailableElement(0), VirtQueueAvailableElement(1)]
    );
    queue.load_used_ring(used(2, (1, 5), (0, 6)));
    let (back, bytes_used) = queue.pop_used_descriptor_chain().unwrap();
    assert_eq!(bytes_used, 5);
    assert_eq!(back[0].as_ref().unwrap().buf.addr, 0xb000);
    assert!(back[1].is_none());
    assert_eq!(queue.free_descriptor_count(), 1);
    // The other chain was left as it was
    assert_eq!(queue.descriptors().0[0].addr, 0xa000);
    let (back, bytes_used) = queue.pop_used_descriptor_chain().unwrap();
    assert_eq!(bytes_used, 6);
    assert_eq!(back[0].as_ref().unwrap().buf.addr, 0xa000);
    assert_eq!(queue.free_descriptor_count(), 2);
}

#[test]
fn indices_wrap_around() {
    let (mut queue, _) = running(0);
    for round in 0..65540u32 {
        let mut chain = [Some(buffer(1, 0x1000, false))];
        assert!(queue.provide_buffer_chain(&mut chain).is_ok());
        let idx = (round + 1) as u16;
        assert_eq!(queue.available_ring().idx, idx);
        queue.load_used_ring(used(idx, (0, round), (0, round)));
        assert!(queue.can_pop_used_descriptor_chain());
        let (_, bytes_used) = queue.pop_used_descriptor_chain().unwrap();
        assert_eq!(bytes_used, round as usize);
    }
    assert_eq!(queue.used_descriptor_chains_count(), 0);
}

#[test]
fn nonsense_in_the_used_ring_is_noticed() {
    let (mut queue, _) = running(0);
    let mut chain = [Some(buffer(1, 0x1000, false))];
    assert!(queue.provide_buffer_chain(&mut chain).is_ok());
    // Overrun
    queue.load_used_ring(used(3, (0, 0), (0, 0)));
    assert!(!queue.can_pop_used_descriptor_chain());
    // A descriptor that does not exist
    queue.load_used_ring(used(1, (2, 0), (0, 0)));
    assert!(!queue.can_pop_used_descriptor_chain());
    // A descriptor that is free
    queue.load_used_ring(used(1, (1, 0), (0, 0)));
    assert!(!queue.can_pop_used_descriptor_chain());
    // Nothing new
    queue.load_used_ring(used(0, (9, 0), (9, 0)));
    assert!(queue.can_pop_used_descriptor_chain());
    queue.load_used_ring(used(1, (0, 0), (0, 0)));
    assert!(queue.can_pop_used_descriptor_chain());
}

#[test]
fn a_partial_chain_leaves_a_dangling_head() {
    let (mut queue, _) = running(0);
    let mut chain = [Some(buffer(1, 0x1000, false)), Some(buffer(2, 0x2000, false))];
    assert!(queue.provide_buffer_chain(&mut chain).is_ok());
    // The device returns the second descriptor of the chain
    queue.load_used_ring(used(1, (1, 0), (0, 0)));
    assert!(queue.can_pop_used_descriptor_chain());
    let (back, _) = queue.pop_used_descriptor_chain().unwrap();
    assert_eq!(back[0].as_ref().unwrap().buf.addr, 0x2000);
    assert!(back[1].is_none());
    // The first one then leads nowhere
    queue.load_used_ring(used(2, (1, 0), (0, 0)));
    assert!(!queue.can_pop_used_descriptor_chain());
}

#[test]
fn interrupts_deliver_only_while_callbacks_are_enabled() {
    let (mut queue, _) = running(6);
    let client: &'static Client = Box::leak(Box::new(Client::default()));
    queue.set_client(client);
    let mut a = [Some(buffer(1, 0x1000, false))];
    let mut b = [Some(buffer(2, 0x2000, false))];
    assert!(queue.provide_buffer_chain(&mut a).is_ok());
    assert!(queue.provide_buffer_chain(&mut b).is_ok());
    queue.load_used_ring(used(2, (0, 1), (1, 2)));
    assert!(queue.used_interrupt().is_none());
    assert_eq!(queue.used_descriptor_chains_count(), 2);
    queue.enable_used_callbacks();
    let mut chain = queue.used_interrupt().unwrap();
    chain.client.unwrap().buffer_chain_ready(
        chain.queue_number,
        &mut chain.buffer_chain,
        chain.bytes_used,
    );
    assert_eq!(*client.ready.borrow(), vec![(6, 0x1000, 1)]);
    queue.disable_used_callbacks();
    assert!(queue.used_interrupt().is_none());
    assert_eq!(queue.used_descriptor_chains_count(), 1);
    queue.enable_used_callbacks();
    assert_eq!(queue.used_interrupt().unwrap().bytes_used, 2);
    assert!(queue.used_interrupt().is_none());
}

#[test]
fn without_a_client_a_used_chain_is_taken_all_the_same() {
    let (mut queue, _) = running(0);
    let mut a = [Some(buffer(1, 0x1000, false))];
    assert!(queue.provide_buffer_chain(&mut a).is_ok());
    queue.load_used_ring(used(1, (0, 1), (0, 0)));
    queue.enable_used_callbacks();
    let chain = queue.used_interrupt().unwrap();
    assert!(chain.client.is_none());
    assert_eq!(queue.free_descriptor_count(), 2);
}

#[test]
fn a_transport_sets_up_the_queues() {
    let transport = Transport::default();
    let (first, second) = (shared(), shared());
    assert_eq!(
        transport.initialize(&Rng, handles(vec![first, second])),
        VirtIODeviceType::EntropySource
    );
    assert_eq!(first.borrow().queue_number(), 10);
    assert_eq!(second.borrow().queue_number(), 11);
    assert_eq!(second.borrow().negotiated_queue_size(), 2);
}

#[test]
fn a_transport_passes_interrupts_on_to_the_queues_it_was_handed() {
    let transport: &'static Transport = Box::leak(Box::new(Transport::default()));
    let client: &'static Client = Box::leak(Box::new(Client::default()));
    let (first, second) = (shared(), shared());
    transport.initialize(&Rng, handles(vec![first, second]));
    let mut chain = [Some(buffer(4, 0x4000, true))];
    {
        let mut queue = second.borrow_mut();
        queue.set_transport(transport);
        queue.set_client(client);
        queue.enable_used_callbacks();
        assert!(queue.provide_buffer_chain(&mut chain).is_ok());
        queue.load_used_ring(used(1, (0, 4), (0, 0)));
    }
    transport.interrupt();
    assert_eq!(*client.ready.borrow(), vec![(11, 0x4000, 4)]);
    assert_eq!(second.borrow().free_descriptor_count(), 2);
    // There is nothing new
    transport.interrupt();
    assert_eq!(client.ready.borrow().len(), 1);
}

#[test]
fn an_available_chain_goes_where_the_index_says() {
    for size in [1usize, 2] {
        let transport: &'static Transport = Box::leak(Box::new(Transport::default()));
        let mut queue = fresh();
        queue.set_transport(transport);
        queue.negotiate_queue_size(size);
        queue.initialize(0);
        for round in 0..65540u32 {
            // Leave a mark in every entry
            let mut before = VirtQueueAvailableRing {
                flags: 1,
                idx: queue.available_ring().idx,
                ring: [VirtQueueAvailableElement(7), VirtQueueAvailableElement(7)],
                used_event: 5,
            };
            let entry = before.idx as usize % size;
            before.ring[entry] = VirtQueueAvailableElement(9);
            queue.load_available_ring(before);
            let mut chain = [Some(buffer(1, 0x1000, false))];
            assert!(queue.provide_buffer_chain(&mut chain).is_ok());
            let after = queue.available_ring();
            assert_eq!(after.ring[entry], VirtQueueAvailableElement(0));
            assert_eq!(after.ring[1 - entry], VirtQueueAvailableElement(7));
            assert_eq!(after.idx, (round + 1) as u16);
            assert_eq!((after.flags, after.used_event), (1, 5));
            let idx = after.idx;
            queue.load_used_ring(used(idx, (0, 0), (0, 0)));
            assert!(queue.pop_used_descriptor_chain().is_some());
        }
    }
    // Without taking anything back in between
    let (mut queue, transport) = running(0);
    for (addr, entry) in [(0x1000u64, 0usize), (0x2000, 1)] {
        let mut chain = [Some(buffer(1, addr, false))];
        assert_eq!(queue.available_ring().idx as usize % 2, entry);
        assert!(queue.provide_buffer_chain(&mut chain).is_ok());
        assert_eq!(queue.available_ring().ring[entry], VirtQueueAvailableElement(entry as u16));
    }
    // Nobody was told yet
    assert!(transport.rings.borrow().is_empty());
}

#[test]
fn the_index_of_the_available_ring_is_read_back() {
    let (mut queue, _) = running(0);
    queue.load_available_ring(VirtQueueAvailableRing {
        idx: 41,
        ..VirtQueueAvailableRing::default()
    });
    let mut chain = [Some(buffer(1, 0x1000, false))];
    assert!(queue.provide_buffer_chain(&mut chain).is_ok());
    assert_eq!(queue.available_ring().idx, 42);
}

#[test]
fn a_returned_descriptor_counts_as_it_is_in_memory() {
    let (mut queue, _) = running(0);
    let mut chain = [Some(buffer(12, 0x1000, false)), Some(buffer(64, 0x2000, true))];
    assert!(queue.provide_buffer_chain(&mut chain).is_ok());
    queue.load_descriptors(VirtQueueDescriptors([
        VirtQueueDescriptor { addr: 0x1000, len: 3, flags: 2, next: 1 },
        VirtQueueDescriptor { addr: 0x2000, len: 64, flags: 2, next: 0 },
    ]));
    queue.load_used_ring(used(1, (0, 0), (0, 0)));
    assert!(queue.can_pop_used_descriptor_chain());
    let (back, _) = queue.pop_used_descriptor_chain().unwrap();
    // Another length, another direction, and no second buffer
    let first = back[0].as_ref().unwrap();
    assert_eq!((first.buf.addr, first.len, first.device_writable), (0x1000, 3, true));
    assert!(back[1].is_none());
    assert_eq!(queue.free_descriptor_count(), 1);
    assert_eq!(queue.descriptors().0[0], VirtQueueDescriptor::default());
    assert_eq!(queue.descriptors().0[1].addr, 0x2000);
}

#[test]
fn descriptors_that_were_tampered_with_are_noticed() {
    let (mut queue, _) = running(0);
    let mut chain = [Some(buffer(12, 0x1000, false)), Some(buffer(64, 0x2000, true))];
    assert!(queue.provide_buffer_chain(&mut chain).is_ok());
    let table = queue.descriptors().0;
    queue.load_used_ring(used(1, (0, 0), (0, 0)));
    assert!(queue.can_pop_used_descriptor_chain());
    // Another address, in the first descriptor or a later one
    for slot in [0usize, 1] {
        let mut altered = table;
        altered[slot].addr += 1;
        queue.load_descriptors(VirtQueueDescriptors(altered));
        assert!(!queue.can_pop_used_descriptor_chain());
    }
    // A chain without end
    let mut altered = table;
    altered[1].flags |= 1;
    queue.load_descriptors(VirtQueueDescriptors(altered));
    assert!(!queue.can_pop_used_descriptor_chain());
    // A descriptor that does not exist
    let mut altered = table;
    altered[0].next = 2;
    queue.load_descriptors(VirtQueueDescriptors(altered));
    assert!(!queue.can_pop_used_descriptor_chain());
    queue.load_descriptors(VirtQueueDescriptors(table));
    assert!(queue.can_pop_used_descriptor_chain());
}

#[test]
fn chains_that_a_device_links_take_a_position_for_good() {
    let (mut queue, _) = running(0);
    for addr in [0x1000, 0x2000] {
        let mut chain = [Some(buffer(1, addr, false))];
        assert!(!queue.is_available_ring_full());
        assert!(queue.provide_buffer_chain(&mut chain).is_ok());
    }
    assert!(queue.is_available_ring_full());
    // The device links the two chains, and returns them as one
    let mut table = queue.descriptors().0;
    table[0].flags |= 1;
    table[0].next = 1;
    queue.load_descriptors(VirtQueueDescriptors(table));
    queue.load_used_ring(used(1, (0, 0), (0, 0)));
    assert!(queue.can_pop_used_descriptor_chain());
    let (back, _) = queue.pop_used_descriptor_chain().unwrap();
    assert!(back[0].is_some() && back[1].is_some());
    assert_eq!(queue.free_descriptor_count(), 2);
    assert!(!queue.is_available_ring_full());
    // One position stays taken, though both descriptors are free
    let mut chain = [Some(buffer(1, 0x3000, false))];
    assert!(queue.provide_buffer_chain(&mut chain).is_ok());
    assert_eq!(queue.free_descriptor_count(), 1);
    assert!(queue.is_available_ring_full());
}

#[test]
fn buffers_have_to_be_describable() {
    assert!(buffer(1, 0, false).is_describable());
    assert!(!buffer(0, 0, false).is_describable());
    let too_long = VirtQueueBuffer { buf: slice(4, 0), len: 5, device_writable: false };
    assert!(!too_long.is_describable());
    let part = VirtQueueBuffer { buf: slice(4, 0), len: 3, device_writable: false };
    assert!(part.is_describable());
}
