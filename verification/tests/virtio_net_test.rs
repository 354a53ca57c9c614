use std::cell::RefCell;
use tock_virtio::error::ErrorCode;
use tock_virtio::virtio::devices::virtio_net::{
    NetEvent, VirtIONet, VirtIONetClient, HEADER_LEN, VIRTIO_NET_F_MAC,
};
use tock_virtio::virtio::queues::layout::{
    SharedSlice, VirtQueueAvailableRing, VirtQueueBuffer, VirtQueueDescriptors,
    VirtQueueUsedElement, VirtQueueUsedRing,
};
use tock_virtio::virtio::queues::split_queue::SplitVirtQueue;
use tock_virtio::virtio::{
    QueueNotification, VirtIODeviceType, VirtIODriver, VirtIOTransport, VirtQueue, VirtQueueAddresses,
};

#[derive(Default)]
struct Transport {
    rings: RefCell<Vec<u32>>,
}

impl VirtIOTransport for Transport {
    fn query(&self) -> Option<VirtIODeviceType> {
        None
    }

    fn initialize(
        &self,
        driver: &dyn VirtIODriver,
        _queues: &'static mut [&'static mut dyn VirtQueue<'static, 'static>],
    ) -> VirtIODeviceType {
        driver.device_type()
    }

    fn queue_notify(&self, queue_id: u32) {
        self.rings.borrow_mut().push(queue_id);
    }
}

#[derive(Default)]
struct Client {
    sent: RefCell<Vec<(usize, u64)>>,
    received: RefCell<Vec<(usize, u64, usize)>>,
}

impl<'b> VirtIONetClient<'b> for Client {
    fn packet_sent(&self, id: usize, buffer: SharedSlice<'b>) {
        self.sent.borrow_mut().push((id, buffer.addr));
    }

    fn packet_received(&self, id: usize, buffer: SharedSlice<'b>, len: usize) {
        self.received.borrow_mut().push((id, buffer.addr, len));
    }
}

fn tell(event: NetEvent) {
    match event {
        NetEvent::PacketReceived { client, id, buffer, len } => {
            client.packet_received(id, buffer, len)
        }
        NetEvent::PacketSent { client, id, buffer } => client.packet_sent(id, buffer),
    }
}

fn notify(notification: QueueNotification) {
    notification.transport.queue_notify(notification.queue_id);
}

const RX: u32 = 0;
const TX: u32 = 1;

fn slice(len: usize, addr: u64) -> SharedSlice<'static> {
    SharedSlice { bytes: Box::leak(vec![0xffu8; len].into_boxed_slice()), addr }
}

fn queue(number: u32, transport: &'static Transport) -> SplitVirtQueue<'static, 'static> {
    let mut queue = SplitVirtQueue::new(
        VirtQueueDescriptors::default(),
        VirtQueueAvailableRing::default(),
        VirtQueueUsedRing::default(),
        VirtQueueAddresses { descriptor_area: 0, driver_area: 0, device_area: 0 },
    );
    queue.set_transport(transport);
    queue.negotiate_queue_size(2);
    queue.initialize(number);
    queue
}

fn card() -> (VirtIONet<'static, 'static>, &'static Transport, &'static Client) {
    let transport: &'static Transport = Box::leak(Box::new(Transport::default()));
    let client: &'static Client = Box::leak(Box::new(Client::default()));
    let net = VirtIONet::new(
        4,
        queue(TX, transport),
        slice(HEADER_LEN, 0x100),
        queue(RX, transport),
        slice(HEADER_LEN, 0x200),
        slice(1526, 0x300),
    );
    (net, transport, client)
}

fn returned(idx: u16, position: usize, id: u32, len: u32) -> VirtQueueUsedRing {
    let mut ring = [VirtQueueUsedElement::default(), VirtQueueUsedElement::default()];
    ring[position] = VirtQueueUsedElement { id, len };
    VirtQueueUsedRing { flags: 0, idx, ring, avail_event: 0 }
}

#[test]
fn card_knows_its_type_and_number() {
    let (net, _, _) = card();
    assert_eq!(net.id(), 4);
    assert_eq!(net.device_type(), VirtIODeviceType::NetworkCard);
}

#[test]
fn card_accepts_the_mac_feature_only() {
    let (net, _, _) = card();
    assert_eq!(VIRTIO_NET_F_MAC, 1 << 5);
    assert_eq!(net.negotiate_features(1 << 5), 1 << 5);
    assert_eq!(net.negotiate_features(u64::MAX), 1 << 5);
    assert_eq!(net.negotiate_features(1 << 5 | 1 << 15), 1 << 5);
}

#[test]
fn receive_buffer_goes_into_the_queue() {
    let (mut net, transport, _) = card();
    notify(net.initialize_rx());
    assert!(net.rx_header().is_none());
    assert!(net.rx_buffer().is_none());
    let descriptors = net.rxqueue().descriptors().0;
    assert_eq!((descriptors[0].addr, descriptors[0].len, descriptors[0].flags), (0x200, 12, 3));
    assert_eq!((descriptors[1].addr, descriptors[1].len, descriptors[1].flags), (0x300, 1526, 2));
    assert_eq!(*transport.rings.borrow(), vec![RX]);
}

#[test]
fn received_packets_reach_the_client_without_the_header() {
    let (mut net, transport, client) = card();
    net.set_client(client);
    notify(net.initialize_rx());
    net.rxqueue_mut().load_used_ring(returned(1, 0, 0, 112));
    let mut used = net.rxqueue_mut().used_interrupt().unwrap();
    assert_eq!(used.queue_number, RX);
    let event = net.buffer_chain_ready(RX, &mut used.buffer_chain, used.bytes_used);
    assert!(used.buffer_chain[0].is_none() && used.buffer_chain[1].is_none());
    assert_eq!(net.rx_header().as_ref().unwrap().addr, 0x200);
    tell(event.unwrap());
    assert_eq!(*client.received.borrow(), vec![(4, 0x300, 100)]);
    assert!(client.sent.borrow().is_empty());

    // A buffer that is returned is put into the queue again
    notify(net.return_rx_buffer(slice(64, 0x400)));
    assert_eq!(net.rxqueue().descriptors().0[1].addr, 0x400);
    assert_eq!(net.rxqueue().available_ring().idx, 2);
    assert_eq!(*transport.rings.borrow(), vec![RX, RX]);
}

#[test]
fn sent_packets_come_back() {
    let (mut net, transport, client) = card();
    net.set_client(client);
    notify(net.send_packet(slice(60, 0x900), 42).ok().unwrap());
    assert!(net.tx_header().is_none());
    let descriptors = net.txqueue().descriptors().0;
    assert_eq!((descriptors[0].addr, descriptors[0].len, descriptors[0].flags), (0x100, 12, 1));
    assert_eq!((descriptors[1].addr, descriptors[1].len, descriptors[1].flags), (0x900, 42, 0));
    assert_eq!(*transport.rings.borrow(), vec![TX]);

    // The card is busy until the header is back
    let refused = net.send_packet(slice(10, 0xa00), 10);
    let packet = match refused {
        Err((ErrorCode::BUSY, packet)) => packet,
        _ => panic!("the card is not busy"),
    };
    assert_eq!(packet.addr, 0xa00);

    net.txqueue_mut().load_used_ring(returned(1, 0, 0, 0));
    let mut used = net.txqueue_mut().used_interrupt().unwrap();
    let header = &used.buffer_chain[0].as_ref().unwrap().buf;
    assert_eq!(&header.bytes[..], &[0u8; 12]);
    let event = net.buffer_chain_ready(TX, &mut used.buffer_chain, used.bytes_used);
    tell(event.unwrap());
    assert_eq!(*client.sent.borrow(), vec![(4, 0x900)]);
    assert!(client.received.borrow().is_empty());
    assert_eq!(net.tx_header().as_ref().unwrap().addr, 0x100);
    assert!(net.send_packet(packet, 10).is_ok());
}

#[test]
fn a_packet_without_space_is_handed_back() {
    let (mut net, _, _) = card();
    let mut occupied =
        [Some(VirtQueueBuffer { buf: slice(1, 0x50), len: 1, device_writable: false })];
    assert!(net.txqueue_mut().provide_buffer_chain(&mut occupied).is_ok());
    match net.send_packet(slice(10, 0xa00), 10) {
        Err((ErrorCode::NOMEM, packet)) => assert_eq!(packet.addr, 0xa00),
        _ => panic!("there was space"),
    }
    assert!(net.tx_header().is_none());
    // The header is lost, so that the card stays busy
    net.txqueue_mut().load_used_ring(returned(1, 0, 0, 0));
    assert!(net.txqueue_mut().pop_used_descriptor_chain().is_some());
    assert_eq!(net.txqueue().free_descriptor_count(), 2);
    match net.send_packet(slice(10, 0xb00), 10) {
        Err((ErrorCode::BUSY, packet)) => assert_eq!(packet.addr, 0xb00),
        _ => panic!("there was a header"),
    }
}

#[test]
fn a_card_knows_whether_it_has_a_client() {
    let (mut net, _, client) = card();
    assert!(!net.has_client());
    net.set_client(client);
    assert!(net.has_client());
}

#[test]
fn a_shortened_descriptor_comes_back_shortened() {
    let (mut net, _, _) = card();
    notify(net.initialize_rx());
    let mut table = VirtQueueDescriptors(net.rxqueue().descriptors().0);
    table.0[1].len = 5;
    net.rxqueue_mut().load_descriptors(table);
    net.rxqueue_mut().load_used_ring(returned(1, 0, 0, 20));
    assert!(net.rxqueue().can_pop_used_descriptor_chain());
    let used = net.rxqueue_mut().used_interrupt().unwrap();
    assert_eq!(used.buffer_chain[0].as_ref().unwrap().len, 12);
    let buffer = used.buffer_chain[1].as_ref().unwrap();
    assert_eq!((buffer.len, buffer.buf.bytes.len()), (5, 1526));
}

#[test]
fn without_a_client_there_is_nobody_to_tell() {
    let (mut net, _, _) = card();
    notify(net.initialize_rx());
    // Less than a header
    net.rxqueue_mut().load_used_ring(returned(1, 0, 0, 3));
    let mut used = net.rxqueue_mut().used_interrupt().unwrap();
    let event = net.buffer_chain_ready(RX, &mut used.buffer_chain, used.bytes_used);
    assert!(event.is_none());
    assert_eq!(net.rx_header().as_ref().unwrap().addr, 0x200);
}
