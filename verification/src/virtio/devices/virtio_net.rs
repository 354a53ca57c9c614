//! Driver for VirtIO network cards.

use crate::error::ErrorCode;
use crate::virtio::queues::effects;
use crate::virtio::queues::laws;
use crate::virtio::queues::layout::{SharedSlice, VirtQueueBuffer};
use crate::virtio::queues::model;
use crate::virtio::queues::model::QueueView;
use crate::virtio::queues::split_queue::{SplitVirtQueue, UsedChain};
use crate::virtio::{QueueNotification, VirtIODeviceType, VirtIODriver, VirtQueue};
use vstd::prelude::*;

verus! {

/// Length of the header that precedes every packet.
pub const HEADER_LEN: usize = 12;

/// The feature bit by which a device offers its MAC address.
pub const VIRTIO_NET_F_MAC: u64 = 0x20;

/// A network card with a queue for received and one for transmitted packets.
///
/// One packet can be received and one transmitted at a time: a header goes out to
/// the device in front of a packet, and comes back with it. The header of a packet
/// that finds no space in the transmit queue is lost, so that later packets find
/// the card busy.
pub struct VirtIONet<'a, 'b> {
    id: usize,
    rxqueue: SplitVirtQueue<'a, 'b>,
    txqueue: SplitVirtQueue<'a, 'b>,
    tx_header: Option<SharedSlice<'b>>,
    rx_header: Option<SharedSlice<'b>>,
    rx_buffer: Option<SharedSlice<'b>>,
    client: Option<&'a dyn VirtIONetClient<'b>>,
}

/// The state of a network card.
pub struct NetView<'a, 'b> {
    /// The number of the interface.
    pub id: usize,
    /// The queue for received packets.
    pub rxqueue: QueueView<'a, 'b>,
    /// The queue for transmitted packets.
    pub txqueue: QueueView<'a, 'b>,
    /// The header for the next packet to transmit.
    pub tx_header: Option<SharedSlice<'b>>,
    /// The header for the next packet to receive.
    pub rx_header: Option<SharedSlice<'b>>,
    /// The buffer for the next packet to receive.
    pub rx_buffer: Option<SharedSlice<'b>>,
    /// The client that is told of packets.
    pub client: Option<&'a dyn VirtIONetClient<'b>>,
}

impl<'a, 'b> NetView<'a, 'b> {
    /// A receive buffer of the given kind can be put into the receive queue.
    pub open spec fn can_receive_into(self, buffer: SharedSlice<'b>) -> bool {
        &&& self.rx_header matches Some(header) && header.bytes@.len() >= HEADER_LEN
        &&& buffer.bytes@.len() as u32 > 0
        &&& self.rxqueue.initialized
        &&& self.rxqueue.free_slots().len() >= 2
        &&& !self.rxqueue.ring.full()
        &&& self.rxqueue.transport is Some
    }

    /// A chain that consists of a header and a packet, and comes from one of the
    /// two queues.
    pub open spec fn expects(
        self,
        queue_number: u32,
        buffer_chain: Seq<Option<VirtQueueBuffer<'b>>>,
    ) -> bool {
        &&& buffer_chain.len() >= 2
        &&& buffer_chain[0] is Some
        &&& buffer_chain[1] is Some
        &&& self.rxqueue.initialized
        &&& queue_number == self.rxqueue.queue_number || {
            &&& self.txqueue.initialized
            &&& queue_number == self.txqueue.queue_number
            &&& buffer_chain[0]->0.buf.bytes@.len() == HEADER_LEN
        }
    }
}

impl<'a, 'b> View for VirtIONet<'a, 'b> {
    type V = NetView<'a, 'b>;

    closed spec fn view(&self) -> NetView<'a, 'b> {
        NetView {
            id: self.id,
            rxqueue: self.rxqueue@,
            txqueue: self.txqueue@,
            tx_header: self.tx_header,
            rx_header: self.rx_header,
            rx_buffer: self.rx_buffer,
            client: self.client,
        }
    }
}

/// The user of a network card.
pub trait VirtIONetClient<'b> {
    /// A packet was sent, and its buffer is handed back.
    fn packet_sent(&self, id: usize, buffer: SharedSlice<'b>);

    /// A packet of `len` bytes was received.
    fn packet_received(&self, id: usize, buffer: SharedSlice<'b>, len: usize);
}

/// What a client is to be told: which method of which client is to be called,
/// and with what.
pub enum NetEvent<'a, 'b> {
    PacketReceived {
        client: &'a dyn VirtIONetClient<'b>,
        id: usize,
        buffer: SharedSlice<'b>,
        len: usize,
    },
    PacketSent { client: &'a dyn VirtIONetClient<'b>, id: usize, buffer: SharedSlice<'b> },
}

/// The chain in which a packet is received.
pub open spec fn rx_chain<'b>(header: SharedSlice<'b>, buffer: SharedSlice<'b>) -> Seq<
    Option<VirtQueueBuffer<'b>>,
> {
    seq![
        Some(VirtQueueBuffer { buf: header, len: HEADER_LEN, device_writable: true }),
        Some(
            VirtQueueBuffer {
                buf: buffer,
                len: buffer.bytes@.len() as usize,
                device_writable: true,
            },
        ),
    ]
}

/// The chain in which a packet is transmitted.
pub open spec fn tx_chain<'b>(
    header: SharedSlice<'b>,
    packet: SharedSlice<'b>,
    packet_len: usize,
) -> Seq<Option<VirtQueueBuffer<'b>>> {
    seq![
        Some(VirtQueueBuffer { buf: header, len: HEADER_LEN, device_writable: false }),
        Some(VirtQueueBuffer { buf: packet, len: packet_len, device_writable: false }),
    ]
}

/// The queue passes used chains on.
pub open spec fn with_callbacks<'a, 'b>(queue: QueueView<'a, 'b>) -> QueueView<'a, 'b> {
    QueueView { used_callbacks_enabled: true, ..queue }
}

proof fn lemma_two_buffers<'b>(chain: Seq<Option<VirtQueueBuffer<'b>>>)
    requires
        chain.len() == 2,
        chain[0] is Some,
        chain[1] is Some,
    ensures
        model::chain_len(chain) == 2,
        chain[0]->0.describable() && chain[1]->0.describable() ==> model::chain_describable(chain),
{
    reveal_with_fuel(model::chain_len, 3);
}

impl<'a, 'b> VirtIONet<'a, 'b> {
    /// Both queues are consistent, and a header that is here has its length.
    pub closed spec fn wf(&self) -> bool {
        &&& self.rxqueue.wf()
        &&& self.txqueue.wf()
        &&& self.tx_header matches Some(header) ==> header.bytes@.len() == HEADER_LEN
    }

    /// A driver for the card with the given queues, and with the buffers that it
    /// is to use for headers and for received packets.
    pub fn new(
        id: usize,
        txqueue: SplitVirtQueue<'a, 'b>,
        tx_header: SharedSlice<'b>,
        rxqueue: SplitVirtQueue<'a, 'b>,
        rx_header: SharedSlice<'b>,
        rx_buffer: SharedSlice<'b>,
    ) -> (net: VirtIONet<'a, 'b>)
        requires
            txqueue.wf(),
            rxqueue.wf(),
            old(tx_header.bytes)@.len() == HEADER_LEN,
        ensures
            net.wf(),
            net@ == (NetView {
                id,
                rxqueue: rxqueue@,
                txqueue: txqueue@,
                tx_header: Some(tx_header),
                rx_header: Some(rx_header),
                rx_buffer: Some(rx_buffer),
                client: None,
            }),
    {
        VirtIONet {
            id,
            rxqueue,
            txqueue,
            tx_header: Some(tx_header),
            rx_header: Some(rx_header),
            rx_buffer: Some(rx_buffer),
            client: None,
        }
    }

    /// The number of this interface.
    pub fn id(&self) -> (id: usize)
        ensures
            id == self@.id,
    {
        self.id
    }

    /// The queue for received packets.
    pub fn rxqueue(&self) -> (queue: &SplitVirtQueue<'a, 'b>)
        ensures
            queue@ == self@.rxqueue,
            self.wf() ==> queue.wf(),
    {
        &self.rxqueue
    }

    /// The queue for received packets.
    pub fn rxqueue_mut(&mut self) -> (queue: &mut SplitVirtQueue<'a, 'b>)
        ensures
            queue@ == old(self)@.rxqueue,
            old(self).wf() ==> queue.wf(),
            final(self)@ == (NetView { rxqueue: final(queue)@, ..old(self)@ }),
            old(self).wf() && final(queue).wf() ==> final(self).wf(),
    {
        &mut self.rxqueue
    }

    /// The queue for transmitted packets.
    pub fn txqueue(&self) -> (queue: &SplitVirtQueue<'a, 'b>)
        ensures
            queue@ == self@.txqueue,
            self.wf() ==> queue.wf(),
    {
        &self.txqueue
    }

    /// The queue for transmitted packets.
    pub fn txqueue_mut(&mut self) -> (queue: &mut SplitVirtQueue<'a, 'b>)
        ensures
            queue@ == old(self)@.txqueue,
            old(self).wf() ==> queue.wf(),
            final(self)@ == (NetView { txqueue: final(queue)@, ..old(self)@ }),
            old(self).wf() && final(queue).wf() ==> final(self).wf(),
    {
        &mut self.txqueue
    }

    /// The header for the next packet to transmit, unless it is out.
    pub fn tx_header(&self) -> (header: &Option<SharedSlice<'b>>)
        ensures
            *header == self@.tx_header,
    {
        &self.tx_header
    }

    /// The header for the next packet to receive, unless it is out.
    pub fn rx_header(&self) -> (header: &Option<SharedSlice<'b>>)
        ensures
            *header == self@.rx_header,
    {
        &self.rx_header
    }

    /// The buffer for the next packet to receive, unless it is out.
    pub fn rx_buffer(&self) -> (buffer: &Option<SharedSlice<'b>>)
        ensures
            *buffer == self@.rx_buffer,
    {
        &self.rx_buffer
    }

    /// Whether there is a client that is told of packets.
    pub fn has_client(&self) -> (has: bool)
        ensures
            has == (self@.client is Some),
    {
        self.client.is_some()
    }

    /// Sets the client that is told of packets.
    pub fn set_client(&mut self, client: &'a dyn VirtIONetClient<'b>)
        requires
            old(self).wf(),
        ensures
            final(self).wf(),
            final(self)@.client == Some(client),
            final(self)@ == (NetView { client: final(self)@.client, ..old(self)@ }),
    {
        let client = Some(client);
        self.client = client;
    }

    /// Puts the receive buffer into the receive queue, for the device to write
    /// the next packet to.
    pub fn initialize_rx(&mut self) -> (notification: QueueNotification<'a>)
        requires
            old(self).wf(),
            old(self)@.rx_buffer matches Some(buffer) && old(self)@.can_receive_into(buffer),
        ensures
            final(self).wf(),
            notification == (QueueNotification {
                transport: old(self)@.rxqueue.transport->0,
                queue_id: old(self)@.rxqueue.queue_number,
            }),
            final(self)@ == (NetView {
                rxqueue: with_callbacks(old(self)@.rxqueue).provided(
                    rx_chain(old(self)@.rx_header->0, old(self)@.rx_buffer->0),
                ),
                rx_header: None,
                rx_buffer: None,
                ..old(self)@
            }),
            ({
                let head = old(self)@.rxqueue.free_slots()[0];
                let next = old(self)@.rxqueue.free_slots()[1];
                let queue = final(self)@.rxqueue;
                &&& queue.used_callbacks_enabled
                &&& queue.buffers[head] == old(self)@.rx_header
                &&& queue.descriptors[head].addr == old(self)@.rx_header->0.addr
                &&& queue.descriptors[head].len == 12
                &&& queue.descriptors[head].flags == 3
                &&& queue.descriptors[head].next == next
                &&& queue.buffers[next] == old(self)@.rx_buffer
                &&& queue.descriptors[next].addr == old(self)@.rx_buffer->0.addr
                &&& queue.descriptors[next].len as int == old(self)@.rx_buffer->0.bytes@.len() as int
                    % 0x1_0000_0000
                &&& queue.descriptors[next].flags == 2
            }),
    {
        let rx_buffer = self.rx_buffer.take().unwrap();
        let rx_buffer_len: usize = rx_buffer.bytes.len();
        let mut buffer_chain = [
            Some(
                VirtQueueBuffer {
                    buf: self.rx_header.take().unwrap(),
                    len: HEADER_LEN,
                    device_writable: true,
                },
            ),
            Some(VirtQueueBuffer { buf: rx_buffer, len: rx_buffer_len, device_writable: true }),
        ];
        proof {
            lemma_two_buffers(buffer_chain@);
            assert(buffer_chain@ =~= rx_chain(old(self)@.rx_header->0, old(self)@.rx_buffer->0));
        }
        self.rxqueue.enable_used_callbacks();
        proof {
            self.rxqueue.lemma_wf_inv();
            law_receive_chain_in_memory(
                old(self)@.rxqueue,
                old(self)@.rx_header->0,
                old(self)@.rx_buffer->0,
            );
        }
        self.rxqueue.provide_buffer_chain(&mut buffer_chain).unwrap()
    }

    /// Takes a receive buffer back, and puts it into the receive queue again.
    pub fn return_rx_buffer(&mut self, buf: SharedSlice<'b>) -> (notification:
        QueueNotification<'a>)
        requires
            old(self).wf(),
            old(self)@.rx_buffer is None,
            old(self)@.can_receive_into(buf),
        ensures
            final(self).wf(),
            notification == (QueueNotification {
                transport: old(self)@.rxqueue.transport->0,
                queue_id: old(self)@.rxqueue.queue_number,
            }),
            final(self)@ == (NetView {
                rxqueue: with_callbacks(old(self)@.rxqueue).provided(
                    rx_chain(old(self)@.rx_header->0, buf),
                ),
                rx_header: None,
                ..old(self)@
            }),
            ({
                let head = old(self)@.rxqueue.free_slots()[0];
                let next = old(self)@.rxqueue.free_slots()[1];
                let queue = final(self)@.rxqueue;
                &&& queue.used_callbacks_enabled
                &&& queue.buffers[head] == old(self)@.rx_header
                &&& queue.descriptors[head].addr == old(self)@.rx_header->0.addr
                &&& queue.descriptors[head].len == 12
                &&& queue.descriptors[head].flags == 3
                &&& queue.descriptors[head].next == next
                &&& queue.buffers[next] == Some(buf)
                &&& queue.descriptors[next].addr == buf.addr
                &&& queue.descriptors[next].len as int == old(buf.bytes)@.len() as int
                    % 0x1_0000_0000
                &&& queue.descriptors[next].flags == 2
            }),
    {
        self.rx_buffer = Some(buf);
        self.initialize_rx()
    }

    /// Transmits the first `packet_len` bytes of a packet, or hands the packet
    /// back.
    ///
    /// While the header is out with an earlier packet, the card is busy. A
    /// header that finds no space in the queue is not kept.
    pub fn send_packet(
        &mut self,
        packet: SharedSlice<'b>,
        packet_len: usize,
    ) -> (sent: Result<QueueNotification<'a>, (ErrorCode, SharedSlice<'b>)>)
        requires
            old(self).wf(),
            old(self)@.tx_header is Some ==> {
                &&& old(self)@.txqueue.initialized
                &&& old(self)@.txqueue.free_slots().len() >= 2 ==> {
                    &&& packet_len <= old(packet.bytes)@.len()
                    &&& #[verifier::truncate]
                    (packet_len as u32) > 0
                    &&& !old(self)@.txqueue.ring.full()
                    &&& old(self)@.txqueue.transport is Some
                }
            },
        ensures
            final(self).wf(),
            final(self)@ == (NetView {
                txqueue: final(self)@.txqueue,
                tx_header: None,
                ..old(self)@
            }),
            old(self)@.tx_header is None ==> {
                &&& sent == Err::<QueueNotification<'a>, (ErrorCode, SharedSlice<'b>)>(
                    (ErrorCode::BUSY, packet),
                )
                &&& final(self)@.txqueue == old(self)@.txqueue
            },
            old(self)@.tx_header is Some && old(self)@.txqueue.free_slots().len() < 2 ==> {
                &&& sent == Err::<QueueNotification<'a>, (ErrorCode, SharedSlice<'b>)>(
                    (ErrorCode::NOMEM, packet),
                )
                &&& final(self)@.txqueue == with_callbacks(old(self)@.txqueue)
                &&& final(self)@.txqueue.used_callbacks_enabled
            },
            old(self)@.tx_header is Some && old(self)@.txqueue.free_slots().len() >= 2 ==> {
                let head = old(self)@.txqueue.free_slots()[0];
                let header = final(self)@.txqueue.buffers[head]->0;
                &&& sent is Ok
                &&& sent->Ok_0 == (QueueNotification {
                    transport: old(self)@.txqueue.transport->0,
                    queue_id: old(self)@.txqueue.queue_number,
                })
                &&& header.addr == old(self)@.tx_header->0.addr
                &&& header.bytes@ == Seq::new(HEADER_LEN as nat, |i: int| 0u8)
                &&& final(header.bytes)@ == final(old(self)@.tx_header->0.bytes)@
                &&& final(self)@.txqueue == with_callbacks(old(self)@.txqueue).provided(
                    tx_chain(header, packet, packet_len),
                )
                &&& final(self)@.txqueue.used_callbacks_enabled
            },
            old(self)@.tx_header is Some && old(self)@.txqueue.free_slots().len() >= 2 ==> {
                let head = old(self)@.txqueue.free_slots()[0];
                let next = old(self)@.txqueue.free_slots()[1];
                let queue = final(self)@.txqueue;
                &&& queue.descriptors[head].addr == old(self)@.tx_header->0.addr
                &&& queue.descriptors[head].len == 12
                &&& queue.descriptors[head].flags == 1
                &&& queue.descriptors[head].next == next
                &&& queue.buffers[head]->0.bytes@.len() == 12
                &&& forall|i: int| 0 <= i < 12 ==> #[trigger] queue.buffers[head]->0.bytes@[i] == 0
                &&& queue.buffers[next] == Some(packet)
                &&& queue.descriptors[next].addr == packet.addr
                &&& queue.descriptors[next].len as int == packet_len as int % 0x1_0000_0000
                &&& queue.descriptors[next].flags == 0
            },
    {
        // Try to get a hold of the header; otherwise the device is busy
        // transmitting a packet
        let header_buf = match self.tx_header.take() {
            Some(header_buf) => header_buf,
            None => {
                return Err((ErrorCode::BUSY, packet));
            },
        };

        // Write the header
        header_buf.bytes[0] = 0;  // flags -> no checksumming
        header_buf.bytes[1] = 0;  // gso -> no checksumming or fragmentation
        header_buf.bytes[2] = 0;  // hdr_len_low
        header_buf.bytes[3] = 0;  // hdr_len_high
        header_buf.bytes[4] = 0;  // gso_size
        header_buf.bytes[5] = 0;  // gso_size
        header_buf.bytes[6] = 0;  // csum_start
        header_buf.bytes[7] = 0;  // csum_start
        header_buf.bytes[8] = 0;  // csum_offset
        header_buf.bytes[9] = 0;  // csum_offset
        header_buf.bytes[10] = 0;  // num_buffers
        header_buf.bytes[11] = 0;  // num_buffers
        assert(header_buf.bytes@ =~= Seq::new(HEADER_LEN as nat, |i: int| 0u8));
        let ghost header = header_buf;
        let mut buffer_chain = [
            Some(VirtQueueBuffer { buf: header_buf, len: HEADER_LEN, device_writable: false }),
            Some(VirtQueueBuffer { buf: packet, len: packet_len, device_writable: false }),
        ];
        proof {
            lemma_two_buffers(buffer_chain@);
            assert(buffer_chain@ =~= tx_chain(header, packet, packet_len));
        }
        self.txqueue.enable_used_callbacks();
        proof {
            self.txqueue.lemma_wf_inv();
            if self.txqueue@.free_slots().len() >= 2 {
                law_transmit_chain_in_memory(old(self)@.txqueue, header, packet, packet_len);
            }
        }
        match self.txqueue.provide_buffer_chain(&mut buffer_chain) {
            Ok(notification) => Ok(notification),
            Err(err) => Err((err, buffer_chain[1].take().unwrap().buf)),
        }
    }

    /// Receives a chain that the device returned: keeps the header for the next
    /// packet, and passes the packet on to the client. Without a client, the
    /// buffer of the packet is lost.
    pub fn buffer_chain_ready(
        &mut self,
        queue_number: u32,
        buffer_chain: &mut [Option<VirtQueueBuffer<'b>>],
        bytes_used: usize,
    ) -> (event: Option<NetEvent<'a, 'b>>)
        requires
            old(self).wf(),
            old(self)@.expects(queue_number, old(buffer_chain)@),
            queue_number == old(self)@.rxqueue.queue_number && old(self)@.client is Some
                ==> bytes_used >= HEADER_LEN,
        ensures
            final(self).wf(),
            final(self)@ == (NetView {
                tx_header: final(self)@.tx_header,
                rx_header: final(self)@.rx_header,
                ..old(self)@
            }),
            final(buffer_chain)@ == old(buffer_chain)@.update(0, None).update(1, None),
            event is Some <==> old(self)@.client is Some,
            queue_number == old(self)@.rxqueue.queue_number ==> {
                &&& event is Some ==> event->0 == (NetEvent::PacketReceived {
                    client: old(self)@.client->0,
                    id: old(self)@.id,
                    buffer: old(buffer_chain)@[1]->0.buf,
                    len: (bytes_used - HEADER_LEN) as usize,
                })
                &&& final(self)@.rx_header == Some(old(buffer_chain)@[0]->0.buf)
                &&& final(self)@.tx_header == old(self)@.tx_header
            },
            queue_number != old(self)@.rxqueue.queue_number ==> {
                &&& event is Some ==> event->0 == (NetEvent::PacketSent {
                    client: old(self)@.client->0,
                    id: old(self)@.id,
                    buffer: old(buffer_chain)@[1]->0.buf,
                })
                &&& final(self)@.tx_header == Some(old(buffer_chain)@[0]->0.buf)
                &&& final(self)@.rx_header == old(self)@.rx_header
            },
    {
        if queue_number == self.rxqueue.queue_number() {
            // Received a packet
            let rx_header = buffer_chain[0].take().unwrap().buf;
            self.rx_header = Some(rx_header);
            let rx_buffer = buffer_chain[1].take().unwrap().buf;
            match self.client {
                Some(client) => Some(
                    NetEvent::PacketReceived {
                        client,
                        id: self.id,
                        buffer: rx_buffer,
                        len: bytes_used - HEADER_LEN,
                    },
                ),
                None => None,
            }
        } else {
            // Sent a packet
            let header_buf = buffer_chain[0].take().unwrap().buf;
            self.tx_header = Some(header_buf);
            let packet_buf = buffer_chain[1].take().unwrap().buf;
            match self.client {
                Some(client) => Some(
                    NetEvent::PacketSent { client, id: self.id, buffer: packet_buf },
                ),
                None => None,
            }
        }
    }
}

impl<'a, 'b> VirtIODriver for VirtIONet<'a, 'b> {
    /// The device has to offer its MAC address.
    open spec fn accepts(&self, offered_features: u64) -> bool {
        offered_features & VIRTIO_NET_F_MAC != 0
    }

    /// Accepts the MAC address, and ignores everything else.
    fn negotiate_features(&self, offered_features: u64) -> (features: u64)
        ensures
            features == VIRTIO_NET_F_MAC,
            features & offered_features == features,
    {
        assert(offered_features & 0x20 != 0 ==> 0x20 & offered_features == 0x20)
            by (bit_vector);
        VIRTIO_NET_F_MAC
    }

    fn device_type(&self) -> (device_type: VirtIODeviceType)
        ensures
            device_type == VirtIODeviceType::NetworkCard,
    {
        VirtIODeviceType::NetworkCard
    }
}

/// Receiving into a header and a buffer describes the two to the device: twelve
/// bytes of the header, and the whole buffer behind it, both for the device to
/// write. What the device returns is passed on from then on.
pub proof fn law_receive_chain_in_memory<'a, 'b>(
    queue: QueueView<'a, 'b>,
    header: SharedSlice<'b>,
    buffer: SharedSlice<'b>,
)
    requires
        queue.inv(),
        queue.free_slots().len() >= 2,
        queue.ring.len < queue.ring.capacity,
        buffer.bytes@.len() <= usize::MAX,
    ensures
        ({
            let head = queue.free_slots()[0];
            let next = queue.free_slots()[1];
            let after = with_callbacks(queue).provided(rx_chain(header, buffer));
            &&& after.used_callbacks_enabled
            &&& after.buffers[head] == Some(header)
            &&& after.descriptors[head].addr == header.addr
            &&& after.descriptors[head].len == 12
            &&& after.descriptors[head].flags == 3
            &&& after.descriptors[head].next == next
            &&& after.buffers[next] == Some(buffer)
            &&& after.descriptors[next].addr == buffer.addr
            &&& after.descriptors[next].len as int == old(buffer.bytes)@.len() as int
                % 0x1_0000_0000
            &&& after.descriptors[next].flags == 2
            &&& after.available.idx == queue.available.idx.wrapping_add(1)
            &&& after == (QueueView {
                descriptors: after.descriptors,
                buffers: after.buffers,
                available: after.available,
                ring: after.ring,
                used_callbacks_enabled: after.used_callbacks_enabled,
                ..queue
            })
        }),
{
    let chain = rx_chain(header, buffer);
    lemma_two_buffers(chain);
    assert(with_callbacks(queue).free_slots() == queue.free_slots());
    effects::law_provided_chain_in_memory(with_callbacks(queue), chain);
    assert(queue.free_slots()[0] == with_callbacks(queue).free_slots()[0]);
    assert(queue.free_slots()[1] == with_callbacks(queue).free_slots()[1]);
}

/// Transmitting a header and a packet describes the two to the device: twelve
/// bytes of the header, and as many bytes of the packet behind it as are to be
/// transmitted, both for the device to read. What the device returns is passed on
/// from then on.
pub proof fn law_transmit_chain_in_memory<'a, 'b>(
    queue: QueueView<'a, 'b>,
    header: SharedSlice<'b>,
    packet: SharedSlice<'b>,
    packet_len: usize,
)
    requires
        queue.inv(),
        queue.free_slots().len() >= 2,
        queue.ring.len < queue.ring.capacity,
    ensures
        ({
            let head = queue.free_slots()[0];
            let next = queue.free_slots()[1];
            let after = with_callbacks(queue).provided(tx_chain(header, packet, packet_len));
            &&& after.used_callbacks_enabled
            &&& after.buffers[head] == Some(header)
            &&& after.descriptors[head].addr == header.addr
            &&& after.descriptors[head].len == 12
            &&& after.descriptors[head].flags == 1
            &&& after.descriptors[head].next == next
            &&& after.buffers[next] == Some(packet)
            &&& after.descriptors[next].addr == packet.addr
            &&& after.descriptors[next].len as int == packet_len as int % 0x1_0000_0000
            &&& after.descriptors[next].flags == 0
            &&& after.available.idx == queue.available.idx.wrapping_add(1)
            &&& after == (QueueView {
                descriptors: after.descriptors,
                buffers: after.buffers,
                available: after.available,
                ring: after.ring,
                used_callbacks_enabled: after.used_callbacks_enabled,
                ..queue
            })
        }),
{
    let chain = tx_chain(header, packet, packet_len);
    lemma_two_buffers(chain);
    assert(with_callbacks(queue).free_slots() == queue.free_slots());
    effects::law_provided_chain_in_memory(with_callbacks(queue), chain);
    assert(queue.free_slots()[0] == with_callbacks(queue).free_slots()[0]);
    assert(queue.free_slots()[1] == with_callbacks(queue).free_slots()[1]);
}

/// A packet that was transmitted comes back with its header in front of it, once
/// the device returns the descriptor that it was given, and as long as nothing
/// else touches the descriptors of the two: the next used chain can be taken, it
/// is one that the driver expects, and by it the driver gets back its header and
/// the client gets back the packet.
pub proof fn law_sent_packet_comes_back<'a, 'b>(
    net: NetView<'a, 'b>,
    queue: QueueView<'a, 'b>,
    header: SharedSlice<'b>,
    packet: SharedSlice<'b>,
    packet_len: usize,
    later: QueueView<'a, 'b>,
)
    requires
        net.rxqueue.initialized,
        net.txqueue.initialized,
        queue.inv(),
        queue.free_slots().len() >= 2,
        header.bytes@.len() == HEADER_LEN,
        packet_len <= u32::MAX,
        laws::agree_on(
            later,
            queue.provided(tx_chain(header, packet, packet_len)),
            queue.next_slots(2),
        ),
        0 < later.pending() <= later.max_elements,
        later.next_used().id == queue.free_slots()[0],
    ensures
        later.poppable(),
        ({
            let back = later.chain_buffers(later.chain_from(later.next_used().id as int));
            &&& net.expects(net.txqueue.queue_number, back)
            &&& back == tx_chain(header, packet, packet_len)
        }),
{
    let chain = tx_chain(header, packet, packet_len);
    lemma_two_buffers(chain);
    laws::law_buffers_come_back_as_provided(queue, chain, later);
    assert(later.chain_buffers(later.chain_from(queue.free_slots()[0])) =~= chain);
}

/// A receive buffer comes back with its header in front of it, once the device
/// returns the descriptor that it was given, and as long as nothing else touches
/// the descriptors of the two: the next used chain can be taken, it is one that
/// the driver expects, and by it the driver gets back its header and the client
/// gets the packet.
pub proof fn law_receive_buffer_comes_back<'a, 'b>(
    net: NetView<'a, 'b>,
    queue: QueueView<'a, 'b>,
    header: SharedSlice<'b>,
    buffer: SharedSlice<'b>,
    later: QueueView<'a, 'b>,
)
    requires
        net.rxqueue.initialized,
        queue.inv(),
        queue.free_slots().len() >= 2,
        buffer.bytes@.len() <= u32::MAX,
        laws::agree_on(
            later,
            queue.provided(rx_chain(header, buffer)),
            queue.next_slots(2),
        ),
        0 < later.pending() <= later.max_elements,
        later.next_used().id == queue.free_slots()[0],
    ensures
        later.poppable(),
        ({
            let back = later.chain_buffers(later.chain_from(later.next_used().id as int));
            &&& net.expects(net.rxqueue.queue_number, back)
            &&& back == rx_chain(header, buffer)
        }),
{
    let chain = rx_chain(header, buffer);
    lemma_two_buffers(chain);
    laws::law_buffers_come_back_as_provided(queue, chain, later);
    assert(later.chain_buffers(later.chain_from(queue.free_slots()[0])) =~= chain);
}

/// A card can receive into a buffer when its header is at hand and long enough,
/// and the receive queue is started, has a transport, two free slots and a position
/// in the available ring. Whatever comes from one of the two queues with a header
/// and a packet in it is expected.
pub proof fn law_when_card_can_receive<'a, 'b>(
    net: NetView<'a, 'b>,
    buffer: SharedSlice<'b>,
    queue_number: u32,
    chain: Seq<Option<VirtQueueBuffer<'b>>>,
)
    requires
        net.rxqueue.inv(),
        old(buffer.bytes)@.len() <= usize::MAX,
    ensures
        net.can_receive_into(buffer) <==> {
            &&& net.rx_header is Some
            &&& net.rx_header->0.bytes@.len() >= 12
            &&& old(buffer.bytes)@.len() as int % 0x1_0000_0000 != 0
            &&& net.rxqueue.initialized
            &&& net.rxqueue.free_slots().len() >= 2
            &&& net.rxqueue.ring.len < net.rxqueue.max_elements
            &&& net.rxqueue.transport is Some
        },
        net.expects(queue_number, chain) <==> {
            &&& chain.len() >= 2
            &&& chain[0] is Some
            &&& chain[1] is Some
            &&& net.rxqueue.initialized
            &&& queue_number == net.rxqueue.queue_number || {
                &&& net.txqueue.initialized
                &&& queue_number == net.txqueue.queue_number
                &&& chain[0]->0.buf.bytes@.len() == 12
            }
        },
{
    effects::lemma_length_in_descriptor(buffer.bytes@.len() as usize);
    effects::law_free_slots_hold_no_slice(net.rxqueue);
}

/// A packet is refused as busy exactly when the header is not at hand, and for want
/// of space exactly when it is but there are no two free slots; either way it is
/// handed back. Otherwise the device finds a zeroed header of twelve bytes to read,
/// and behind it the packet to read, of the length that was asked for. Whenever the
/// header was at hand, what the device returns is passed on from then on.
pub proof fn law_send_packet_hands_packet_to_device<'a, 'b>(
    net: &mut VirtIONet<'a, 'b>,
    packet: SharedSlice<'b>,
    packet_len: usize,
    sent: Result<QueueNotification<'a>, (ErrorCode, SharedSlice<'b>)>,
)
    requires
        old(net).wf(),
        call_ensures(VirtIONet::send_packet, (net, packet, packet_len), sent),
    ensures
        sent matches Err((error, back)) ==> back == packet && (error == ErrorCode::BUSY || error
            == ErrorCode::NOMEM),
        sent matches Err((error, back)) && error == ErrorCode::BUSY <==> old(net)@.tx_header is None,
        sent is Ok <==> old(net)@.tx_header is Some && old(net)@.txqueue.free_slots().len() >= 2,
        sent is Ok ==> {
            let head = old(net)@.txqueue.free_slots()[0];
            let next = old(net)@.txqueue.free_slots()[1];
            let queue = final(net)@.txqueue;
            &&& sent->Ok_0 == (QueueNotification {
                transport: old(net)@.txqueue.transport->0,
                queue_id: old(net)@.txqueue.queue_number,
            })
            &&& queue.descriptors[head].addr == old(net)@.tx_header->0.addr
            &&& queue.descriptors[head].len == 12
            &&& queue.descriptors[head].flags == 1
            &&& queue.descriptors[head].next == next
            &&& queue.buffers[head]->0.bytes@.len() == 12
            &&& forall|i: int| 0 <= i < 12 ==> #[trigger] queue.buffers[head]->0.bytes@[i] == 0
            &&& queue.buffers[next] == Some(packet)
            &&& queue.descriptors[next].addr == packet.addr
            &&& queue.descriptors[next].len as int == packet_len as int % 0x1_0000_0000
            &&& queue.descriptors[next].flags == 0
        },
        old(net)@.tx_header is Some ==> final(net)@.txqueue.used_callbacks_enabled,
        sent is Err ==> final(net)@.txqueue == (QueueView {
            used_callbacks_enabled: final(net)@.txqueue.used_callbacks_enabled,
            ..old(net)@.txqueue
        }),
        old(net)@.tx_header is None ==> final(net)@.txqueue == old(net)@.txqueue,
        final(net)@.tx_header is None,
        final(net)@.rxqueue == old(net)@.rxqueue,
        final(net)@.rx_header == old(net)@.rx_header,
        final(net)@.rx_buffer == old(net)@.rx_buffer,
        final(net)@.client == old(net)@.client,
        final(net)@.id == old(net)@.id,
{
}

/// Putting the receive buffer into the queue, and putting one back, hand the device
/// the header and that buffer to write to; nothing of the transmit side changes.
pub proof fn law_receive_buffer_is_handed_to_device<'a, 'b>(
    net: &mut VirtIONet<'a, 'b>,
    notification: QueueNotification<'a>,
    other: &mut VirtIONet<'a, 'b>,
    buf: SharedSlice<'b>,
    returned: QueueNotification<'a>,
)
    requires
        call_ensures(VirtIONet::initialize_rx, (net,), notification),
        call_ensures(VirtIONet::return_rx_buffer, (other, buf), returned),
        old(other)@ == (NetView { rx_buffer: None, ..old(net)@ }),
        old(net)@.rx_buffer == Some(buf),
    ensures
        ({
            let head = old(net)@.rxqueue.free_slots()[0];
            let next = old(net)@.rxqueue.free_slots()[1];
            let queue = final(net)@.rxqueue;
            &&& queue.used_callbacks_enabled
            &&& queue.buffers[head] == old(net)@.rx_header
            &&& queue.descriptors[head].addr == old(net)@.rx_header->0.addr
            &&& queue.descriptors[head].len == 12
            &&& queue.descriptors[head].flags == 3
            &&& queue.descriptors[head].next == next
            &&& queue.buffers[next] == Some(buf)
            &&& queue.descriptors[next].addr == buf.addr
            &&& queue.descriptors[next].len as int == old(buf.bytes)@.len() as int % 0x1_0000_0000
            &&& queue.descriptors[next].flags == 2
        }),
        notification == (QueueNotification {
            transport: old(net)@.rxqueue.transport->0,
            queue_id: old(net)@.rxqueue.queue_number,
        }),
        final(net)@.rx_header is None,
        final(net)@.rx_buffer is None,
        final(net)@.txqueue == old(net)@.txqueue,
        final(net)@.tx_header == old(net)@.tx_header,
        final(net)@.client == old(net)@.client,
        final(net)@.id == old(net)@.id,
        final(other)@ == final(net)@,
        returned == notification,
{
}

/// What the device returns after the receive buffer was put into the queue is
/// passed on, whether or not it would have been before.
pub proof fn law_interrupt_passes_received_packet_on<'a, 'b>(
    net: &mut VirtIONet<'a, 'b>,
    notification: QueueNotification<'a>,
    queue: &mut SplitVirtQueue<'a, 'b>,
    used: Option<UsedChain<'a, 'b>>,
)
    requires
        call_ensures(VirtIONet::initialize_rx, (net,), notification),
        old(queue).wf(),
        old(queue)@.poppable(),
        old(queue)@ == (QueueView { used: old(queue)@.used, ..final(net)@.rxqueue }),
        call_ensures(
            <SplitVirtQueue<'a, 'b> as VirtQueue<'a, 'b>>::used_interrupt,
            (queue,),
            used,
        ),
    ensures
        used is Some <==> old(queue)@.used.idx != old(queue)@.last_used_idx,
{
    effects::law_interrupt_delivers_what_device_returned(queue, used);
}

/// A chain that came back leaves its header with the driver and its packet with the
/// client, who is told of a received packet, without the twelve bytes of the
/// header, if the chain came from the receive queue, and of a sent one otherwise.
pub proof fn law_returned_chain_is_told_to_client<'a, 'b>(
    net: &mut VirtIONet<'a, 'b>,
    queue_number: u32,
    chain: &mut [Option<VirtQueueBuffer<'b>>],
    bytes_used: usize,
    event: Option<NetEvent<'a, 'b>>,
)
    requires
        old(chain)@.len() >= 2,
        queue_number == old(net)@.rxqueue.queue_number ==> bytes_used >= 12,
        call_ensures(
            VirtIONet::buffer_chain_ready,
            (net, queue_number, chain, bytes_used),
            event,
        ),
    ensures
        event is Some <==> old(net)@.client is Some,
        event is Some && queue_number == old(net)@.rxqueue.queue_number ==> {
            &&& event->0 is PacketReceived
            &&& event->0->PacketReceived_id == old(net)@.id
            &&& event->0->PacketReceived_buffer == old(chain)@[1]->0.buf
            &&& event->0->len + 12 == bytes_used
        },
        event is Some && queue_number != old(net)@.rxqueue.queue_number ==> {
            &&& event->0 is PacketSent
            &&& event->0->PacketSent_id == old(net)@.id
            &&& event->0->PacketSent_buffer == old(chain)@[1]->0.buf
        },
        queue_number == old(net)@.rxqueue.queue_number ==> {
            &&& final(net)@.rx_header == Some(old(chain)@[0]->0.buf)
            &&& final(net)@.tx_header == old(net)@.tx_header
        },
        queue_number != old(net)@.rxqueue.queue_number ==> {
            &&& final(net)@.tx_header == Some(old(chain)@[0]->0.buf)
            &&& final(net)@.rx_header == old(net)@.rx_header
        },
        final(chain)@.len() == old(chain)@.len(),
        final(chain)@[0] is None,
        final(chain)@[1] is None,
        forall|k: int| 2 <= k < old(chain)@.len() ==> #[trigger] final(chain)@[k] == old(chain)@[k],
        final(net)@.rxqueue == old(net)@.rxqueue,
        final(net)@.txqueue == old(net)@.txqueue,
        final(net)@.rx_buffer == old(net)@.rx_buffer,
        final(net)@.client == old(net)@.client,
        final(net)@.id == old(net)@.id,
{
}

/// From sending a packet to being told of it: once the device has returned the
/// slot that it was given, the interrupt delivers the chain, and by it the driver
/// gets its header back, and the client the very packet.
pub proof fn law_sent_packet_is_told_to_client<'a, 'b>(
    net: &mut VirtIONet<'a, 'b>,
    packet: SharedSlice<'b>,
    packet_len: usize,
    notification: QueueNotification<'a>,
    queue: &mut SplitVirtQueue<'a, 'b>,
    used: Option<UsedChain<'a, 'b>>,
    later: &mut VirtIONet<'a, 'b>,
    chain: &mut [Option<VirtQueueBuffer<'b>>],
    event: Option<NetEvent<'a, 'b>>,
)
    requires
        old(net).wf(),
        old(net)@.txqueue.inv(),
        old(net)@.txqueue.ring.len < old(net)@.txqueue.ring.capacity,
        call_ensures(VirtIONet::send_packet, (net, packet, packet_len), Ok(notification)),
        old(queue).wf(),
        old(queue)@ == (QueueView { used: old(queue)@.used, ..final(net)@.txqueue }),
        old(queue)@.used.idx == old(queue)@.last_used_idx.wrapping_add(1),
        old(queue)@.used.ring[old(queue)@.last_used_idx as int % old(
            queue,
        )@.max_elements as int].id == old(net)@.txqueue.free_slots()[0],
        call_ensures(
            <SplitVirtQueue<'a, 'b> as VirtQueue<'a, 'b>>::used_interrupt,
            (queue,),
            used,
        ),
        old(later)@ == (NetView { txqueue: final(queue)@, ..final(net)@ }),
        old(later)@.rxqueue.queue_number != old(later)@.txqueue.queue_number,
        old(chain)@ == used->0.buffer_chain@,
        call_ensures(
            VirtIONet::buffer_chain_ready,
            (later, used->0.queue_number, chain, used->0.bytes_used),
            event,
        ),
    ensures
        used is Some,
        used->0.client == old(net)@.txqueue.client,
        event is Some <==> old(net)@.client is Some,
        event is Some ==> {
            &&& event->0 is PacketSent
            &&& event->0->PacketSent_id == old(net)@.id
            &&& event->0->PacketSent_buffer == packet
        },
        final(later)@.tx_header is Some,
        final(later)@.tx_header->0.addr == old(net)@.tx_header->0.addr,
        final(later)@.txqueue.free_slots() == old(net)@.txqueue.free_slots(),
{
    let before = old(net)@.txqueue;
    let head = before.free_slots()[0];
    let next = before.free_slots()[1];
    let header = final(net)@.txqueue.buffers[head]->0;
    effects::law_free_slots_hold_no_slice(before);
    assert(0 <= head < next < 2);
    law_transmit_chain_in_memory(before, header, packet, packet_len);
    assert(1u16 & 1 != 0 && 0u16 & 1 == 0) by (bit_vector);
    effects::law_pending_is_how_far_used_index_is_ahead(old(queue)@);
    old(queue).lemma_wf_inv();
    effects::law_what_can_be_taken_back(old(queue)@);
    effects::law_interrupt_delivers_what_device_returned(queue, used);
    effects::law_taken_chain_in_memory(old(queue)@);
    let after = final(queue)@;
    assert(after.buffers =~= before.buffers) by {
        assert forall|i: int| 0 <= i < 2 implies after.buffers[i] == before.buffers[i] by {
            assert(i == head || i == next);
            assert(after.descriptors[i].addr == 0);
        }
    }
}

/// From putting a receive buffer into the queue to being told of a packet in it:
/// once the device has returned the slot that it was given, the interrupt delivers
/// the chain, and by it the driver gets its header back, and the client the very
/// buffer, with what the device wrote to it behind the header.
pub proof fn law_received_packet_is_told_to_client<'a, 'b>(
    net: &mut VirtIONet<'a, 'b>,
    notification: QueueNotification<'a>,
    queue: &mut SplitVirtQueue<'a, 'b>,
    used: Option<UsedChain<'a, 'b>>,
    later: &mut VirtIONet<'a, 'b>,
    chain: &mut [Option<VirtQueueBuffer<'b>>],
    event: Option<NetEvent<'a, 'b>>,
)
    requires
        old(net)@.rxqueue.inv(),
        old(net)@.rxqueue.ring.len < old(net)@.rxqueue.ring.capacity,
        old(net)@.rxqueue.free_slots().len() >= 2,
        old(net)@.rx_header is Some,
        old(net)@.rx_buffer is Some,
        old(net)@.rx_buffer->0.bytes@.len() <= usize::MAX,
        call_ensures(VirtIONet::initialize_rx, (net,), notification),
        old(queue).wf(),
        old(queue)@ == (QueueView { used: old(queue)@.used, ..final(net)@.rxqueue }),
        old(queue)@.used.idx == old(queue)@.last_used_idx.wrapping_add(1),
        old(queue)@.used.ring[old(queue)@.last_used_idx as int % old(
            queue,
        )@.max_elements as int].id == old(net)@.rxqueue.free_slots()[0],
        old(queue)@.used.ring[old(queue)@.last_used_idx as int % old(
            queue,
        )@.max_elements as int].len >= 12,
        call_ensures(
            <SplitVirtQueue<'a, 'b> as VirtQueue<'a, 'b>>::used_interrupt,
            (queue,),
            used,
        ),
        old(later)@ == (NetView { rxqueue: final(queue)@, ..final(net)@ }),
        old(chain)@ == used->0.buffer_chain@,
        call_ensures(
            VirtIONet::buffer_chain_ready,
            (later, used->0.queue_number, chain, used->0.bytes_used),
            event,
        ),
    ensures
        used is Some,
        used->0.client == old(net)@.rxqueue.client,
        event is Some <==> old(net)@.client is Some,
        event is Some ==> {
            &&& event->0 is PacketReceived
            &&& event->0->PacketReceived_id == old(net)@.id
            &&& event->0->PacketReceived_buffer == old(net)@.rx_buffer->0
            &&& event->0->len + 12 == old(queue)@.used.ring[old(queue)@.last_used_idx as int % old(
                queue,
            )@.max_elements as int].len
        },
        final(later)@.rx_header == old(net)@.rx_header,
        final(later)@.rxqueue.free_slots() == old(net)@.rxqueue.free_slots(),
{
    let before = old(net)@.rxqueue;
    let head = before.free_slots()[0];
    let next = before.free_slots()[1];
    effects::law_free_slots_hold_no_slice(before);
    assert(0 <= head < next < 2);
    law_receive_chain_in_memory(before, old(net)@.rx_header->0, old(net)@.rx_buffer->0);
    assert(3u16 & 1 != 0 && 2u16 & 1 == 0) by (bit_vector);
    effects::law_pending_is_how_far_used_index_is_ahead(old(queue)@);
    old(queue).lemma_wf_inv();
    effects::law_what_can_be_taken_back(old(queue)@);
    effects::law_interrupt_delivers_what_device_returned(queue, used);
    effects::law_taken_chain_in_memory(old(queue)@);
    let after = final(queue)@;
    assert(after.buffers =~= before.buffers) by {
        assert forall|i: int| 0 <= i < 2 implies after.buffers[i] == before.buffers[i] by {
            assert(i == head || i == next);
            assert(after.descriptors[i].addr == 0);
        }
    }
}

/// A card asks a device for its MAC address, which is feature bit 5, and for
/// nothing else, takes every device that offers it, and is a network card.
pub proof fn law_card_asks_for_mac_address<'a, 'b>(
    net: VirtIONet<'a, 'b>,
    offered_features: u64,
    features: u64,
    device_type: VirtIODeviceType,
)
    requires
        call_ensures(
            <VirtIONet<'a, 'b> as VirtIODriver>::negotiate_features,
            (&net, offered_features),
            features,
        ),
        call_ensures(<VirtIONet<'a, 'b> as VirtIODriver>::device_type, (&net,), device_type),
    ensures
        features == 32,
        net.accepts(offered_features) <==> offered_features & 32 != 0,
        device_type == VirtIODeviceType::NetworkCard,
{
}

/// A new card has its queues and its buffers at hand, and nobody to tell.
pub proof fn law_new_card_has_its_buffers_at_hand<'a, 'b>(
    id: usize,
    txqueue: SplitVirtQueue<'a, 'b>,
    tx_header: SharedSlice<'b>,
    rxqueue: SplitVirtQueue<'a, 'b>,
    rx_header: SharedSlice<'b>,
    rx_buffer: SharedSlice<'b>,
    net: VirtIONet<'a, 'b>,
)
    requires
        call_ensures(
            VirtIONet::new,
            (id, txqueue, tx_header, rxqueue, rx_header, rx_buffer),
            net,
        ),
    ensures
        net@.id == id,
        net@.txqueue == txqueue@,
        net@.tx_header == Some(tx_header),
        net@.rxqueue == rxqueue@,
        net@.rx_header == Some(rx_header),
        net@.rx_buffer == Some(rx_buffer),
        net@.client is None,
{
}

/// A card shows its own parts.
pub proof fn law_card_shows_its_parts<'a, 'b>(
    net: VirtIONet<'a, 'b>,
    id: usize,
    rxqueue: &SplitVirtQueue<'a, 'b>,
    txqueue: &SplitVirtQueue<'a, 'b>,
    tx_header: &Option<SharedSlice<'b>>,
    rx_header: &Option<SharedSlice<'b>>,
    rx_buffer: &Option<SharedSlice<'b>>,
    has_client: bool,
)
    requires
        call_ensures(VirtIONet::id, (&net,), id),
        call_ensures(VirtIONet::rxqueue, (&net,), rxqueue),
        call_ensures(VirtIONet::txqueue, (&net,), txqueue),
        call_ensures(VirtIONet::tx_header, (&net,), tx_header),
        call_ensures(VirtIONet::rx_header, (&net,), rx_header),
        call_ensures(VirtIONet::rx_buffer, (&net,), rx_buffer),
        call_ensures(VirtIONet::has_client, (&net,), has_client),
    ensures
        id == net@.id,
        rxqueue@ == net@.rxqueue,
        txqueue@ == net@.txqueue,
        *tx_header == net@.tx_header,
        *rx_header == net@.rx_header,
        *rx_buffer == net@.rx_buffer,
        has_client <==> net@.client is Some,
{
}

/// What is done to a queue that a card hands out is done to that queue of the card,
/// and to nothing else of it.
pub proof fn law_card_hands_out_its_queues<'a, 'b>(
    net: &mut VirtIONet<'a, 'b>,
    rxqueue: &mut SplitVirtQueue<'a, 'b>,
    other: &mut VirtIONet<'a, 'b>,
    txqueue: &mut SplitVirtQueue<'a, 'b>,
)
    requires
        call_ensures(VirtIONet::rxqueue_mut, (net,), rxqueue),
        call_ensures(VirtIONet::txqueue_mut, (other,), txqueue),
    ensures
        old(rxqueue)@ == old(net)@.rxqueue,
        final(net)@.rxqueue == final(rxqueue)@,
        final(net)@ == (NetView { rxqueue: final(net)@.rxqueue, ..old(net)@ }),
        old(txqueue)@ == old(other)@.txqueue,
        final(other)@.txqueue == final(txqueue)@,
        final(other)@ == (NetView { txqueue: final(other)@.txqueue, ..old(other)@ }),
{
}

} // verus!
