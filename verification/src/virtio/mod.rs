//! Device types and the interfaces between transports, queues and drivers.

pub mod devices;
pub mod queues;

use crate::virtio::queues::split_queue::UsedChain;
use vstd::prelude::*;

verus! {

/// The kinds of devices that VirtIO assigns an identifier to.
#[derive(Debug, Clone, Copy, PartialEq, Eq, Structural)]
pub enum VirtIODeviceType {
    NetworkCard,
    BlockDevice,
    Console,
    EntropySource,
    TraditionalMemoryBallooning,
    IoMemory,
    RPMSG,
    SCSIHost,
    Transport9P,
    Mac80211Wlan,
    RPROCSerial,
    VirtIOCAIF,
    MemoryBalloon,
    GPUDevice,
    TimerClockDevice,
    InputDevice,
    SocketDevice,
    CryptoDevice,
    SignalDistributionModule,
    PstoreDevice,
    IOMMUDevice,
    MemoryDevice,
}

impl VirtIODeviceType {
    /// The identifier of a device type.
    pub open spec fn device_id(self) -> u32 {
        match self {
            VirtIODeviceType::NetworkCard => 1,
            VirtIODeviceType::BlockDevice => 2,
            VirtIODeviceType::Console => 3,
            VirtIODeviceType::EntropySource => 4,
            VirtIODeviceType::TraditionalMemoryBallooning => 5,
            VirtIODeviceType::IoMemory => 6,
            VirtIODeviceType::RPMSG => 7,
            VirtIODeviceType::SCSIHost => 8,
            VirtIODeviceType::Transport9P => 9,
            VirtIODeviceType::Mac80211Wlan => 10,
            VirtIODeviceType::RPROCSerial => 11,
            VirtIODeviceType::VirtIOCAIF => 12,
            VirtIODeviceType::MemoryBalloon => 13,
            VirtIODeviceType::GPUDevice => 14,
            VirtIODeviceType::TimerClockDevice => 15,
            VirtIODeviceType::InputDevice => 16,
            VirtIODeviceType::SocketDevice => 17,
            VirtIODeviceType::CryptoDevice => 18,
            VirtIODeviceType::SignalDistributionModule => 19,
            VirtIODeviceType::PstoreDevice => 20,
            VirtIODeviceType::IOMMUDevice => 21,
            VirtIODeviceType::MemoryDevice => 22,
        }
    }

    /// The device type with the given identifier, if it is a known one.
    pub fn from_device_id(id: u32) -> (device_type: Option<VirtIODeviceType>)
        ensures
            device_type is Some <==> 1 <= id <= 22,
            device_type is Some ==> device_type->0.device_id() == id,
    {
        match id {
            1 => Some(VirtIODeviceType::NetworkCard),
            2 => Some(VirtIODeviceType::BlockDevice),
            3 => Some(VirtIODeviceType::Console),
            4 => Some(VirtIODeviceType::EntropySource),
            5 => Some(VirtIODeviceType::TraditionalMemoryBallooning),
            6 => Some(VirtIODeviceType::IoMemory),
            7 => Some(VirtIODeviceType::RPMSG),
            8 => Some(VirtIODeviceType::SCSIHost),
            9 => Some(VirtIODeviceType::Transport9P),
            10 => Some(VirtIODeviceType::Mac80211Wlan),
            11 => Some(VirtIODeviceType::RPROCSerial),
            12 => Some(VirtIODeviceType::VirtIOCAIF),
            13 => Some(VirtIODeviceType::MemoryBalloon),
            14 => Some(VirtIODeviceType::GPUDevice),
            15 => Some(VirtIODeviceType::TimerClockDevice),
            16 => Some(VirtIODeviceType::InputDevice),
            17 => Some(VirtIODeviceType::SocketDevice),
            18 => Some(VirtIODeviceType::CryptoDevice),
            19 => Some(VirtIODeviceType::SignalDistributionModule),
            20 => Some(VirtIODeviceType::PstoreDevice),
            21 => Some(VirtIODeviceType::IOMMUDevice),
            22 => Some(VirtIODeviceType::MemoryDevice),
            _ => None,
        }
    }

    /// The identifier that the given device type has.
    pub fn to_device_id(device_type: VirtIODeviceType) -> (id: u32)
        ensures
            id == device_type.device_id(),
    {
        match device_type {
            VirtIODeviceType::NetworkCard => 1,
            VirtIODeviceType::BlockDevice => 2,
            VirtIODeviceType::Console => 3,
            VirtIODeviceType::EntropySource => 4,
            VirtIODeviceType::TraditionalMemoryBallooning => 5,
            VirtIODeviceType::IoMemory => 6,
            VirtIODeviceType::RPMSG => 7,
            VirtIODeviceType::SCSIHost => 8,
            VirtIODeviceType::Transport9P => 9,
            VirtIODeviceType::Mac80211Wlan => 10,
            VirtIODeviceType::RPROCSerial => 11,
            VirtIODeviceType::VirtIOCAIF => 12,
            VirtIODeviceType::MemoryBalloon => 13,
            VirtIODeviceType::GPUDevice => 14,
            VirtIODeviceType::TimerClockDevice => 15,
            VirtIODeviceType::InputDevice => 16,
            VirtIODeviceType::SocketDevice => 17,
            VirtIODeviceType::CryptoDevice => 18,
            VirtIODeviceType::SignalDistributionModule => 19,
            VirtIODeviceType::PstoreDevice => 20,
            VirtIODeviceType::IOMMUDevice => 21,
            VirtIODeviceType::MemoryDevice => 22,
        }
    }
}

/// Distinct device types have distinct identifiers, all of them known ones, so
/// that converting to an identifier and back gives the same device type.
pub proof fn law_device_ids_identify_device_types(a: VirtIODeviceType, b: VirtIODeviceType)
    ensures
        1 <= a.device_id() <= 22,
        a.device_id() == b.device_id() <==> a == b,
{
}

/// The identifiers are the ones that VirtIO assigns.
pub proof fn law_device_ids_are_the_assigned_ones()
    ensures
        VirtIODeviceType::NetworkCard.device_id() == 1,
        VirtIODeviceType::BlockDevice.device_id() == 2,
        VirtIODeviceType::Console.device_id() == 3,
        VirtIODeviceType::EntropySource.device_id() == 4,
        VirtIODeviceType::TraditionalMemoryBallooning.device_id() == 5,
        VirtIODeviceType::IoMemory.device_id() == 6,
        VirtIODeviceType::RPMSG.device_id() == 7,
        VirtIODeviceType::SCSIHost.device_id() == 8,
        VirtIODeviceType::Transport9P.device_id() == 9,
        VirtIODeviceType::Mac80211Wlan.device_id() == 10,
        VirtIODeviceType::RPROCSerial.device_id() == 11,
        VirtIODeviceType::VirtIOCAIF.device_id() == 12,
        VirtIODeviceType::MemoryBalloon.device_id() == 13,
        VirtIODeviceType::GPUDevice.device_id() == 14,
        VirtIODeviceType::TimerClockDevice.device_id() == 15,
        VirtIODeviceType::InputDevice.device_id() == 16,
        VirtIODeviceType::SocketDevice.device_id() == 17,
        VirtIODeviceType::CryptoDevice.device_id() == 18,
        VirtIODeviceType::SignalDistributionModule.device_id() == 19,
        VirtIODeviceType::PstoreDevice.device_id() == 20,
        VirtIODeviceType::IOMMUDevice.device_id() == 21,
        VirtIODeviceType::MemoryDevice.device_id() == 22,
{
}

/// Looking an identifier up finds the device type that VirtIO assigns it to, and
/// finds nothing for an identifier that is not assigned.
pub proof fn law_from_device_id_finds_assigned_type(id: u32, found: Option<VirtIODeviceType>)
    requires
        call_ensures(VirtIODeviceType::from_device_id, (id,), found),
    ensures
        id == 1 ==> found == Some(VirtIODeviceType::NetworkCard),
        id == 2 ==> found == Some(VirtIODeviceType::BlockDevice),
        id == 3 ==> found == Some(VirtIODeviceType::Console),
        id == 4 ==> found == Some(VirtIODeviceType::EntropySource),
        id == 5 ==> found == Some(VirtIODeviceType::TraditionalMemoryBallooning),
        id == 6 ==> found == Some(VirtIODeviceType::IoMemory),
        id == 7 ==> found == Some(VirtIODeviceType::RPMSG),
        id == 8 ==> found == Some(VirtIODeviceType::SCSIHost),
        id == 9 ==> found == Some(VirtIODeviceType::Transport9P),
        id == 10 ==> found == Some(VirtIODeviceType::Mac80211Wlan),
        id == 11 ==> found == Some(VirtIODeviceType::RPROCSerial),
        id == 12 ==> found == Some(VirtIODeviceType::VirtIOCAIF),
        id == 13 ==> found == Some(VirtIODeviceType::MemoryBalloon),
        id == 14 ==> found == Some(VirtIODeviceType::GPUDevice),
        id == 15 ==> found == Some(VirtIODeviceType::TimerClockDevice),
        id == 16 ==> found == Some(VirtIODeviceType::InputDevice),
        id == 17 ==> found == Some(VirtIODeviceType::SocketDevice),
        id == 18 ==> found == Some(VirtIODeviceType::CryptoDevice),
        id == 19 ==> found == Some(VirtIODeviceType::SignalDistributionModule),
        id == 20 ==> found == Some(VirtIODeviceType::PstoreDevice),
        id == 21 ==> found == Some(VirtIODeviceType::IOMMUDevice),
        id == 22 ==> found == Some(VirtIODeviceType::MemoryDevice),
        id == 0 || id > 22 ==> found is None,
{
}

/// The identifier of a device type is the one that VirtIO assigns to it.
pub proof fn law_to_device_id_gives_assigned_id(device_type: VirtIODeviceType, id: u32)
    requires
        call_ensures(VirtIODeviceType::to_device_id, (device_type,), id),
    ensures
        device_type == VirtIODeviceType::NetworkCard ==> id == 1,
        device_type == VirtIODeviceType::BlockDevice ==> id == 2,
        device_type == VirtIODeviceType::Console ==> id == 3,
        device_type == VirtIODeviceType::EntropySource ==> id == 4,
        device_type == VirtIODeviceType::TraditionalMemoryBallooning ==> id == 5,
        device_type == VirtIODeviceType::IoMemory ==> id == 6,
        device_type == VirtIODeviceType::RPMSG ==> id == 7,
        device_type == VirtIODeviceType::SCSIHost ==> id == 8,
        device_type == VirtIODeviceType::Transport9P ==> id == 9,
        device_type == VirtIODeviceType::Mac80211Wlan ==> id == 10,
        device_type == VirtIODeviceType::RPROCSerial ==> id == 11,
        device_type == VirtIODeviceType::VirtIOCAIF ==> id == 12,
        device_type == VirtIODeviceType::MemoryBalloon ==> id == 13,
        device_type == VirtIODeviceType::GPUDevice ==> id == 14,
        device_type == VirtIODeviceType::TimerClockDevice ==> id == 15,
        device_type == VirtIODeviceType::InputDevice ==> id == 16,
        device_type == VirtIODeviceType::SocketDevice ==> id == 17,
        device_type == VirtIODeviceType::CryptoDevice ==> id == 18,
        device_type == VirtIODeviceType::SignalDistributionModule ==> id == 19,
        device_type == VirtIODeviceType::PstoreDevice ==> id == 20,
        device_type == VirtIODeviceType::IOMMUDevice ==> id == 21,
        device_type == VirtIODeviceType::MemoryDevice ==> id == 22,
{
}

/// Looking up the identifier of a device type finds that device type.
pub proof fn law_device_type_survives_its_id(
    device_type: VirtIODeviceType,
    id: u32,
    found: Option<VirtIODeviceType>,
)
    requires
        call_ensures(VirtIODeviceType::to_device_id, (device_type,), id),
        call_ensures(VirtIODeviceType::from_device_id, (id,), found),
    ensures
        found == Some(device_type),
{
}

/// Where the three parts of a queue lie in physical memory.
#[derive(Debug, Clone, Copy, PartialEq, Eq, Structural)]
pub struct VirtQueueAddresses {
    pub descriptor_area: u64,
    pub driver_area: u64,
    pub device_area: u64,
}

/// The way to a device: discovery, feature and queue setup, and the doorbell
/// that tells the device to look at a queue.
pub trait VirtIOTransport {
    /// The type of the device behind this transport, if there is one.
    fn query(&self) -> Option<VirtIODeviceType>;

    /// Negotiates with the device on behalf of `driver` and hands it `queues`.
    ///
    /// The transport keeps the queues, to pass the interrupts of the device on to
    /// them from then on.
    fn initialize(
        &self,
        driver: &dyn VirtIODriver,
        queues: &'static mut [&'static mut dyn VirtQueue<'static, 'static>],
    ) -> VirtIODeviceType;

    /// Tells the device that there is work in the given queue.
    fn queue_notify(&self, queue_id: u32);
}

/// A notification that is due: once the queue is written out to the memory that
/// the device reads, the device is to be told of it through the transport.
#[must_use]
pub struct QueueNotification<'a> {
    pub transport: &'a dyn VirtIOTransport,
    pub queue_id: u32,
}

/// What a transport needs of a queue, whatever its format.
pub trait VirtQueue<'a, 'b> {
    /// The queue can be set up: it was not handed to the device yet.
    open spec fn startable(&self) -> bool {
        true
    }

    /// The queue was handed to the device.
    open spec fn started(&self) -> bool {
        true
    }

    /// What the device wrote last is something that can be delivered.
    open spec fn deliverable(&self) -> bool {
        true
    }

    /// Where the parts of the queue lie in physical memory.
    fn physical_addresses(&self) -> VirtQueueAddresses;

    /// Settles on a queue size, given the largest one that the device takes.
    fn negotiate_queue_size(&mut self, device_max_elements: usize) -> usize
        requires
            old(self).startable(),
    ;

    /// Starts operation under the given number.
    fn initialize(&mut self, queue_number: u32)
        requires
            old(self).startable(),
    ;

    /// Takes the next chain that the device returned and that is due to the
    /// client.
    ///
    /// An interrupt is served by calling this, and passing each chain on to the
    /// client, until there is none.
    fn used_interrupt(&mut self) -> Option<UsedChain<'a, 'b>>
        requires
            old(self).deliverable(),
    ;

    /// The queue size that was settled on.
    fn negotiated_queue_size(&self) -> usize
        requires
            self.started(),
    ;
}

/// What a transport needs of a device driver.
pub trait VirtIODriver {
    /// The driver can work with a device that offers these features.
    open spec fn accepts(&self, offered_features: u64) -> bool {
        true
    }

    /// Chooses among the features that the device offers.
    fn negotiate_features(&self, offered_features: u64) -> u64
        requires
            self.accepts(offered_features),
    ;

    /// The type of the devices that the driver is for.
    fn device_type(&self) -> VirtIODeviceType;
}

} // verus!
