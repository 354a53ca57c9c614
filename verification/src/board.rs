//! The choices of a board with VirtIO peripherals: which of the devices it
//! finds it uses, and which driver serves a system call.

use crate::virtio::VirtIODeviceType;
use vstd::prelude::*;

verus! {

/// The indices of the transports behind which supported devices were found.
#[derive(Debug, Clone, Copy, PartialEq, Eq, Structural)]
pub struct VirtIOPeripherals {
    pub net: Option<usize>,
    pub rng: Option<usize>,
}

/// The index is that of the last device of the given type, if there is one.
pub open spec fn is_last_of_type(
    devices: Seq<Option<VirtIODeviceType>>,
    device_type: VirtIODeviceType,
    index: Option<usize>,
) -> bool {
    match index {
        Some(i) => {
            &&& i < devices.len()
            &&& devices[i as int] == Some(device_type)
            &&& forall|j: int| i < j < devices.len() ==> #[trigger] devices[j] != Some(device_type)
        },
        None => forall|j: int|
            0 <= j < devices.len() ==> #[trigger] devices[j] != Some(device_type),
    }
}

/// Collects the supported peripherals among what each transport was found to
/// have behind it.
///
/// If there are two instances of a supported peripheral, the one on a
/// higher-indexed transport is used.
pub fn discover_peripherals(devices: &[Option<VirtIODeviceType>]) -> (found: VirtIOPeripherals)
    ensures
        is_last_of_type(devices@, VirtIODeviceType::NetworkCard, found.net),
        is_last_of_type(devices@, VirtIODeviceType::EntropySource, found.rng),
{
    let mut net: Option<usize> = None;
    let mut rng: Option<usize> = None;
    let mut i: usize = 0;
    while i < devices.len()
        invariant
            i <= devices@.len(),
            is_last_of_type(devices@.take(i as int), VirtIODeviceType::NetworkCard, net),
            is_last_of_type(devices@.take(i as int), VirtIODeviceType::EntropySource, rng),
        decreases devices@.len() - i,
    {
        match devices[i] {
            Some(VirtIODeviceType::NetworkCard) => {
                net = Some(i);
            },
            Some(VirtIODeviceType::EntropySource) => {
                rng = Some(i);
            },
            _ => {},
        }
        assert(devices@.take(i + 1) =~= devices@.take(i as int).push(devices@[i as int]));
        i = i + 1;
    }
    assert(devices@.take(i as int) =~= devices@);
    VirtIOPeripherals { net, rng }
}

/// The numbers under which processes know the drivers.
#[derive(Debug, Clone, Copy, PartialEq, Eq, Structural)]
pub struct DriverNumbers {
    pub console: usize,
    pub alarm: usize,
    pub low_level_debug: usize,
    pub rng: usize,
}

/// A driver that serves system calls.
#[derive(Debug, Clone, Copy, PartialEq, Eq, Structural)]
pub enum PlatformDriver {
    Console,
    Alarm,
    LowLevelDebug,
    Rng,
}

/// The drivers of this platform. There is one for randomness only where an
/// entropy source was found.
#[derive(Debug, Clone, Copy, PartialEq, Eq, Structural)]
pub struct QemuRv32VirtPlatform {
    pub numbers: DriverNumbers,
    pub virtio_rng: bool,
}

impl QemuRv32VirtPlatform {
    /// Maps the number of a system call driver to the driver, if there is one.
    pub fn with_driver(&self, driver_num: usize) -> (driver: Option<PlatformDriver>)
        ensures
            driver == if driver_num == self.numbers.console {
                Some(PlatformDriver::Console)
            } else if driver_num == self.numbers.alarm {
                Some(PlatformDriver::Alarm)
            } else if driver_num == self.numbers.low_level_debug {
                Some(PlatformDriver::LowLevelDebug)
            } else if driver_num == self.numbers.rng && self.virtio_rng {
                Some(PlatformDriver::Rng)
            } else {
                None
            },
    {
        if driver_num == self.numbers.console {
            Some(PlatformDriver::Console)
        } else if driver_num == self.numbers.alarm {
            Some(PlatformDriver::Alarm)
        } else if driver_num == self.numbers.low_level_debug {
            Some(PlatformDriver::LowLevelDebug)
        } else if driver_num == self.numbers.rng {
            if self.virtio_rng {
                Some(PlatformDriver::Rng)
            } else {
                None
            }
        } else {
            None
        }
    }
}

/// A peripheral is found where one of its type is that no other one of its type
/// comes after, and is not found only if there is none of its type.
pub proof fn law_last_peripheral_of_each_type_is_used(
    devices: &[Option<VirtIODeviceType>],
    found: VirtIOPeripherals,
    i: usize,
)
    requires
        call_ensures(discover_peripherals, (devices,), found),
    ensures
        found.net == Some(i) <==> i < devices@.len() && devices@[i as int] == Some(
            VirtIODeviceType::NetworkCard,
        ) && (forall|j: int|
            i < j < devices@.len() ==> #[trigger] devices@[j] != Some(
                VirtIODeviceType::NetworkCard,
            )),
        found.rng == Some(i) <==> i < devices@.len() && devices@[i as int] == Some(
            VirtIODeviceType::EntropySource,
        ) && (forall|j: int|
            i < j < devices@.len() ==> #[trigger] devices@[j] != Some(
                VirtIODeviceType::EntropySource,
            )),
        i < devices@.len() && devices@[i as int] == Some(VirtIODeviceType::NetworkCard)
            ==> found.net is Some && found.net->0 >= i,
        i < devices@.len() && devices@[i as int] == Some(VirtIODeviceType::EntropySource)
            ==> found.rng is Some && found.rng->0 >= i,
{
}

/// A system call reaches the driver that has its number, where no driver that is
/// asked before has it too. The one for randomness is reached only where there is
/// an entropy source, and a number that no driver has reaches none.
pub proof fn law_system_call_reaches_driver_with_its_number(
    platform: QemuRv32VirtPlatform,
    driver_num: usize,
    driver: Option<PlatformDriver>,
)
    requires
        call_ensures(QemuRv32VirtPlatform::with_driver, (&platform, driver_num), driver),
    ensures
        driver == Some(PlatformDriver::Console) <==> driver_num == platform.numbers.console,
        driver == Some(PlatformDriver::Alarm) <==> driver_num == platform.numbers.alarm
            && driver_num != platform.numbers.console,
        driver == Some(PlatformDriver::LowLevelDebug) <==> driver_num
            == platform.numbers.low_level_debug && driver_num != platform.numbers.console
            && driver_num != platform.numbers.alarm,
        driver == Some(PlatformDriver::Rng) <==> driver_num == platform.numbers.rng
            && platform.virtio_rng && driver_num != platform.numbers.console && driver_num
            != platform.numbers.alarm && driver_num != platform.numbers.low_level_debug,
{
}

} // verus!
