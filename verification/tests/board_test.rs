use tock_virtio::board::{
    discover_peripherals, DriverNumbers, PlatformDriver, QemuRv32VirtPlatform, VirtIOPeripherals,
};
use tock_virtio::virtio::VirtIODeviceType;

#[test]
fn nothing_is_found_on_an_empty_bus() {
    assert_eq!(
        discover_peripherals(&[]),
        VirtIOPeripherals { net: None, rng: None }
    );
    assert_eq!(
        discover_peripherals(&[None, Some(VirtIODeviceType::BlockDevice), None]),
        VirtIOPeripherals { net: None, rng: None }
    );
}

#[test]
fn the_higher_indexed_instance_is_used() {
    let devices = [
        Some(VirtIODeviceType::NetworkCard),
        Some(VirtIODeviceType::EntropySource),
        None,
        Some(VirtIODeviceType::EntropySource),
        Some(VirtIODeviceType::Console),
        Some(VirtIODeviceType::NetworkCard),
        None,
        None,
    ];
    assert_eq!(
        discover_peripherals(&devices),
        VirtIOPeripherals { net: Some(5), rng: Some(3) }
    );
}

#[test]
fn system_calls_reach_the_drivers() {
    let numbers = DriverNumbers { console: 1, alarm: 0, low_level_debug: 8, rng: 0x40001 };
    let platform = QemuRv32VirtPlatform { numbers, virtio_rng: true };
    assert_eq!(platform.with_driver(1), Some(PlatformDriver::Console));
    assert_eq!(platform.with_driver(0), Some(PlatformDriver::Alarm));
    assert_eq!(platform.with_driver(8), Some(PlatformDriver::LowLevelDebug));
    assert_eq!(platform.with_driver(0x40001), Some(PlatformDriver::Rng));
    assert_eq!(platform.with_driver(2), None);
}

#[test]
fn randomness_needs_an_entropy_source() {
    let numbers = DriverNumbers { console: 1, alarm: 0, low_level_debug: 8, rng: 0x40001 };
    let platform = QemuRv32VirtPlatform { numbers, virtio_rng: false };
    assert_eq!(platform.with_driver(0x40001), None);
    assert_eq!(platform.with_driver(1), Some(PlatformDriver::Console));
}
