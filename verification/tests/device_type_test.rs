use tock_virtio::virtio::VirtIODeviceType;

#[test]
fn device_ids_round_trip() {
    for id in 1..=22u32 {
        let device_type = VirtIODeviceType::from_device_id(id).unwrap();
        assert_eq!(VirtIODeviceType::to_device_id(device_type), id);
    }
}

#[test]
fn device_ids_are_the_assigned_ones() {
    assert_eq!(VirtIODeviceType::to_device_id(VirtIODeviceType::NetworkCard), 1);
    assert_eq!(VirtIODeviceType::to_device_id(VirtIODeviceType::EntropySource), 4);
    assert_eq!(VirtIODeviceType::to_device_id(VirtIODeviceType::Transport9P), 9);
    assert_eq!(VirtIODeviceType::to_device_id(VirtIODeviceType::MemoryDevice), 22);
    assert_eq!(
        VirtIODeviceType::from_device_id(16),
        Some(VirtIODeviceType::InputDevice)
    );
    assert_eq!(
        VirtIODeviceType::from_device_id(19),
        Some(VirtIODeviceType::SignalDistributionModule)
    );
}

#[test]
fn unknown_device_ids_have_no_type() {
    assert_eq!(VirtIODeviceType::from_device_id(0), None);
    assert_eq!(VirtIODeviceType::from_device_id(23), None);
    assert_eq!(VirtIODeviceType::from_device_id(u32::MAX), None);
}
