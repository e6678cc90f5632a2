use bluetooth::btinterface::{
    ConnectError, ConnectType, DisconnectError, ScanError, SendError, SubscribeError,
};
use bluetooth::driver::Platform;
use bluetooth::espimp::Esp32Imp;
use bluetooth::stdimp::StdImp;

#[test]
fn errors_say_what_is_wrong() {
    assert_eq!(ScanError::MissingPermission.message(), "missing permission");
    assert_eq!(ScanError::AdapterNotFound.message(), "adapter not found");
    assert_eq!(ConnectError::DeviceNotFound.message(), "device not found");
    assert_eq!(ConnectError::TargetRejected.message(), "target rejected");
    assert_eq!(SendError::Disconnected.message(), "disconnected");
    assert_eq!(
        SendError::BleCharaNotFound.message(),
        "ble characteristic not found"
    );
    assert_eq!(SendError::TooLong.message(), "data too long");
    assert_eq!(SubscribeError::Disconnected.message(), "disconnected");
    assert_eq!(
        SubscribeError::BleCharaNotFound.message(),
        "ble characteristic not found"
    );
    assert_eq!(DisconnectError::DeviceNotFound.message(), "device not found");
}

#[test]
fn the_transports_are_numbered() {
    assert_eq!(ConnectType::SPP as u8, 0);
    assert_eq!(ConnectType::BLE as u8, 1);
    assert_ne!(ConnectType::SPP, ConnectType::BLE);
}

#[test]
fn a_new_transport_knows_nothing() {
    for kind in [ConnectType::SPP, ConnectType::BLE] {
        let imp = StdImp::new(kind, Platform::Linux);
        assert_eq!(imp.connect_type(), kind);
        assert!(!imp.is_scanning());
        assert!(imp.ble_default_recv_uuid().is_none());
        assert!(imp.ble_default_sent_uuid().is_none());
        assert!(imp.ble_default_service_uuid().is_none());
    }
    assert_eq!(format!("{:?}", Esp32Imp), "Esp32Imp");
}
