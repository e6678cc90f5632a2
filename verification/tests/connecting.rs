use bluetooth::ble::{BluestDevice, BluestService, Characteristic, Uuid};
use bluetooth::btinterface::{
    ConnectError, ConnectType, DisconnectError, SendError, SubscribeError,
};
use bluetooth::driver::{Heard, Listener, Peer, Platform, Reply, ScanOpening};
use bluetooth::stdimp::adapter::AdapterStep;
use bluetooth::stdimp::connect::ConnectStep;
use bluetooth::stdimp::disconnect::DisconnectStep;
use bluetooth::stdimp::discovery::{ExtractStep, LookupStep};
use bluetooth::stdimp::listener::ListenerStep;
use bluetooth::stdimp::notify::NotifyStep;
use bluetooth::stdimp::send::SendStep;
use bluetooth::stdimp::subscribe::SubscribeStep;
use bluetooth::stdimp::{BleCharacteristicBundle, StdImp};

const ADDR: &str = "12:34:56:78:9A:BC";

fn uuid(short: u128) -> Uuid {
    Uuid::from_u128((short << 96) | 0x1000_8000_00805f9b34fb)
}

fn chara(short: u128, handle: u64) -> Characteristic {
    Characteristic { uuid: uuid(short), handle }
}

fn service(short: u128, handle: u64) -> BluestService {
    BluestService { uuid: uuid(short), handle }
}

fn peer(handle: u64, id: &str) -> Peer {
    Peer {
        device: BluestDevice { handle },
        id: id.to_string(),
        name: None,
    }
}

fn ble(platform: Platform) -> StdImp {
    StdImp::new(ConnectType::BLE, platform)
}

/// Drives a connecting up to the services, with every call succeeding.
fn connect_to_services(imp: &mut StdImp, addr: &str, handle: u64) -> ConnectStep {
    let mut step = imp.connect(addr.to_string());
    loop {
        let reply = match &step {
            ConnectStep::BleDiscoverServices { .. } | ConnectStep::Finished(_) => return step,
            ConnectStep::BleOpenScan { .. } => Reply::Scan(ScanOpening::Started),
            ConnectStep::BleNextAdvertisement { .. } => {
                Reply::Heard(Heard::Found(peer(handle, addr)))
            }
            ConnectStep::BleQueryConnected { .. } => Reply::Peers(None),
            _ => Reply::Flag(true),
        };
        step = imp.connect_step(step, reply);
    }
}

/// Connects to a device with one Xiaomi service that has these characteristics.
fn connect_with(imp: &mut StdImp, chars: Vec<Characteristic>) -> ConnectStep {
    let step = connect_to_services(imp, ADDR, 1);
    let services = vec![service(0x1800, 10), service(0xfe95, 11)];
    let step = imp.connect_step(step, Reply::Services(Some(services)));
    match &step {
        ConnectStep::BleDiscoverCharacteristics { index, .. } => assert_eq!(*index, 1),
        other => panic!("{:?}", other),
    }
    imp.connect_step(step, Reply::Characteristics(Some(chars)))
}

fn connected(platform: Platform) -> StdImp {
    let mut imp = ble(platform);
    let step = connect_with(
        &mut imp,
        vec![chara(0x5e, 1), chara(0x5f, 2), chara(0x50, 3)],
    );
    assert!(matches!(step, ConnectStep::Finished(Ok(()))));
    imp
}

// ---- Connecting ----

#[test]
fn the_classic_transport_connects() {
    for (answer, expected) in [
        (Some(true), Ok(())),
        (Some(false), Err(ConnectError::TargetRejected)),
        (None, Err(ConnectError::DeviceNotFound)),
    ] {
        let mut imp = StdImp::new(ConnectType::SPP, Platform::Linux);
        let step = imp.connect(ADDR.to_string());
        let step = imp.connect_step(step, Reply::Flag(true));
        match &step {
            ConnectStep::SppConnect { addr } => assert_eq!(addr, ADDR),
            other => panic!("{:?}", other),
        }
        match imp.connect_step(step, Reply::SppConnected(answer)) {
            ConnectStep::Finished(result) => assert_eq!(result, expected),
            other => panic!("{:?}", other),
        }
    }
}

#[test]
fn connecting_needs_the_classic_transport() {
    let mut imp = StdImp::new(ConnectType::SPP, Platform::Linux);
    let step = imp.connect(ADDR.to_string());
    let step = imp.connect_step(step, Reply::Flag(false));
    assert!(matches!(
        step,
        ConnectStep::Finished(Err(ConnectError::DeviceNotFound))
    ));
}

#[test]
fn android_does_not_connect_over_low_energy() {
    assert!(matches!(
        ble(Platform::Android).connect(ADDR.to_string()),
        ConnectStep::Finished(Err(ConnectError::DeviceNotFound))
    ));
}

#[test]
fn a_device_that_no_scan_has_found_is_searched_for() {
    let mut imp = ble(Platform::Linux);
    let step = imp.connect(ADDR.to_string());
    assert!(matches!(
        step,
        ConnectStep::BleAdapter { step: AdapterStep::LookUp, .. }
    ));
    let step = imp.connect_step(step, Reply::Flag(true));
    assert!(matches!(step, ConnectStep::BleOpenScan { .. }));
    let step = imp.connect_step(step, Reply::Scan(ScanOpening::Started));
    assert!(matches!(step, ConnectStep::BleCheckDeadline { .. }));
    let step = imp.connect_step(step, Reply::Flag(true));
    assert!(matches!(step, ConnectStep::BleNextAdvertisement { .. }));
    // Another device, then nothing, then the device in another case.
    let step = imp.connect_step(step, Reply::Heard(Heard::Found(peer(5, "12:34:56:78:9A:BD"))));
    assert!(matches!(step, ConnectStep::BleCheckDeadline { .. }));
    let step = imp.connect_step(step, Reply::Flag(true));
    let step = imp.connect_step(step, Reply::Heard(Heard::Ended));
    assert!(matches!(step, ConnectStep::BlePauseScan { .. }));
    let step = imp.connect_step(step, Reply::Done);
    let step = imp.connect_step(step, Reply::Flag(true));
    let step = imp.connect_step(step, Reply::Heard(Heard::Found(peer(6, "12:34:56:78:9a:bc"))));
    assert!(matches!(
        step,
        ConnectStep::BleConnectDevice { device: BluestDevice { handle: 6 } }
    ));

    // It is remembered under the address that was asked for.
    let step = imp.connect(ADDR.to_string());
    let step = imp.connect_step(step, Reply::Flag(true));
    assert!(matches!(
        step,
        ConnectStep::BleConnectDevice { device: BluestDevice { handle: 6 } }
    ));
    let step = imp.connect("12:34:56:78:9a:bc".to_string());
    let step = imp.connect_step(step, Reply::Flag(true));
    assert!(matches!(step, ConnectStep::BleOpenScan { .. }));
}

#[test]
fn the_search_gives_up() {
    for opening in [ScanOpening::AlreadyScanning, ScanOpening::Failed] {
        let mut imp = ble(Platform::Linux);
        let step = imp.connect(ADDR.to_string());
        let step = imp.connect_step(step, Reply::Flag(true));
        let step = imp.connect_step(step, Reply::Scan(opening));
        assert!(matches!(
            step,
            ConnectStep::Finished(Err(ConnectError::DeviceNotFound))
        ));
    }
    let mut imp = ble(Platform::Linux);
    let step = imp.connect(ADDR.to_string());
    let step = imp.connect_step(step, Reply::Flag(true));
    let step = imp.connect_step(step, Reply::Scan(ScanOpening::Started));
    let step = imp.connect_step(step, Reply::Flag(false));
    assert!(matches!(
        step,
        ConnectStep::Finished(Err(ConnectError::DeviceNotFound))
    ));
}

#[test]
fn without_a_radio_there_is_no_connection() {
    let mut imp = ble(Platform::Linux);
    let step = imp.connect(ADDR.to_string());
    let step = imp.connect_step(step, Reply::Flag(false));
    let step = imp.connect_step(step, Reply::Flag(false));
    assert!(matches!(
        step,
        ConnectStep::Finished(Err(ConnectError::DeviceNotFound))
    ));
}

#[test]
fn on_ios_a_connected_peripheral_is_used() {
    let mut imp = ble(Platform::Ios);
    let step = imp.connect("12-34-56-78-9a-bc".to_string());
    let step = imp.connect_step(step, Reply::Flag(true));
    assert!(matches!(step, ConnectStep::BleQueryConnected { .. }));
    let step = imp.connect_step(
        step,
        Reply::Peers(Some(vec![peer(1, "other"), peer(2, ADDR), peer(3, ADDR)])),
    );
    assert!(matches!(
        step,
        ConnectStep::BleIsConnected { device: BluestDevice { handle: 2 } }
    ));
    let step = imp.connect_step(step, Reply::Flag(true));
    assert!(matches!(step, ConnectStep::BlePollConnected { attempts: 0, .. }));
}

#[test]
fn the_probe_takes_the_first_that_is_named() {
    let peers = vec![peer(1, ""), peer(2, "Watch"), peer(3, ADDR), peer(4, "123456789abc")];
    let probe = |addr: &str| StdImp::ble_probe_connected_device_by_addr(&peers, addr);
    assert_eq!(probe("wATCH"), Some(BluestDevice { handle: 2 }));
    assert_eq!(probe(" watch "), Some(BluestDevice { handle: 2 }));
    assert_eq!(probe("123456789ABC"), Some(BluestDevice { handle: 3 }));
    assert_eq!(probe("nobody"), None);
    // The empty address is equal to the empty identifier, but not to another blank one.
    assert_eq!(probe(""), Some(BluestDevice { handle: 1 }));
    assert_eq!(probe("  "), None);
}

#[test]
fn on_ios_a_device_that_is_not_connected_is_searched_for() {
    for answer in [None, Some(vec![peer(1, "other")])] {
        let mut imp = ble(Platform::Ios);
        let step = imp.connect(ADDR.to_string());
        let step = imp.connect_step(step, Reply::Flag(true));
        let step = imp.connect_step(step, Reply::Peers(answer));
        assert!(matches!(step, ConnectStep::BleOpenScan { .. }));
    }
    let mut imp = ble(Platform::Ios);
    let step = imp.connect_step(
        ConnectStep::BleIsConnected { device: BluestDevice { handle: 9 } },
        Reply::Flag(false),
    );
    assert!(matches!(step, ConnectStep::BleConnectDevice { .. }));
}

#[test]
fn a_device_that_refuses_is_rejected() {
    let mut imp = ble(Platform::Linux);
    let device = BluestDevice { handle: 1 };
    let step = imp.connect_step(ConnectStep::BleConnectDevice { device }, Reply::Flag(false));
    assert!(matches!(
        step,
        ConnectStep::Finished(Err(ConnectError::TargetRejected))
    ));
    let step = imp.connect_step(
        ConnectStep::BleDiscoverServices { device },
        Reply::Services(None),
    );
    assert!(matches!(
        step,
        ConnectStep::Finished(Err(ConnectError::TargetRejected))
    ));
}

#[test]
fn a_device_is_asked_twenty_one_times() {
    let mut imp = ble(Platform::Linux);
    let mut step = ConnectStep::BlePollConnected {
        device: BluestDevice { handle: 1 },
        attempts: 0,
    };
    let mut polls: usize = 0;
    let mut pauses: usize = 0;
    loop {
        step = match step {
            ConnectStep::BlePollConnected { .. } => {
                polls += 1;
                imp.connect_step(step, Reply::Flag(false))
            }
            ConnectStep::BlePausePoll { .. } => {
                pauses += 1;
                imp.connect_step(step, Reply::Done)
            }
            ConnectStep::BlePair { .. } => break,
            other => panic!("{:?}", other),
        };
    }
    assert_eq!((polls, pauses), (21, 20));
    // Failing to pair does no harm.
    let step = imp.connect_step(step, Reply::Flag(false));
    assert!(matches!(step, ConnectStep::BleDiscoverServices { .. }));
}

#[test]
fn a_connection_has_its_characteristics_at_hand() {
    let mut imp = connected(Platform::Linux);
    assert_eq!(imp.ble_default_recv_uuid(), Some(uuid(0x5e)));
    assert_eq!(imp.ble_default_sent_uuid(), Some(uuid(0x5f)));
    assert_eq!(imp.ble_default_service_uuid(), Some(uuid(0x50)));
    assert!(matches!(
        imp.send(vec![1, 2], None),
        SendStep::BleWrite { chara: Characteristic { handle: 2, .. }, .. }
    ));
    assert!(matches!(
        imp.subscribe(None),
        SubscribeStep::BleNotify { chara: Characteristic { handle: 1, .. } }
    ));
    imp.ble_clear_cache();
    assert!(imp.ble_default_recv_uuid().is_none());
}

#[test]
fn a_device_without_both_directions_is_rejected() {
    for chars in [
        vec![],
        vec![chara(0x5e, 1)],
        vec![chara(0x5f, 1)],
        vec![chara(0x50, 1), chara(0x51, 2)],
    ] {
        let mut imp = ble(Platform::Linux);
        let step = connect_with(&mut imp, chars);
        assert!(matches!(
            step,
            ConnectStep::Finished(Err(ConnectError::TargetRejected))
        ));
        assert!(imp.ble_default_recv_uuid().is_none());
        assert!(imp.ble_default_sent_uuid().is_none());
    }
}

#[test]
fn a_device_without_a_xiaomi_service_is_rejected() {
    let mut imp = ble(Platform::Linux);
    let step = connect_to_services(&mut imp, ADDR, 1);
    let step = imp.connect_step(
        step,
        Reply::Services(Some(vec![service(0x1800, 1), service(0x180f, 2)])),
    );
    assert!(matches!(
        step,
        ConnectStep::Finished(Err(ConnectError::TargetRejected))
    ));
}

#[test]
fn a_service_that_cannot_be_listed_is_rejected() {
    let mut imp = ble(Platform::Linux);
    let step = connect_to_services(&mut imp, ADDR, 1);
    let step = imp.connect_step(step, Reply::Services(Some(vec![service(0xfe95, 1)])));
    let step = imp.connect_step(step, Reply::Characteristics(None));
    assert!(matches!(
        step,
        ConnectStep::Finished(Err(ConnectError::TargetRejected))
    ));
}

#[test]
fn all_xiaomi_services_are_read_and_the_last_characteristic_wins() {
    let mut imp = ble(Platform::Linux);
    let services = vec![service(0xfe95, 1), service(0x1800, 2), service(0xfe95, 3)];
    let bundle = BleCharacteristicBundle { service: None, recv: None, sent: None };
    let step = imp.ble_extract_xiaomi_characteristics(&services, 0, bundle);
    let bundle = match step {
        ExtractStep::Discover { index: 0, bundle } => bundle,
        other => panic!("{:?}", other),
    };
    let step = imp.ble_extract_step(
        &services,
        0,
        bundle,
        Some(vec![chara(0x5e, 1), chara(0x5f, 2)]),
    );
    let bundle = match step {
        ExtractStep::Discover { index: 2, bundle } => bundle,
        other => panic!("{:?}", other),
    };
    let step = imp.ble_extract_step(
        &services,
        2,
        bundle,
        Some(vec![chara(0x1_005e, 3), chara(0x2_005e, 4)]),
    );
    assert!(matches!(step, ExtractStep::Finished(Ok(()))));
    assert_eq!(imp.ble_default_recv_uuid(), Some(uuid(0x2_005e)));
    assert_eq!(imp.ble_default_sent_uuid(), Some(uuid(0x5f)));
    assert_eq!(imp.ble_default_service_uuid(), None);
    // Each one is remembered.
    for (short, handle) in [(0x5e, 1), (0x5f, 2), (0x1_005e, 3), (0x2_005e, 4)] {
        match imp.ble_get_or_discover_chara(uuid(short)) {
            LookupStep::Finished(Ok(found)) => assert_eq!(found.handle, handle),
            other => panic!("{:?}", other),
        }
    }
}

#[test]
fn a_failed_connecting_keeps_the_earlier_device() {
    let mut imp = connected(Platform::Linux);
    let step = connect_to_services(&mut imp, ADDR, 1);
    let step = imp.connect_step(step, Reply::Services(Some(Vec::new())));
    assert!(matches!(
        step,
        ConnectStep::Finished(Err(ConnectError::TargetRejected))
    ));
    // The default characteristics are gone, the device and its services are not.
    assert!(matches!(
        imp.send(Vec::new(), None),
        SendStep::Finished(Err(SendError::BleCharaNotFound))
    ));
    assert!(matches!(
        imp.send(Vec::new(), Some(uuid(0x5f))),
        SendStep::BleDiscover { index: 0, .. }
    ));
}

// ---- The listener ----

#[test]
fn a_low_energy_listener_is_told() {
    let mut imp = ble(Platform::Linux);
    assert!(matches!(
        imp.set_on_connected_listener(Listener { handle: 4 }),
        ListenerStep::Finished
    ));
    let step = connect_with(&mut imp, vec![chara(0x5e, 1), chara(0x5f, 2)]);
    assert!(matches!(
        step,
        ConnectStep::BleInvokeListener { listener: Listener { handle: 4 } }
    ));
    let step = imp.connect_step(step, Reply::Done);
    assert!(matches!(step, ConnectStep::Finished(Ok(()))));
}

#[test]
fn a_classic_listener_is_registered_with_the_transport() {
    let mut imp = StdImp::new(ConnectType::SPP, Platform::Linux);
    let step = imp.set_on_connected_listener(Listener { handle: 4 });
    assert!(matches!(step, ListenerStep::SppLookUpApp { .. }));
    assert!(matches!(step.advance(Reply::Flag(false)), ListenerStep::Finished));
    let step = step.advance(Reply::Flag(true));
    assert!(matches!(
        step,
        ListenerStep::SppRegister { listener: Listener { handle: 4 } }
    ));
    assert!(matches!(step.advance(Reply::Flag(false)), ListenerStep::Finished));
}

// ---- Looking for a characteristic ----

#[test]
fn a_characteristic_is_looked_for_on_every_service() {
    let mut imp = connected(Platform::Linux);
    let step = imp.ble_get_or_discover_chara(uuid(0x2a00));
    assert!(matches!(step, LookupStep::Discover { index: 0, .. }));
    let step = imp.ble_lookup_step(step, Some(vec![chara(0x2a01, 7)]));
    assert!(matches!(step, LookupStep::Discover { index: 1, .. }));
    let step = imp.ble_lookup_step(step, Some(vec![chara(0x2a00, 8), chara(0x2a00, 9)]));
    match step {
        LookupStep::Finished(Ok(found)) => assert_eq!(found, chara(0x2a00, 8)),
        other => panic!("{:?}", other),
    }
    // The next time it is at hand; the other one that was listed is not.
    match imp.ble_get_or_discover_chara(uuid(0x2a00)) {
        LookupStep::Finished(Ok(found)) => assert_eq!(found, chara(0x2a00, 8)),
        other => panic!("{:?}", other),
    }
    assert!(matches!(
        imp.ble_get_or_discover_chara(uuid(0x2a01)),
        LookupStep::Discover { index: 0, .. }
    ));
}

#[test]
fn a_characteristic_may_not_be_found() {
    let mut imp = connected(Platform::Linux);
    let step = imp.ble_get_or_discover_chara(uuid(0x2a00));
    let step = imp.ble_lookup_step(step, Some(Vec::new()));
    let step = imp.ble_lookup_step(step, Some(Vec::new()));
    assert!(matches!(
        step,
        LookupStep::Finished(Err(SubscribeError::BleCharaNotFound))
    ));
    let step = imp.ble_get_or_discover_chara(uuid(0x2a00));
    let step = imp.ble_lookup_step(step, None);
    assert!(matches!(
        step,
        LookupStep::Finished(Err(SubscribeError::Disconnected))
    ));
    assert!(matches!(
        ble(Platform::Linux).ble_get_or_discover_chara(uuid(0x2a00)),
        LookupStep::Finished(Err(SubscribeError::Disconnected))
    ));
    assert!(matches!(
        ble(Platform::Android).ble_get_or_discover_chara(uuid(0x2a00)),
        LookupStep::Finished(Err(SubscribeError::BleCharaNotFound))
    ));
}

// ---- Sending ----

#[test]
fn the_classic_transport_sends() {
    for (answers, expected) in [
        ([true, true], Ok(())),
        ([true, false], Err(SendError::Disconnected)),
        ([false, true], Err(SendError::Disconnected)),
    ] {
        let mut imp = StdImp::new(ConnectType::SPP, Platform::Linux);
        let step = imp.send(vec![1, 2, 3], None);
        let step = imp.send_step(step, Reply::Flag(answers[0]));
        if answers[0] {
            match &step {
                SendStep::SppSend { data } => assert_eq!(data, &vec![1, 2, 3]),
                other => panic!("{:?}", other),
            }
        }
        match imp.send_step(step, Reply::Flag(answers[1])) {
            SendStep::Finished(result) => assert_eq!(result, expected),
            other => panic!("{:?}", other),
        }
    }
}

#[test]
fn data_is_written_to_the_characteristic_that_is_named() {
    for (written, expected) in [(true, Ok(())), (false, Err(SendError::Disconnected))] {
        let mut imp = connected(Platform::Linux);
        let step = imp.send(vec![7], Some(uuid(0x2a00)));
        let step = imp.send_step(step, Reply::Characteristics(Some(vec![chara(0x2a00, 8)])));
        match &step {
            SendStep::BleWrite { chara: target, data } => {
                assert_eq!(*target, chara(0x2a00, 8));
                assert_eq!(data, &vec![7]);
            }
            other => panic!("{:?}", other),
        }
        match imp.send_step(step, Reply::Flag(written)) {
            SendStep::Finished(result) => assert_eq!(result, expected),
            other => panic!("{:?}", other),
        }
    }
}

#[test]
fn sending_fails_without_a_characteristic_or_a_device() {
    let mut imp = connected(Platform::Linux);
    let step = imp.send(vec![7], Some(uuid(0x2a00)));
    let step = imp.send_step(step, Reply::Characteristics(None));
    assert!(matches!(step, SendStep::Finished(Err(SendError::Disconnected))));
    let step = imp.send(vec![7], Some(uuid(0x2a00)));
    let step = imp.send_step(step, Reply::Characteristics(Some(Vec::new())));
    let step = imp.send_step(step, Reply::Characteristics(Some(Vec::new())));
    assert!(matches!(
        step,
        SendStep::Finished(Err(SendError::BleCharaNotFound))
    ));
    assert!(matches!(
        ble(Platform::Linux).send(Vec::new(), None),
        SendStep::Finished(Err(SendError::BleCharaNotFound))
    ));
    assert!(matches!(
        ble(Platform::Linux).send(Vec::new(), Some(uuid(0x5f))),
        SendStep::Finished(Err(SendError::Disconnected))
    ));
    assert!(matches!(
        ble(Platform::Android).send(Vec::new(), None),
        SendStep::Finished(Err(SendError::Disconnected))
    ));
}

// ---- Subscribing ----

#[test]
fn the_classic_transport_subscribes() {
    let mut imp = StdImp::new(ConnectType::SPP, Platform::Linux);
    let step = imp.subscribe(None);
    let step = imp.subscribe_step(step, Reply::Flag(true));
    assert!(matches!(step, SubscribeStep::SppSetListener));
    let step = imp.subscribe_step(step, Reply::Flag(true));
    assert!(matches!(step, SubscribeStep::SppStart));
    let step = imp.subscribe_step(step, Reply::Flag(true));
    assert!(matches!(step, SubscribeStep::Finished(Ok(()))));
}

#[test]
fn subscribing_over_the_classic_transport_can_fail_at_each_step() {
    for at in 0..3usize {
        let mut imp = StdImp::new(ConnectType::SPP, Platform::Linux);
        let mut step = imp.subscribe(None);
        for n in 0..3usize {
            step = imp.subscribe_step(step, Reply::Flag(n != at));
        }
        assert!(matches!(
            step,
            SubscribeStep::Finished(Err(SubscribeError::Disconnected))
        ));
    }
}

#[test]
fn a_subscription_reads_the_service_characteristic_once() {
    let mut imp = connected(Platform::Linux);
    let step = imp.subscribe(None);
    let step = imp.subscribe_step(step, Reply::Done);
    assert!(matches!(
        step,
        SubscribeStep::BleReadService { chara: Characteristic { handle: 3, .. } }
    ));
    let step = imp.subscribe_step(step, Reply::Flag(false));
    assert!(matches!(step, SubscribeStep::Finished(Ok(()))));
}

#[test]
fn a_device_without_a_service_characteristic_can_be_subscribed_to() {
    let mut imp = ble(Platform::Linux);
    let _ = connect_with(&mut imp, vec![chara(0x5e, 1), chara(0x5f, 2)]);
    let step = imp.subscribe(None);
    let step = imp.subscribe_step(step, Reply::Done);
    assert!(matches!(step, SubscribeStep::Finished(Ok(()))));
}

#[test]
fn a_named_characteristic_is_subscribed_to() {
    let mut imp = connected(Platform::Linux);
    let step = imp.subscribe(Some(uuid(0x2a00)));
    let step = imp.subscribe_step(step, Reply::Characteristics(Some(Vec::new())));
    assert!(matches!(step, SubscribeStep::BleDiscover { index: 1, .. }));
    let step = imp.subscribe_step(step, Reply::Characteristics(Some(vec![chara(0x2a00, 5)])));
    assert!(matches!(
        step,
        SubscribeStep::BleNotify { chara: Characteristic { handle: 5, .. } }
    ));
}

#[test]
fn subscribing_fails_without_a_characteristic_or_a_device() {
    let mut imp = connected(Platform::Linux);
    let step = imp.subscribe(Some(uuid(0x2a00)));
    let step = imp.subscribe_step(step, Reply::Characteristics(None));
    assert!(matches!(
        step,
        SubscribeStep::Finished(Err(SubscribeError::Disconnected))
    ));
    let step = imp.subscribe(Some(uuid(0x2a00)));
    let step = imp.subscribe_step(step, Reply::Characteristics(Some(Vec::new())));
    let step = imp.subscribe_step(step, Reply::Characteristics(Some(Vec::new())));
    assert!(matches!(
        step,
        SubscribeStep::Finished(Err(SubscribeError::BleCharaNotFound))
    ));
    assert!(matches!(
        ble(Platform::Linux).subscribe(None),
        SubscribeStep::Finished(Err(SubscribeError::BleCharaNotFound))
    ));
    assert!(matches!(
        ble(Platform::Linux).subscribe(Some(uuid(0x5e))),
        SubscribeStep::Finished(Err(SubscribeError::Disconnected))
    ));
    assert!(matches!(
        ble(Platform::Android).subscribe(None),
        SubscribeStep::Finished(Err(SubscribeError::Disconnected))
    ));
}

#[test]
fn the_service_characteristic_may_be_missing() {
    let mut imp = connected(Platform::Linux);
    let services = vec![service(0x1800, 10)];
    let due = SubscribeStep::BleDiscoverService { uuid: uuid(0x50), services, index: 0 };
    let step = imp.subscribe_step(due, Reply::Characteristics(None));
    assert!(matches!(step, SubscribeStep::Finished(Ok(()))));
    let services = vec![service(0x1800, 10)];
    let due = SubscribeStep::BleDiscoverService { uuid: uuid(0x50), services, index: 0 };
    let step = imp.subscribe_step(due, Reply::Characteristics(Some(vec![chara(0x50, 4)])));
    assert!(matches!(
        step,
        SubscribeStep::BleReadService { chara: Characteristic { handle: 4, .. } }
    ));
}

// ---- Disconnecting ----

#[test]
fn the_classic_transport_disconnects() {
    for (answers, expected) in [
        ([true, true], Ok(())),
        ([true, false], Err(DisconnectError::DeviceNotFound)),
        ([false, true], Err(DisconnectError::DeviceNotFound)),
    ] {
        let mut imp = StdImp::new(ConnectType::SPP, Platform::Linux);
        let step = imp.disconnect();
        let step = imp.disconnect_step(step, Reply::Flag(answers[0]));
        match imp.disconnect_step(step, Reply::Flag(answers[1])) {
            DisconnectStep::Finished(result) => assert_eq!(result, expected),
            other => panic!("{:?}", other),
        }
    }
}

#[test]
fn a_low_energy_connection_is_forgotten() {
    for (answers, expected) in [
        (vec![true, true], Ok(())),
        (vec![true, false], Err(DisconnectError::DeviceNotFound)),
        (vec![false, false], Err(DisconnectError::DeviceNotFound)),
    ] {
        let mut imp = connected(Platform::Linux);
        let mut step = imp.disconnect();
        assert!(matches!(
            step,
            DisconnectStep::BleAdapter { device: BluestDevice { handle: 1 }, .. }
        ));
        for yes in answers {
            assert!(imp.ble_default_sent_uuid().is_some());
            step = imp.disconnect_step(step, Reply::Flag(yes));
        }
        match step {
            DisconnectStep::Finished(result) => assert_eq!(result, expected),
            other => panic!("{:?}", other),
        }
        assert!(matches!(
            imp.send(Vec::new(), None),
            SendStep::Finished(Err(SendError::BleCharaNotFound))
        ));
        assert!(matches!(
            imp.subscribe(Some(uuid(0x5e))),
            SubscribeStep::Finished(Err(SubscribeError::Disconnected))
        ));
        assert!(matches!(imp.disconnect(), DisconnectStep::Finished(Ok(()))));
    }
}

#[test]
fn disconnecting_without_a_connection_succeeds() {
    assert!(matches!(
        ble(Platform::Linux).disconnect(),
        DisconnectStep::Finished(Ok(()))
    ));
    assert!(matches!(
        ble(Platform::Android).disconnect(),
        DisconnectStep::Finished(Ok(()))
    ));
}

#[test]
fn a_device_is_remembered_after_disconnecting() {
    let mut imp = connected(Platform::Linux);
    let step = imp.disconnect();
    let step = imp.disconnect_step(step, Reply::Flag(true));
    let step = imp.disconnect_step(step, Reply::Flag(true));
    assert!(matches!(step, DisconnectStep::Finished(Ok(()))));
    let _ = imp.stop_scan();
    let step = imp.connect(ADDR.to_string());
    let step = imp.connect_step(step, Reply::Flag(true));
    assert!(matches!(
        step,
        ConnectStep::BleConnectDevice { device: BluestDevice { handle: 1 } }
    ));
}

#[test]
fn a_connecting_that_fails_early_keeps_the_defaults() {
    let mut imp = connected(Platform::Linux);
    let step = connect_to_services(&mut imp, ADDR, 1);
    let step = imp.connect_step(step, Reply::Services(None));
    assert!(matches!(
        step,
        ConnectStep::Finished(Err(ConnectError::TargetRejected))
    ));
    assert_eq!(imp.ble_default_sent_uuid(), Some(uuid(0x5f)));
    assert!(matches!(
        imp.send(vec![1], None),
        SendStep::BleWrite { chara: Characteristic { handle: 2, .. }, .. }
    ));
}

#[test]
fn a_listener_is_not_told_of_a_failure() {
    let mut imp = ble(Platform::Linux);
    let _ = imp.set_on_connected_listener(Listener { handle: 4 });
    let step = connect_with(&mut imp, vec![chara(0x5e, 1)]);
    assert!(matches!(
        step,
        ConnectStep::Finished(Err(ConnectError::TargetRejected))
    ));
}

#[test]
fn a_second_service_that_cannot_be_listed_is_rejected() {
    let mut imp = connected(Platform::Linux);
    let step = connect_to_services(&mut imp, ADDR, 1);
    let services = vec![service(0xfe95, 1), service(0x1800, 2), service(0xfe95, 3)];
    let step = imp.connect_step(step, Reply::Services(Some(services)));
    let step = imp.connect_step(
        step,
        Reply::Characteristics(Some(vec![chara(0x5e, 1), chara(0x5f, 2)])),
    );
    assert!(matches!(step, ConnectStep::BleDiscoverCharacteristics { index: 2, .. }));
    let step = imp.connect_step(step, Reply::Characteristics(None));
    assert!(matches!(
        step,
        ConnectStep::Finished(Err(ConnectError::TargetRejected))
    ));
    // Both directions were found, but there are no defaults.
    assert!(imp.ble_default_recv_uuid().is_none());
    assert!(imp.ble_default_sent_uuid().is_none());
    // What was listed is remembered.
    assert!(matches!(
        imp.ble_get_or_discover_chara(uuid(0x5f)),
        LookupStep::Finished(Ok(Characteristic { handle: 2, .. }))
    ));
}

#[test]
fn a_device_that_refused_is_remembered() {
    let mut imp = ble(Platform::Linux);
    let step = imp.connect(ADDR.to_string());
    let step = imp.connect_step(step, Reply::Flag(true));
    let step = imp.connect_step(step, Reply::Scan(ScanOpening::Started));
    let step = imp.connect_step(step, Reply::Flag(true));
    let step = imp.connect_step(step, Reply::Heard(Heard::Found(peer(6, ADDR))));
    let step = imp.connect_step(step, Reply::Flag(false));
    assert!(matches!(
        step,
        ConnectStep::Finished(Err(ConnectError::TargetRejected))
    ));
    let step = imp.connect(ADDR.to_string());
    let step = imp.connect_step(step, Reply::Flag(true));
    assert!(matches!(
        step,
        ConnectStep::BleConnectDevice { device: BluestDevice { handle: 6 } }
    ));
}

// ---- Notifications ----

/// Drives the passing on of notifications; says what was passed on.
fn pass_on(
    started: Result<(), &str>,
    sent: Vec<Result<Vec<u8>, String>>,
) -> Vec<Result<Vec<u8>, String>> {
    let mut sent = sent.into_iter();
    let mut passed: Vec<Result<Vec<u8>, String>> = Vec::new();
    let mut step = NotifyStep::begin();
    loop {
        let reply = match &step {
            NotifyStep::Start => Reply::NotifyStarted(started.map_err(|e| e.to_string())),
            NotifyStep::Next => Reply::Notification(sent.next()),
            NotifyStep::PassOn { item, .. } => {
                passed.push(item.clone());
                Reply::Done
            }
            NotifyStep::Finished => return passed,
        };
        step = step.advance(reply);
    }
}

#[test]
fn notifications_are_passed_on_in_order() {
    let sent = vec![
        Ok(vec![1, 2]),
        Err("lost".to_string()),
        Ok(Vec::new()),
        Ok(vec![1, 2]),
    ];
    assert_eq!(pass_on(Ok(()), sent.clone()), sent);
    assert!(pass_on(Ok(()), Vec::new()).is_empty());
}

#[test]
fn a_refused_start_is_passed_on_once() {
    assert_eq!(
        pass_on(Err("refused"), vec![Ok(vec![1])]),
        vec![Err("refused".to_string())]
    );
}

#[test]
fn an_answer_that_is_no_notification_leaves_the_wait_due() {
    let step = NotifyStep::begin().advance(Reply::Notification(None));
    assert!(matches!(step, NotifyStep::Start));
    let step = step.advance(Reply::NotifyStarted(Ok(())));
    let step = step.advance(Reply::Flag(true));
    assert!(matches!(step, NotifyStep::Next));
}
