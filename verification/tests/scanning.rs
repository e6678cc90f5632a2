use bluetooth::ble::BluestDevice;
use bluetooth::btinterface::{BluetoothDevice, ConnectType, ScanError};
use bluetooth::device_table::DeviceTable;
use bluetooth::driver::{Heard, Peer, Platform, Reply, ScanOpening, SppDevice};
use bluetooth::stdimp::adapter::AdapterStep;
use bluetooth::stdimp::scan::{BleScanStep, BleScanTask, SppScanStep, SppScanTask};
use bluetooth::stdimp::start_scan::StartScanStep;
use bluetooth::stdimp::stop_scan::StopScanStep;
use bluetooth::stdimp::{ScanSession, StdImp};

fn peer(handle: u64, id: &str, name: Option<&str>) -> Peer {
    Peer {
        device: BluestDevice { handle },
        id: id.to_string(),
        name: name.map(|n| n.to_string()),
    }
}

fn classic(address: &str, name: Option<&str>) -> SppDevice {
    SppDevice {
        name: name.map(|n| n.to_string()),
        address: address.to_string(),
    }
}

fn pairs(devices: &[BluetoothDevice]) -> Vec<(String, String)> {
    devices.iter().map(|d| (d.name.clone(), d.addr.clone())).collect()
}

fn pair(name: &str, addr: &str) -> (String, String) {
    (name.to_string(), addr.to_string())
}

/// Starts a low-energy scan on a radio that was obtained before.
fn start_ble(imp: &mut StdImp) -> BleScanTask {
    let mut step = imp.start_scan();
    loop {
        step = match step {
            StartScanStep::BleSpawn { id } => {
                let (task, first) = imp.ble_scan_begin(id);
                assert!(matches!(first, BleScanStep::Open { retry: 0 }));
                return task;
            }
            StartScanStep::Finished(_) => panic!("not started"),
            StartScanStep::BleAdapter { step: at } => {
                imp.start_scan_step(StartScanStep::BleAdapter { step: at }, Reply::Flag(true))
            }
            StartScanStep::BleLookUpApp => {
                imp.start_scan_step(StartScanStep::BleLookUpApp, Reply::Flag(false))
            }
            StartScanStep::BleQueryConnected => {
                imp.start_scan_step(StartScanStep::BleQueryConnected, Reply::Peers(None))
            }
            other => imp.start_scan_step(other, Reply::Done),
        };
    }
}

/// Lets a running low-energy scan hear a peripheral; says what it reports.
fn hear(imp: &mut StdImp, task: &mut BleScanTask, p: Peer) -> Option<(String, String)> {
    match imp.ble_scan_step(task, BleScanStep::Listen, Reply::Heard(Heard::Found(p))) {
        BleScanStep::Report { device } => {
            let reported = (device.name.clone(), device.addr.clone());
            let next = imp.ble_scan_step(task, BleScanStep::Report { device }, Reply::Done);
            assert!(matches!(next, BleScanStep::Listen));
            Some(reported)
        }
        BleScanStep::Listen => None,
        other => panic!("{:?}", other),
    }
}

fn stop_ble(imp: &mut StdImp) -> Vec<(String, String)> {
    let mut step = imp.stop_scan();
    loop {
        step = match step {
            StopScanStep::Finished(Ok(devices)) => return pairs(&devices),
            StopScanStep::Finished(Err(error)) => panic!("{:?}", error),
            other => imp.stop_scan_step(other, Reply::Done),
        };
    }
}

// ---- Classic ----

#[test]
fn a_classic_scan_starts() {
    let mut imp = StdImp::new(ConnectType::SPP, Platform::Linux);
    let step = imp.start_scan();
    assert!(matches!(step, StartScanStep::SppLookUpApp));
    assert!(!imp.is_scanning());
    let step = imp.start_scan_step(step, Reply::Flag(true));
    assert!(matches!(step, StartScanStep::SppSpawn { id: 1 }));
    assert!(imp.is_scanning());
    let step = imp.start_scan_step(step, Reply::Done);
    assert!(matches!(step, StartScanStep::SppStart));
    let step = imp.start_scan_step(step, Reply::Flag(true));
    assert!(matches!(step, StartScanStep::Finished(Ok(()))));
    assert!(imp.is_scanning());
}

#[test]
fn a_classic_scan_needs_the_transport() {
    let mut imp = StdImp::new(ConnectType::SPP, Platform::Other);
    let step = imp.start_scan();
    let step = imp.start_scan_step(step, Reply::Flag(false));
    assert!(matches!(
        step,
        StartScanStep::Finished(Err(ScanError::AdapterNotFound))
    ));
    assert!(!imp.is_scanning());
}

#[test]
fn a_classic_transport_that_does_not_scan_is_an_error() {
    let mut imp = StdImp::new(ConnectType::SPP, Platform::Other);
    let step = imp.start_scan();
    let step = imp.start_scan_step(step, Reply::Flag(true));
    let step = imp.start_scan_step(step, Reply::Done);
    let step = imp.start_scan_step(step, Reply::Flag(false));
    assert!(matches!(
        step,
        StartScanStep::Finished(Err(ScanError::AdapterNotFound))
    ));
    // What was spawned goes on until it is stopped.
    assert!(imp.is_scanning());
}

#[test]
fn a_second_classic_scan_is_not_started() {
    let mut imp = StdImp::new(ConnectType::SPP, Platform::Linux);
    let step = imp.start_scan();
    let first = imp.start_scan_step(step, Reply::Flag(true));
    assert!(matches!(first, StartScanStep::SppSpawn { id: 1 }));
    let step = imp.start_scan();
    let second = imp.start_scan_step(step, Reply::Flag(true));
    assert!(matches!(second, StartScanStep::Finished(Ok(()))));
}

#[test]
fn sessions_are_numbered_one_by_one() {
    let mut imp = StdImp::new(ConnectType::SPP, Platform::Linux);
    for number in 1..5usize {
        let step = imp.start_scan();
        match imp.start_scan_step(step, Reply::Flag(true)) {
            StartScanStep::SppSpawn { id } => {
                assert_eq!(id, number);
                imp.scan_ended(ScanSession::Spp { id });
                assert!(!imp.is_scanning());
            }
            _ => panic!("not spawned"),
        }
    }
}

#[test]
fn a_classic_scan_reports_each_device_once() {
    let (mut task, step) = SppScanTask::begin(7);
    assert_eq!(task.id(), 7);
    assert!(matches!(step, SppScanStep::Poll));
    let step = task.advance(
        step,
        Reply::SppDevices(Some(vec![
            classic("12:34:56:78:9A:BC", Some("one")),
            classic("12-34-56-78-9a-bc", Some("one again")),
            classic("   ", Some("blank")),
            classic("12:34:56:78:9A:BD", None),
        ])),
    );
    match &step {
        SppScanStep::Report { devices } => assert_eq!(
            pairs(devices),
            vec![pair("one", "12:34:56:78:9A:BC"), pair("", "12:34:56:78:9A:BD")]
        ),
        other => panic!("{:?}", other),
    }
    let step = task.advance(step, Reply::Done);
    assert!(matches!(step, SppScanStep::Pause));
    let step = task.advance(step, Reply::Done);
    assert!(matches!(step, SppScanStep::Poll));
    let step = task.advance(
        step,
        Reply::SppDevices(Some(vec![
            classic("123456789abd", Some("known")),
            classic("watch", Some("new")),
        ])),
    );
    match &step {
        SppScanStep::Report { devices } => {
            assert_eq!(pairs(devices), vec![pair("new", "watch")])
        }
        other => panic!("{:?}", other),
    }
}

#[test]
fn a_poll_that_fails_is_passed_over() {
    let (mut task, step) = SppScanTask::begin(1);
    let step = task.advance(step, Reply::SppDevices(None));
    assert!(matches!(step, SppScanStep::Pause));
}

#[test]
fn stopping_a_classic_scan_lists_each_device_once() {
    let mut imp = StdImp::new(ConnectType::SPP, Platform::Linux);
    let step = imp.start_scan();
    let _ = imp.start_scan_step(step, Reply::Flag(true));
    let step = imp.stop_scan();
    assert!(matches!(step, StopScanStep::SppAbort { id: 1 }));
    assert!(!imp.is_scanning());
    let step = imp.stop_scan_step(step, Reply::Done);
    assert!(matches!(step, StopScanStep::SppLookUpApp { was_scanning: true }));
    let step = imp.stop_scan_step(step, Reply::Flag(true));
    assert!(matches!(step, StopScanStep::SppStop));
    let step = imp.stop_scan_step(step, Reply::Flag(true));
    assert!(matches!(step, StopScanStep::SppGetDevices));
    let step = imp.stop_scan_step(
        step,
        Reply::SppDevices(Some(vec![
            classic("aa:bb:cc:dd:ee:ff", Some("one")),
            classic("", Some("none")),
            classic("AABBCCDDEEFF", Some("one")),
            classic("aa:bb:cc:dd:ee:fe", None),
        ])),
    );
    match step {
        StopScanStep::Finished(Ok(devices)) => assert_eq!(
            pairs(&devices),
            vec![pair("one", "aa:bb:cc:dd:ee:ff"), pair("", "aa:bb:cc:dd:ee:fe")]
        ),
        other => panic!("{:?}", other),
    }
}

#[test]
fn stopping_without_a_classic_scan_does_not_stop_the_transport() {
    let mut imp = StdImp::new(ConnectType::SPP, Platform::Linux);
    let step = imp.stop_scan();
    assert!(matches!(step, StopScanStep::SppLookUpApp { was_scanning: false }));
    let step = imp.stop_scan_step(step, Reply::Flag(true));
    assert!(matches!(step, StopScanStep::SppGetDevices));
    let step = imp.stop_scan_step(step, Reply::SppDevices(Some(Vec::new())));
    match step {
        StopScanStep::Finished(Ok(devices)) => assert!(devices.is_empty()),
        other => panic!("{:?}", other),
    }
}

#[test]
fn stopping_a_classic_scan_can_fail_at_each_step() {
    for at in 0..3usize {
        let mut imp = StdImp::new(ConnectType::SPP, Platform::Linux);
        let step = imp.start_scan();
        let _ = imp.start_scan_step(step, Reply::Flag(true));
        let step = imp.stop_scan();
        let step = imp.stop_scan_step(step, Reply::Done);
        let step = imp.stop_scan_step(step, Reply::Flag(at != 0));
        let step = imp.stop_scan_step(step, Reply::Flag(at != 1));
        let step = imp.stop_scan_step(step, Reply::SppDevices(None));
        assert!(matches!(
            step,
            StopScanStep::Finished(Err(ScanError::AdapterNotFound))
        ));
    }
}

// ---- Low energy ----

#[test]
fn a_low_energy_scan_on_linux_stops_the_classic_one() {
    let mut imp = StdImp::new(ConnectType::BLE, Platform::Linux);
    let step = imp.start_scan();
    assert!(matches!(step, StartScanStep::BleAdapter { step: AdapterStep::LookUp }));
    let step = imp.start_scan_step(step, Reply::Flag(true));
    assert!(matches!(step, StartScanStep::BleLookUpApp));
    let step = imp.start_scan_step(step, Reply::Flag(true));
    assert!(matches!(step, StartScanStep::BleStopClassic));
    let step = imp.start_scan_step(step, Reply::Flag(false));
    assert!(matches!(step, StartScanStep::BleSpawn { id: 1 }));
    assert!(imp.is_scanning());
    let step = imp.start_scan_step(step, Reply::Done);
    assert!(matches!(step, StartScanStep::Finished(Ok(()))));
}

#[test]
fn the_radio_is_opened_once() {
    let mut imp = StdImp::new(ConnectType::BLE, Platform::Other);
    let step = imp.start_scan();
    let step = imp.start_scan_step(step, Reply::Flag(false));
    assert!(matches!(step, StartScanStep::BleAdapter { step: AdapterStep::Open }));
    let step = imp.start_scan_step(step, Reply::Flag(true));
    assert!(matches!(
        step,
        StartScanStep::BleAdapter { step: AdapterStep::AwaitAvailable }
    ));
    let step = imp.start_scan_step(step, Reply::Flag(true));
    assert!(matches!(step, StartScanStep::BleAdapter { step: AdapterStep::Store }));
    let step = imp.start_scan_step(step, Reply::Flag(false));
    assert!(matches!(
        step,
        StartScanStep::BleAdapter { step: AdapterStep::LookUpAgain }
    ));
    let step = imp.start_scan_step(step, Reply::Flag(true));
    assert!(matches!(step, StartScanStep::BleSpawn { id: 1 }));
}

#[test]
fn without_a_radio_no_low_energy_scan_starts() {
    // The radio is missing, does not become available, or is gone when it is looked up again.
    for (answers, count) in [
        ([false, false, true, true, true], 2),
        ([false, true, false, true, true], 3),
        ([false, true, true, true, false], 5),
    ] {
        let mut imp = StdImp::new(ConnectType::BLE, Platform::Linux);
        let mut step = imp.start_scan();
        for yes in &answers[..count] {
            assert!(matches!(step, StartScanStep::BleAdapter { step: _ }));
            step = imp.start_scan_step(step, Reply::Flag(*yes));
        }
        assert!(matches!(
            step,
            StartScanStep::Finished(Err(ScanError::AdapterNotFound))
        ));
        assert!(!imp.is_scanning());
    }
}

#[test]
fn android_has_no_low_energy_scan() {
    let mut imp = StdImp::new(ConnectType::BLE, Platform::Android);
    assert!(matches!(
        imp.start_scan(),
        StartScanStep::Finished(Err(ScanError::AdapterNotFound))
    ));
    assert!(stop_ble(&mut imp).is_empty());
}

#[test]
fn a_low_energy_scan_reports_each_device_once() {
    let mut imp = StdImp::new(ConnectType::BLE, Platform::Linux);
    let mut task = start_ble(&mut imp);
    let one = hear(&mut imp, &mut task, peer(1, "12:34:56:78:9A:BC", Some("one")));
    assert_eq!(one, Some(pair("one", "12:34:56:78:9A:BC")));
    assert_eq!(hear(&mut imp, &mut task, peer(2, "123456789abc", Some("one"))), None);
    assert_eq!(hear(&mut imp, &mut task, peer(3, " ", Some("blank"))), None);
    let two = hear(&mut imp, &mut task, peer(4, "12:34:56:78:9A:BD", None));
    assert_eq!(two, Some(pair("", "12:34:56:78:9A:BD")));

    // What was reported is what stopping hands over, once.
    assert_eq!(
        stop_ble(&mut imp),
        vec![pair("one", "12:34:56:78:9A:BC"), pair("", "12:34:56:78:9A:BD")]
    );
    assert!(!imp.is_scanning());
    assert!(stop_ble(&mut imp).is_empty());
}

#[test]
fn discovery_is_tried_seven_times() {
    let mut imp = StdImp::new(ConnectType::BLE, Platform::Linux);
    let mut task = start_ble(&mut imp);
    let mut step = BleScanStep::Open { retry: 0 };
    let mut waits: Vec<u64> = Vec::new();
    let mut openings: usize = 0;
    loop {
        step = match step {
            BleScanStep::Open { retry } => {
                assert_eq!(retry, openings);
                openings += 1;
                imp.ble_scan_step(&mut task, step, Reply::Scan(ScanOpening::AlreadyScanning))
            }
            BleScanStep::Pause { retry: _, millis } => {
                waits.push(millis);
                imp.ble_scan_step(&mut task, step, Reply::Done)
            }
            BleScanStep::SignalFinished => {
                assert!(imp.is_scanning());
                imp.ble_scan_step(&mut task, step, Reply::Done)
            }
            BleScanStep::Finished => break,
            other => panic!("{:?}", other),
        };
    }
    assert_eq!(openings, 7);
    assert_eq!(waits, vec![180, 360, 540, 720, 900, 1080]);
    assert!(!imp.is_scanning());
}

#[test]
fn another_failure_of_discovery_is_final() {
    let mut imp = StdImp::new(ConnectType::BLE, Platform::Linux);
    let mut task = start_ble(&mut imp);
    let step = imp.ble_scan_step(
        &mut task,
        BleScanStep::Open { retry: 0 },
        Reply::Scan(ScanOpening::Failed),
    );
    assert!(matches!(step, BleScanStep::SignalFinished));
}

#[test]
fn a_scan_ends_when_it_is_cancelled_or_has_nothing_more() {
    for end in [Heard::Cancelled, Heard::Ended] {
        let mut imp = StdImp::new(ConnectType::BLE, Platform::Linux);
        let mut task = start_ble(&mut imp);
        let step = imp.ble_scan_step(
            &mut task,
            BleScanStep::Open { retry: 0 },
            Reply::Scan(ScanOpening::Started),
        );
        assert!(matches!(step, BleScanStep::Listen));
        let step = imp.ble_scan_step(&mut task, step, Reply::Heard(end));
        assert!(matches!(step, BleScanStep::SignalFinished));
        let step = imp.ble_scan_step(&mut task, step, Reply::Done);
        assert!(matches!(step, BleScanStep::Finished));
        assert!(!imp.is_scanning());
    }
}

#[test]
fn an_answer_that_does_not_belong_leaves_the_step_due() {
    let mut imp = StdImp::new(ConnectType::BLE, Platform::Linux);
    let mut task = start_ble(&mut imp);
    let step = imp.ble_scan_step(&mut task, BleScanStep::Listen, Reply::Flag(true));
    assert!(matches!(step, BleScanStep::Listen));
    let step = imp.ble_scan_step(&mut task, BleScanStep::Finished, Reply::Done);
    assert!(matches!(step, BleScanStep::Finished));
}

#[test]
fn a_new_low_energy_scan_stops_the_old_one_and_starts_empty() {
    let mut imp = StdImp::new(ConnectType::BLE, Platform::Other);
    let mut old_task = start_ble(&mut imp);
    assert_eq!(old_task.id(), 1);
    assert!(hear(&mut imp, &mut old_task, peer(1, "12:34:56:78:9A:BC", None)).is_some());

    let step = imp.start_scan();
    assert!(matches!(step, StartScanStep::BleCancel { id: 1 }));
    assert!(!imp.is_scanning());
    let step = imp.start_scan_step(step, Reply::Done);
    assert!(matches!(step, StartScanStep::BleAwait { id: 1 }));
    let step = imp.start_scan_step(step, Reply::Done);
    let step = imp.start_scan_step(step, Reply::Flag(true));
    let mut task = match step {
        StartScanStep::BleSpawn { id } => imp.ble_scan_begin(id).0,
        other => panic!("{:?}", other),
    };
    assert_eq!(task.id(), 2);

    // The old scan ends late, and the new one stays.
    let step = imp.ble_scan_step(&mut old_task, BleScanStep::SignalFinished, Reply::Done);
    assert!(matches!(step, BleScanStep::Finished));
    assert!(imp.is_scanning());

    assert!(hear(&mut imp, &mut task, peer(2, "12:34:56:78:9A:BC", None)).is_some());
    assert_eq!(stop_ble(&mut imp), vec![pair("", "12:34:56:78:9A:BC")]);
}

#[test]
fn a_session_of_the_other_kind_is_another_session() {
    let mut imp = StdImp::new(ConnectType::BLE, Platform::Other);
    let _task = start_ble(&mut imp);
    imp.scan_ended(ScanSession::Spp { id: 1 });
    assert!(imp.is_scanning());
    imp.scan_ended(ScanSession::Ble { id: 2 });
    assert!(imp.is_scanning());
    imp.scan_ended(ScanSession::Ble { id: 1 });
    assert!(!imp.is_scanning());
}

#[test]
fn stopping_a_low_energy_scan_waits_for_it() {
    let mut imp = StdImp::new(ConnectType::BLE, Platform::Linux);
    let _task = start_ble(&mut imp);
    let step = imp.stop_scan();
    assert!(matches!(step, StopScanStep::BleCancel { id: 1 }));
    let step = imp.stop_scan_step(step, Reply::Done);
    assert!(matches!(step, StopScanStep::BleAwait { id: 1 }));
    let step = imp.stop_scan_step(step, Reply::Done);
    assert!(matches!(step, StopScanStep::Finished(Ok(_))));
}

#[test]
fn on_ios_a_scan_begins_with_what_is_connected() {
    let mut imp = StdImp::new(ConnectType::BLE, Platform::Ios);
    let step = imp.start_scan();
    let step = imp.start_scan_step(step, Reply::Flag(true));
    assert!(matches!(step, StartScanStep::BleQueryConnected));
    let step = imp.start_scan_step(
        step,
        Reply::Peers(Some(vec![
            peer(1, "WATCH", Some("one")),
            peer(2, "WATCH", Some("one again")),
            peer(3, "watch", None),
            peer(4, "", Some("blank")),
        ])),
    );
    match &step {
        StartScanStep::BleReport { devices } => {
            assert_eq!(pairs(devices), vec![pair("one", "WATCH"), pair("", "watch")])
        }
        _ => panic!("not reported"),
    }
    let step = imp.start_scan_step(step, Reply::Done);
    let mut task = match step {
        StartScanStep::BleSpawn { id } => imp.ble_scan_begin(id).0,
        other => panic!("{:?}", other),
    };
    // The key WATCH is one of the addresses that were reported.
    assert_eq!(hear(&mut imp, &mut task, peer(5, "Watch", None)), None);
    assert_eq!(
        stop_ble(&mut imp),
        vec![pair("one", "WATCH"), pair("", "watch")]
    );
}

#[test]
fn seeds_that_are_remembered_are_passed_over() {
    let mut imp = StdImp::new(ConnectType::BLE, Platform::Ios);
    let first = imp.ble_seed_scan_with_connected(vec![peer(1, "a", None), peer(2, "b", None)]);
    assert_eq!(pairs(&first), vec![pair("", "a"), pair("", "b")]);
    let second = imp.ble_seed_scan_with_connected(vec![peer(3, "b", None), peer(4, "c", None)]);
    assert_eq!(pairs(&second), vec![pair("", "c")]);
    assert_eq!(
        stop_ble(&mut imp),
        vec![pair("", "a"), pair("", "b"), pair("", "c")]
    );
}

#[test]
fn a_table_finds_what_was_put_in_last() {
    let mut table = DeviceTable::new();
    let (a, b) = ("a".to_string(), "b".to_string());
    assert_eq!(table.get(&a), None);
    table.insert(a.clone(), BluestDevice { handle: 1 });
    table.insert(b.clone(), BluestDevice { handle: 2 });
    table.insert(a.clone(), BluestDevice { handle: 3 });
    assert_eq!(table.get(&a), Some(BluestDevice { handle: 3 }));
    assert_eq!(table.get(&b), Some(BluestDevice { handle: 2 }));
    assert!(!table.contains_key(&"A".to_string()));
    table.clear();
    assert!(!table.contains_key(&a));
}

#[test]
fn a_device_that_turns_up_while_the_scan_is_stopped_is_handed_over() {
    let mut imp = StdImp::new(ConnectType::BLE, Platform::Linux);
    let mut task = start_ble(&mut imp);
    assert!(hear(&mut imp, &mut task, peer(1, "one", None)).is_some());
    let step = imp.stop_scan();
    assert!(matches!(step, StopScanStep::BleCancel { id: 1 }));
    assert!(hear(&mut imp, &mut task, peer(2, "two", None)).is_some());
    let step = imp.stop_scan_step(step, Reply::Done);
    assert!(hear(&mut imp, &mut task, peer(3, "three", None)).is_some());
    let step = imp.stop_scan_step(step, Reply::Done);
    match step {
        StopScanStep::Finished(Ok(devices)) => assert_eq!(
            pairs(&devices),
            vec![pair("", "one"), pair("", "two"), pair("", "three")]
        ),
        other => panic!("{:?}", other),
    }
    // What turns up later is left for the next time.
    assert!(hear(&mut imp, &mut task, peer(4, "four", None)).is_some());
    assert!(hear(&mut imp, &mut task, peer(5, "ONE", None)).is_none());
    assert_eq!(stop_ble(&mut imp), vec![pair("", "four")]);
}

/// A driver that stores the first radio that is opened.
struct Store {
    stored: Option<u64>,
}

impl Store {
    /// Obtains the radio; says whether that succeeds, and after how many answers.
    fn obtain(&mut self, found: Option<u64>, available: bool) -> (bool, usize) {
        let mut opened: Option<u64> = None;
        let mut answers: usize = 0;
        let mut step = AdapterStep::ble_adapter();
        loop {
            let yes = match step {
                AdapterStep::LookUp | AdapterStep::LookUpAgain => self.stored.is_some(),
                AdapterStep::Open => {
                    opened = found;
                    opened.is_some()
                }
                AdapterStep::AwaitAvailable => available,
                AdapterStep::Store => {
                    self.stored = self.stored.or(opened);
                    true
                }
                AdapterStep::Finished(result) => return (result.is_ok(), answers),
            };
            answers += 1;
            step = step.advance(yes);
        }
    }
}

#[test]
fn a_radio_that_was_obtained_is_used_again() {
    let mut store = Store { stored: None };
    assert_eq!(store.obtain(None, true), (false, 2));
    assert_eq!(store.obtain(Some(1), false), (false, 3));
    assert_eq!(store.stored, None);
    assert_eq!(store.obtain(Some(1), true), (true, 5));
    assert_eq!(store.stored, Some(1));
    assert_eq!(store.obtain(None, false), (true, 1));
    assert_eq!(store.obtain(Some(2), true), (true, 1));
    assert_eq!(store.stored, Some(1));
}

#[test]
fn a_new_scan_holds_nothing_of_the_one_that_it_cancels() {
    let mut imp = StdImp::new(ConnectType::BLE, Platform::Other);
    let mut old_task = start_ble(&mut imp);
    assert!(hear(&mut imp, &mut old_task, peer(1, "one", None)).is_some());
    let step = imp.start_scan();
    // The old scan still reports while it is told to stop.
    assert!(hear(&mut imp, &mut old_task, peer(2, "two", None)).is_some());
    let step = imp.start_scan_step(step, Reply::Done);
    assert!(hear(&mut imp, &mut old_task, peer(3, "three", None)).is_some());
    let told = imp.ble_scan_step(
        &mut old_task,
        BleScanStep::Listen,
        Reply::Heard(Heard::Cancelled),
    );
    assert!(matches!(told, BleScanStep::SignalFinished));
    let step = imp.start_scan_step(step, Reply::Done);
    let step = imp.start_scan_step(step, Reply::Flag(true));
    let mut task = match step {
        StartScanStep::BleSpawn { id: 2 } => imp.ble_scan_begin(2).0,
        other => panic!("{:?}", other),
    };
    // Its record is cleared late, which leaves the new session.
    let gone = imp.ble_scan_step(&mut old_task, told, Reply::Done);
    assert!(matches!(gone, BleScanStep::Finished));
    assert!(imp.is_scanning());
    assert!(hear(&mut imp, &mut task, peer(4, "two", None)).is_some());
    assert_eq!(stop_ble(&mut imp), vec![pair("", "two")]);
}

#[test]
fn on_ios_stopping_hands_over_what_was_reported_since_the_start() {
    let mut imp = StdImp::new(ConnectType::BLE, Platform::Ios);
    let step = imp.start_scan();
    let step = imp.start_scan_step(step, Reply::Flag(true));
    let step = imp.start_scan_step(step, Reply::Peers(Some(vec![peer(1, "A", Some("seed"))])));
    let step = imp.start_scan_step(step, Reply::Done);
    let mut task = match step {
        StartScanStep::BleSpawn { id } => imp.ble_scan_begin(id).0,
        other => panic!("{:?}", other),
    };
    assert!(hear(&mut imp, &mut task, peer(2, "a", None)).is_none());
    assert!(hear(&mut imp, &mut task, peer(3, "B", Some("heard"))).is_some());
    assert_eq!(stop_ble(&mut imp), vec![pair("seed", "A"), pair("heard", "B")]);
}
