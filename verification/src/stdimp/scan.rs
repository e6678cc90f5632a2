//! Scans that are running.
use vstd::hash_set::StringHashSet;
use vstd::prelude::*;

#[allow(unused_imports)]
use crate::address::dedup_key;
use crate::btinterface::BluetoothDevice;
#[allow(unused_imports)]
use crate::btinterface::{entries, DeviceEntry};
use crate::driver::{name_or_empty, Heard, Peer, Reply, ScanOpening};
#[allow(unused_imports)]
use crate::driver::{HeardView, PeerEntry, ReplyView};
use crate::stdimp::sightings::{note_key, report_first_sightings};
#[allow(unused_imports)]
use crate::stdimp::sightings::{first_sightings, known_after};
use crate::stdimp::{ScanSession, StdImp};
#[allow(unused_imports)]
use crate::stdimp::ImpState;

verus! {

/// How often low-energy discovery is tried again while another discovery is under way.
pub const BLE_SCAN_RETRY_LIMIT: usize = 6;

/// How much longer, in milliseconds, each wait before such a try is than the one before.
pub const BLE_SCAN_RETRY_BASE_DELAY_MS: u64 = 180;

/// How long, in milliseconds, a classic scan waits before it asks for devices again.
pub const SPP_SCAN_PERIOD_MILLIS: u64 = 800;

/// How long, in seconds, a cancelled low-energy scan is waited for.
pub const BLE_SHUTDOWN_SECONDS: u64 = 2;

// ---- A classic scan that is running ----

/// A classic scan: the number of its session, and the keys of the devices it has reported.
pub struct SppScanTask {
    id: usize,
    known: StringHashSet,
}

/// The content of a running scan of either kind.
#[verifier::ext_equal]
pub struct TaskView {
    pub id: usize,
    pub known: Set<Seq<char>>,
}

impl View for SppScanTask {
    type V = TaskView;

    closed spec fn view(&self) -> TaskView {
        TaskView { id: self.id, known: self.known@ }
    }
}

/// A classic scan, which runs until it is aborted. `D` is a list of devices.
#[derive(Debug)]
pub enum SppScan<D> {
    /// Ask the classic transport for the devices it has found.
    Poll,
    /// Report these devices to the caller, one by one.
    Report { devices: D },
    /// Wait for [`SPP_SCAN_PERIOD_MILLIS`].
    Pause,
}

pub type SppScanStep = SppScan<Vec<BluetoothDevice>>;

pub type SppScanView = SppScan<Seq<DeviceEntry>>;

impl View for SppScan<Vec<BluetoothDevice>> {
    type V = SppScan<Seq<DeviceEntry>>;

    open spec fn view(&self) -> SppScan<Seq<DeviceEntry>> {
        match *self {
            SppScan::Poll => SppScan::Poll,
            SppScan::Report { devices } => SppScan::Report { devices: entries(devices@) },
            SppScan::Pause => SppScan::Pause,
        }
    }
}

/// What follows a step of a classic scan and the driver's answer to it. Of the devices that are
/// found, those are reported that are sighted for the first time.
pub open spec fn spp_scan_next(task: TaskView, step: SppScanView, reply: ReplyView) -> (
    TaskView,
    SppScanView,
) {
    match (step, reply) {
        (SppScan::Poll, ReplyView::SppDevices(Some(list))) => (
            TaskView { known: known_after(task.known, list), ..task },
            SppScan::Report { devices: first_sightings(task.known, list) },
        ),
        (SppScan::Poll, ReplyView::SppDevices(None)) => (task, SppScan::Pause),
        (SppScan::Poll, _) => (task, SppScan::Poll),
        (SppScan::Report { devices: _ }, _) => (task, SppScan::Pause),
        (SppScan::Pause, _) => (task, SppScan::Poll),
    }
}

impl SppScanTask {
    /// A classic scan that has reported nothing yet, and its first step.
    pub fn begin(id: usize) -> (r: (SppScanTask, SppScanStep))
        ensures
            r.0@ == (TaskView { id, known: Set::empty() }),
            r.1@ == SppScan::<Seq<DeviceEntry>>::Poll,
    {
        (SppScanTask { id, known: StringHashSet::new() }, SppScan::Poll)
    }

    /// The number of the session that this scan belongs to.
    pub fn id(&self) -> (r: usize)
        ensures
            r == self@.id,
    {
        self.id
    }

    /// The step that follows when the driver has answered a step of the scan.
    pub fn advance(&mut self, step: SppScanStep, reply: Reply) -> (r: SppScanStep)
        ensures
            (final(self)@, r@) == spp_scan_next(old(self)@, step@, reply@),
    {
        match (step, reply) {
            (SppScan::Poll, Reply::SppDevices(Some(list))) => {
                let devices = report_first_sightings(&mut self.known, list);
                SppScan::Report { devices }
            },
            (SppScan::Poll, Reply::SppDevices(None)) => SppScan::Pause,
            (SppScan::Poll, _) => SppScan::Poll,
            (SppScan::Report { devices: _ }, _) => SppScan::Pause,
            (SppScan::Pause, _) => SppScan::Poll,
        }
    }
}

// ---- A low-energy scan that is running ----

/// A low-energy scan: the number of its session, and the keys of the devices it has reported.
pub struct BleScanTask {
    id: usize,
    known: StringHashSet,
}

impl View for BleScanTask {
    type V = TaskView;

    closed spec fn view(&self) -> TaskView {
        TaskView { id: self.id, known: self.known@ }
    }
}

/// A low-energy scan. `D` is a device.
#[derive(Debug)]
pub enum BleScan<D> {
    /// Start discovery. It was tried `retry` times before.
    Open { retry: usize },
    /// Wait for `millis` milliseconds.
    Pause { retry: usize, millis: u64 },
    /// Wait for the next peripheral, or for the wish to stop.
    Listen,
    /// Report a device to the caller.
    Report { device: D },
    /// Tell whoever waits for it that the scan has finished.
    SignalFinished,
    Finished,
}

pub type BleScanStep = BleScan<BluetoothDevice>;

pub type BleScanView = BleScan<DeviceEntry>;

impl View for BleScan<BluetoothDevice> {
    type V = BleScan<DeviceEntry>;

    open spec fn view(&self) -> BleScan<DeviceEntry> {
        match *self {
            BleScan::Open { retry } => BleScan::Open { retry },
            BleScan::Pause { retry, millis } => BleScan::Pause { retry, millis },
            BleScan::Listen => BleScan::Listen,
            BleScan::Report { device } => BleScan::Report { device: device@ },
            BleScan::SignalFinished => BleScan::SignalFinished,
            BleScan::Finished => BleScan::Finished,
        }
    }
}

/// The state once the scan of a session has ended. A session that began later stays.
pub open spec fn session_ended(s: ImpState, session: ScanSession) -> ImpState {
    if s.session == Some(session) {
        ImpState { session: None, ..s }
    } else {
        s
    }
}

/// A low-energy scan that begins. It takes the addresses of the devices that are remembered for
/// the keys of devices it has reported.
pub open spec fn ble_scan_begin(s: ImpState, id: usize) -> (TaskView, BleScanView) {
    (TaskView { id, known: s.scanned.dom() }, BleScan::Open { retry: 0 })
}

/// A peripheral has turned up in a low-energy scan. One that is sighted for the first time is
/// remembered under its identifier, joins the results and is reported.
pub open spec fn ble_scan_found(s: ImpState, task: TaskView, peer: PeerEntry) -> (
    ImpState,
    TaskView,
    BleScanView,
) {
    let key = dedup_key(peer.entry.addr);
    if key.len() > 0 && !task.known.contains(key) {
        (
            ImpState {
                scanned: s.scanned.insert(peer.entry.addr, peer.device),
                results: s.results.push(peer.entry),
                ..s
            },
            TaskView { known: task.known.insert(key), ..task },
            BleScan::Report { device: peer.entry },
        )
    } else {
        (s, task, BleScan::Listen)
    }
}

/// What follows a step of a low-energy scan and the driver's answer to it. An answer that does
/// not belong to the step leaves it due.
pub open spec fn ble_scan_next(s: ImpState, task: TaskView, step: BleScanView, reply: ReplyView) -> (
    ImpState,
    TaskView,
    BleScanView,
) {
    match (step, reply) {
        (BleScan::Open { retry }, ReplyView::Scan(opening)) => match opening {
            ScanOpening::Started => (s, task, BleScan::Listen),
            ScanOpening::AlreadyScanning => if retry < BLE_SCAN_RETRY_LIMIT {
                (
                    s,
                    task,
                    BleScan::Pause {
                        retry: (retry + 1) as usize,
                        millis: (BLE_SCAN_RETRY_BASE_DELAY_MS * (retry + 1)) as u64,
                    },
                )
            } else {
                (s, task, BleScan::SignalFinished)
            },
            ScanOpening::Failed => (s, task, BleScan::SignalFinished),
        },
        (BleScan::Pause { retry, millis: _ }, _) => (s, task, BleScan::Open { retry }),
        (BleScan::Listen, ReplyView::Heard(HeardView::Found(peer))) => ble_scan_found(s, task, peer),
        (BleScan::Listen, ReplyView::Heard(_)) => (s, task, BleScan::SignalFinished),
        (BleScan::Report { device: _ }, _) => (s, task, BleScan::Listen),
        (BleScan::SignalFinished, _) => (
            session_ended(s, ScanSession::Ble { id: task.id }),
            task,
            BleScan::Finished,
        ),
        (step, _) => (s, task, step),
    }
}

impl BleScanTask {
    /// The number of the session that this scan belongs to.
    pub fn id(&self) -> (r: usize)
        ensures
            r == self@.id,
    {
        self.id
    }
}

impl StdImp {
    /// The scan of a session has ended.
    pub fn scan_ended(&mut self, session: ScanSession)
        ensures
            final(self)@ == session_ended(old(self)@, session),
    {
        if let Some(current) = self.scan_state {
            if current == session {
                self.scan_state = None;
            }
        }
    }

    /// The low-energy scan of session `id`, and its first step.
    pub fn ble_scan_begin(&self, id: usize) -> (r: (BleScanTask, BleScanStep))
        ensures
            (r.0@, r.1@) == ble_scan_begin(self@, id),
    {
        (BleScanTask { id, known: self.ble_scanned_devices.keys() }, BleScan::Open { retry: 0 })
    }

    /// The step that follows when the driver has answered a step of a low-energy scan.
    pub fn ble_scan_step(&mut self, task: &mut BleScanTask, step: BleScanStep, reply: Reply) -> (r:
        BleScanStep)
        ensures
            (final(self)@, final(task)@, r@) == ble_scan_next(
                old(self)@,
                old(task)@,
                step@,
                reply@,
            ),
    {
        match (step, reply) {
            (BleScan::Open { retry }, Reply::Scan(opening)) => match opening {
                ScanOpening::Started => BleScan::Listen,
                ScanOpening::AlreadyScanning => {
                    if retry < BLE_SCAN_RETRY_LIMIT {
                        let tries: usize = retry + 1;
                        BleScan::Pause {
                            retry: tries,
                            millis: BLE_SCAN_RETRY_BASE_DELAY_MS * (tries as u64),
                        }
                    } else {
                        BleScan::SignalFinished
                    }
                },
                ScanOpening::Failed => BleScan::SignalFinished,
            },
            (BleScan::Pause { retry, millis: _ }, _) => BleScan::Open { retry },
            (BleScan::Listen, Reply::Heard(Heard::Found(peer))) => {
                if note_key(&mut task.known, peer.id.as_str()) {
                    self.ble_remember(peer)
                } else {
                    BleScan::Listen
                }
            },
            (BleScan::Listen, Reply::Heard(_)) => BleScan::SignalFinished,
            (BleScan::Report { device: _ }, _) => BleScan::Listen,
            (BleScan::SignalFinished, _) => {
                self.scan_ended(ScanSession::Ble { id: task.id });
                BleScan::Finished
            },
            (step, _) => step,
        }
    }

    /// Remembers a peripheral under its identifier and puts it among the results.
    fn ble_remember(&mut self, peer: Peer) -> (r: BleScanStep)
        ensures
            final(self)@ == (ImpState {
                scanned: old(self)@.scanned.insert(peer@.entry.addr, peer@.device),
                results: old(self)@.results.push(peer@.entry),
                ..old(self)@
            }),
            r@ == (BleScan::Report { device: peer@.entry }),
    {
        let device = peer.device;
        let addr = peer.id;
        let name = name_or_empty(peer.name);
        self.ble_scanned_devices.insert(addr.clone(), device);
        self.scan_results.push(BluetoothDevice { name: name.clone(), addr: addr.clone() });
        assert(entries(self.scan_results@) =~= old(self)@.results.push(peer@.entry));
        BleScan::Report { device: BluetoothDevice { name, addr } }
    }
}

} // verus!
