//! Starting a scan.
use vstd::prelude::*;

use crate::address::normalize_addr_for_dedup;
#[allow(unused_imports)]
use crate::address::dedup_key;
use crate::btinterface::{BluetoothDevice, ConnectType, ScanError};
#[allow(unused_imports)]
use crate::btinterface::{entries, DeviceEntry};
use crate::driver::{name_or_empty, Peer, Platform, Reply};
#[allow(unused_imports)]
use crate::driver::{peer_entries, PeerEntry, ReplyView};
use crate::stdimp::adapter::AdapterStep;
#[allow(unused_imports)]
use crate::stdimp::adapter::adapter_next;
use crate::stdimp::{ScanSession, StdImp};
#[allow(unused_imports)]
use crate::stdimp::ImpState;

verus! {

/// Starting a scan. `D` is a list of devices.
#[derive(Debug)]
pub enum StartScan<D> {
    /// Is the classic transport at hand?
    SppLookUpApp,
    /// Run the classic scan of session `id` beside this operation.
    SppSpawn { id: usize },
    /// Let the classic transport scan.
    SppStart,
    /// Tell the low-energy scan of session `id` to stop.
    BleCancel { id: usize },
    /// Wait until it has finished, for [`BLE_SHUTDOWN_SECONDS`](crate::stdimp::scan::BLE_SHUTDOWN_SECONDS)
    /// at most.
    BleAwait { id: usize },
    /// Obtain the radio.
    BleAdapter { step: AdapterStep },
    /// Is the classic transport at hand, which may hold the radio?
    BleLookUpApp,
    /// Let the classic transport stop scanning.
    BleStopClassic,
    /// List the peripherals that are connected to the system already.
    BleQueryConnected,
    /// Report these devices to the caller, one by one.
    BleReport { devices: D },
    /// Run the low-energy scan of session `id` beside this operation.
    BleSpawn { id: usize },
    Finished(Result<(), ScanError>),
}

pub type StartScanStep = StartScan<Vec<BluetoothDevice>>;

pub type StartScanView = StartScan<Seq<DeviceEntry>>;

impl View for StartScan<Vec<BluetoothDevice>> {
    type V = StartScan<Seq<DeviceEntry>>;

    open spec fn view(&self) -> StartScan<Seq<DeviceEntry>> {
        match *self {
            StartScan::SppLookUpApp => StartScan::SppLookUpApp,
            StartScan::SppSpawn { id } => StartScan::SppSpawn { id },
            StartScan::SppStart => StartScan::SppStart,
            StartScan::BleCancel { id } => StartScan::BleCancel { id },
            StartScan::BleAwait { id } => StartScan::BleAwait { id },
            StartScan::BleAdapter { step } => StartScan::BleAdapter { step },
            StartScan::BleLookUpApp => StartScan::BleLookUpApp,
            StartScan::BleStopClassic => StartScan::BleStopClassic,
            StartScan::BleQueryConnected => StartScan::BleQueryConnected,
            StartScan::BleReport { devices } => StartScan::BleReport { devices: entries(devices@) },
            StartScan::BleSpawn { id } => StartScan::BleSpawn { id },
            StartScan::Finished(result) => StartScan::Finished(result),
        }
    }
}

/// The number of the session that follows one; numbers start anew behind the greatest.
pub open spec fn next_id(seq: usize) -> usize {
    if seq == usize::MAX {
        0
    } else {
        (seq + 1) as usize
    }
}

/// The first step of starting a scan. A low-energy scan that is under way is told to stop; the
/// record of a classic one is dropped.
pub open spec fn start_scan_begin(s: ImpState) -> (ImpState, StartScanView) {
    match s.connect_type {
        ConnectType::SPP => (s, StartScan::SppLookUpApp),
        ConnectType::BLE => if s.platform == Platform::Android {
            (s, StartScan::Finished(Err(ScanError::AdapterNotFound)))
        } else {
            (
                ImpState { session: None, ..s },
                match s.session {
                    Some(ScanSession::Ble { id }) => StartScan::BleCancel { id },
                    _ => StartScan::BleAdapter { step: AdapterStep::LookUp },
                },
            )
        },
    }
}

/// A classic scan begins, unless a scan is under way.
pub open spec fn spp_session(s: ImpState) -> (ImpState, StartScanView) {
    if s.session is Some {
        (s, StartScan::Finished(Ok(())))
    } else {
        let id = next_id(s.scan_seq);
        (
            ImpState { scan_seq: id, session: Some(ScanSession::Spp { id }), ..s },
            StartScan::SppSpawn { id },
        )
    }
}

/// A low-energy scan begins.
pub open spec fn ble_session(s: ImpState) -> (ImpState, StartScanView) {
    let id = next_id(s.scan_seq);
    (
        ImpState { scan_seq: id, session: Some(ScanSession::Ble { id }), ..s },
        StartScan::BleSpawn { id },
    )
}

/// The radio is free: what earlier scans have found is dropped, and the scan begins, on iOS with
/// the peripherals that are connected to the system.
pub open spec fn ble_prepare(s: ImpState) -> (ImpState, StartScanView) {
    let empty = ImpState { scanned: Map::empty(), results: Seq::empty(), ..s };
    if s.platform == Platform::Ios {
        (empty, StartScan::BleQueryConnected)
    } else {
        ble_session(empty)
    }
}

/// The state and the reports once the connected peripherals have been gone through: each one
/// with an address that is neither blank nor remembered is remembered, joins the results and is
/// reported.
pub open spec fn seed(s: ImpState, peers: Seq<PeerEntry>) -> (ImpState, Seq<DeviceEntry>)
    decreases peers.len(),
{
    if peers.len() == 0 {
        (s, Seq::empty())
    } else {
        let (before, reported) = seed(s, peers.drop_last());
        let peer = peers.last();
        if dedup_key(peer.entry.addr).len() == 0 || before.scanned.contains_key(peer.entry.addr) {
            (before, reported)
        } else {
            (
                ImpState {
                    scanned: before.scanned.insert(peer.entry.addr, peer.device),
                    results: before.results.push(peer.entry),
                    ..before
                },
                reported.push(peer.entry),
            )
        }
    }
}

/// The state and the step that follow a step and the driver's answer to it. An answer that does
/// not belong to the step leaves it due.
pub open spec fn start_scan_next(s: ImpState, step: StartScanView, reply: ReplyView) -> (
    ImpState,
    StartScanView,
) {
    match (step, reply) {
        (StartScan::SppLookUpApp, ReplyView::Flag(yes)) => if yes {
            spp_session(s)
        } else {
            (s, StartScan::Finished(Err(ScanError::AdapterNotFound)))
        },
        (StartScan::SppSpawn { id: _ }, _) => (s, StartScan::SppStart),
        (StartScan::SppStart, ReplyView::Flag(yes)) => if yes {
            (s, StartScan::Finished(Ok(())))
        } else {
            (s, StartScan::Finished(Err(ScanError::AdapterNotFound)))
        },
        (StartScan::BleCancel { id }, _) => (s, StartScan::BleAwait { id }),
        (StartScan::BleAwait { id: _ }, _) => (
            s,
            StartScan::BleAdapter { step: AdapterStep::LookUp },
        ),
        (StartScan::BleAdapter { step: at }, ReplyView::Flag(yes)) => match adapter_next(at, yes) {
            AdapterStep::Finished(Ok(_)) => if s.platform == Platform::Linux {
                (s, StartScan::BleLookUpApp)
            } else {
                ble_prepare(s)
            },
            AdapterStep::Finished(Err(_)) => (
                s,
                StartScan::Finished(Err(ScanError::AdapterNotFound)),
            ),
            due => (s, StartScan::BleAdapter { step: due }),
        },
        (StartScan::BleLookUpApp, ReplyView::Flag(yes)) => if yes {
            (s, StartScan::BleStopClassic)
        } else {
            ble_prepare(s)
        },
        (StartScan::BleStopClassic, _) => ble_prepare(s),
        (StartScan::BleQueryConnected, ReplyView::Peers(Some(peers))) => (
            seed(s, peers).0,
            StartScan::BleReport { devices: seed(s, peers).1 },
        ),
        (StartScan::BleQueryConnected, ReplyView::Peers(None)) => ble_session(s),
        (StartScan::BleReport { devices: _ }, _) => ble_session(s),
        (StartScan::BleSpawn { id: _ }, _) => (s, StartScan::Finished(Ok(()))),
        (step, _) => (s, step),
    }
}

/// The number that follows.
fn following(seq: usize) -> (r: usize)
    ensures
        r == next_id(seq),
{
    if seq == usize::MAX {
        0
    } else {
        seq + 1
    }
}

impl StdImp {
    /// The first step of starting a scan.
    pub fn start_scan(&mut self) -> (r: StartScanStep)
        ensures
            (final(self)@, r@) == start_scan_begin(old(self)@),
    {
        match self.connect_type {
            ConnectType::SPP => StartScan::SppLookUpApp,
            ConnectType::BLE => {
                if self.platform == Platform::Android {
                    return StartScan::Finished(Err(ScanError::AdapterNotFound));
                }
                let session = self.scan_state;
                self.scan_state = None;
                match session {
                    Some(ScanSession::Ble { id }) => StartScan::BleCancel { id },
                    _ => StartScan::BleAdapter { step: AdapterStep::ble_adapter() },
                }
            },
        }
    }

    fn spp_session(&mut self) -> (r: StartScanStep)
        ensures
            (final(self)@, r@) == spp_session(old(self)@),
    {
        if self.scan_state.is_some() {
            return StartScan::Finished(Ok(()));
        }
        let id: usize = following(self.scan_seq);
        self.scan_seq = id;
        self.scan_state = Some(ScanSession::Spp { id });
        StartScan::SppSpawn { id }
    }

    fn ble_session(&mut self) -> (r: StartScanStep)
        ensures
            (final(self)@, r@) == ble_session(old(self)@),
    {
        let id: usize = following(self.scan_seq);
        self.scan_seq = id;
        self.scan_state = Some(ScanSession::Ble { id });
        StartScan::BleSpawn { id }
    }

    fn ble_prepare(&mut self) -> (r: StartScanStep)
        ensures
            (final(self)@, r@) == ble_prepare(old(self)@),
    {
        self.scan_results = Vec::new();
        self.ble_scanned_devices.clear();
        assert(self@ =~= (ImpState {
            scanned: Map::empty(),
            results: Seq::empty(),
            ..old(self)@
        }));
        if self.platform == Platform::Ios {
            StartScan::BleQueryConnected
        } else {
            self.ble_session()
        }
    }

    /// Begins a scan with the peripherals that are connected to the system. The devices that are
    /// handed back are to be reported.
    pub fn ble_seed_scan_with_connected(&mut self, peers: Vec<Peer>) -> (r: Vec<BluetoothDevice>)
        ensures
            final(self)@ == seed(old(self)@, peer_entries(peers@)).0,
            entries(r@) == seed(old(self)@, peer_entries(peers@)).1,
    {
        let ghost all = peer_entries(peers@);
        let mut out: Vec<BluetoothDevice> = Vec::new();
        assert(all.take(0) =~= Seq::<PeerEntry>::empty());
        assert(entries(out@) =~= Seq::<DeviceEntry>::empty());
        for peer in it: peers
            invariant
                it.seq() == peers@,
                all == peer_entries(peers@),
                self@ == seed(old(self)@, all.take(it.index())).0,
                entries(out@) == seed(old(self)@, all.take(it.index())).1,
        {
            let ghost n = it.index();
            let ghost before = self@;
            let ghost reported = out@;
            proof {
                assert(peer@ == all[n]);
                assert(all.take(n + 1).drop_last() =~= all.take(n));
                assert(all.take(n + 1).last() == all[n]);
            }
            let device = peer.device;
            let addr = peer.id;
            let key = normalize_addr_for_dedup(addr.as_str());
            if !key.as_str().is_empty() && !self.ble_scanned_devices.contains_key(&addr) {
                let name = name_or_empty(peer.name);
                self.ble_scanned_devices.insert(addr.clone(), device);
                self.scan_results.push(BluetoothDevice { name: name.clone(), addr: addr.clone() });
                assert(entries(self.scan_results@) =~= before.results.push(all[n].entry));
                out.push(BluetoothDevice { name, addr });
                assert(entries(out@) =~= entries(reported).push(all[n].entry));
            }
        }
        assert(all.take(all.len() as int) == all);
        out
    }

    /// The step that follows when the driver has answered a step of starting a scan.
    pub fn start_scan_step(&mut self, step: StartScanStep, reply: Reply) -> (r: StartScanStep)
        ensures
            (final(self)@, r@) == start_scan_next(old(self)@, step@, reply@),
    {
        match (step, reply) {
            (StartScan::SppLookUpApp, Reply::Flag(yes)) => {
                if yes {
                    self.spp_session()
                } else {
                    StartScan::Finished(Err(ScanError::AdapterNotFound))
                }
            },
            (StartScan::SppSpawn { id: _ }, _) => StartScan::SppStart,
            (StartScan::SppStart, Reply::Flag(yes)) => {
                if yes {
                    StartScan::Finished(Ok(()))
                } else {
                    StartScan::Finished(Err(ScanError::AdapterNotFound))
                }
            },
            (StartScan::BleCancel { id }, _) => StartScan::BleAwait { id },
            (StartScan::BleAwait { id: _ }, _) => StartScan::BleAdapter {
                step: AdapterStep::ble_adapter(),
            },
            (StartScan::BleAdapter { step: at }, Reply::Flag(yes)) => match at.advance(yes) {
                AdapterStep::Finished(Ok(_)) => {
                    if self.platform == Platform::Linux {
                        StartScan::BleLookUpApp
                    } else {
                        self.ble_prepare()
                    }
                },
                AdapterStep::Finished(Err(_)) => {
                    StartScan::Finished(Err(ScanError::AdapterNotFound))
                },
                due => StartScan::BleAdapter { step: due },
            },
            (StartScan::BleLookUpApp, Reply::Flag(yes)) => {
                if yes {
                    StartScan::BleStopClassic
                } else {
                    self.ble_prepare()
                }
            },
            (StartScan::BleStopClassic, _) => self.ble_prepare(),
            (StartScan::BleQueryConnected, Reply::Peers(Some(peers))) => {
                let devices = self.ble_seed_scan_with_connected(peers);
                StartScan::BleReport { devices }
            },
            (StartScan::BleQueryConnected, Reply::Peers(None)) => self.ble_session(),
            (StartScan::BleReport { devices: _ }, _) => self.ble_session(),
            (StartScan::BleSpawn { id: _ }, _) => StartScan::Finished(Ok(())),
            (step, _) => step,
        }
    }
}

} // verus!
