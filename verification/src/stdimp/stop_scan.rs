//! Stopping a scan.
use vstd::hash_set::StringHashSet;
use vstd::prelude::*;

use crate::btinterface::{BluetoothDevice, ConnectType, ScanError};
#[allow(unused_imports)]
use crate::btinterface::{entries, DeviceEntry};
use crate::driver::{Platform, Reply};
#[allow(unused_imports)]
use crate::driver::ReplyView;
use crate::stdimp::sightings::report_first_sightings;
#[allow(unused_imports)]
use crate::stdimp::sightings::first_sightings;
use crate::stdimp::{ScanSession, StdImp};
#[allow(unused_imports)]
use crate::stdimp::ImpState;

verus! {

/// Stopping a scan. `D` is a list of devices.
#[derive(Debug)]
pub enum StopScan<D> {
    /// Abort the classic scan of session `id`.
    SppAbort { id: usize },
    /// Tell the low-energy scan of session `id` to stop.
    BleCancel { id: usize },
    /// Wait until it has finished, for [`BLE_SHUTDOWN_SECONDS`](crate::stdimp::scan::BLE_SHUTDOWN_SECONDS)
    /// at most.
    BleAwait { id: usize },
    /// Is the classic transport at hand? A classic scan was under way where `was_scanning` holds.
    SppLookUpApp { was_scanning: bool },
    /// Let the classic transport stop scanning.
    SppStop,
    /// Ask the classic transport for the devices it has found.
    SppGetDevices,
    Finished(Result<D, ScanError>),
}

pub type StopScanStep = StopScan<Vec<BluetoothDevice>>;

pub type StopScanView = StopScan<Seq<DeviceEntry>>;

impl View for StopScan<Vec<BluetoothDevice>> {
    type V = StopScan<Seq<DeviceEntry>>;

    open spec fn view(&self) -> StopScan<Seq<DeviceEntry>> {
        match *self {
            StopScan::SppAbort { id } => StopScan::SppAbort { id },
            StopScan::BleCancel { id } => StopScan::BleCancel { id },
            StopScan::BleAwait { id } => StopScan::BleAwait { id },
            StopScan::SppLookUpApp { was_scanning } => StopScan::SppLookUpApp { was_scanning },
            StopScan::SppStop => StopScan::SppStop,
            StopScan::SppGetDevices => StopScan::SppGetDevices,
            StopScan::Finished(Ok(devices)) => StopScan::Finished(Ok(entries(devices@))),
            StopScan::Finished(Err(error)) => StopScan::Finished(Err(error)),
        }
    }
}

/// The scan no longer runs. The classic transport is asked for what it has found; of a
/// low-energy scan the results are handed over.
pub open spec fn scan_halted(s: ImpState, was_scanning: bool) -> (ImpState, StopScanView) {
    match s.connect_type {
        ConnectType::SPP => (s, StopScan::SppLookUpApp { was_scanning }),
        ConnectType::BLE => (
            ImpState { results: Seq::empty(), ..s },
            StopScan::Finished(Ok(s.results)),
        ),
    }
}

/// The first step of stopping a scan: whatever scan is under way is no longer the current one,
/// and is made to end.
pub open spec fn stop_scan_begin(s: ImpState) -> (ImpState, StopScanView) {
    let idle = ImpState { session: None, ..s };
    match s.session {
        Some(ScanSession::Spp { id }) => (idle, StopScan::SppAbort { id }),
        Some(ScanSession::Ble { id }) => if s.platform == Platform::Android {
            scan_halted(idle, false)
        } else {
            (idle, StopScan::BleCancel { id })
        },
        None => scan_halted(idle, false),
    }
}

/// The state and the step that follow a step and the driver's answer to it. An answer that does
/// not belong to the step leaves it due.
pub open spec fn stop_scan_next(s: ImpState, step: StopScanView, reply: ReplyView) -> (
    ImpState,
    StopScanView,
) {
    match (step, reply) {
        (StopScan::SppAbort { id: _ }, _) => scan_halted(s, true),
        (StopScan::BleCancel { id }, _) => (s, StopScan::BleAwait { id }),
        (StopScan::BleAwait { id: _ }, _) => scan_halted(s, false),
        (StopScan::SppLookUpApp { was_scanning }, ReplyView::Flag(yes)) => if !yes {
            (s, StopScan::Finished(Err(ScanError::AdapterNotFound)))
        } else if was_scanning {
            (s, StopScan::SppStop)
        } else {
            (s, StopScan::SppGetDevices)
        },
        (StopScan::SppStop, ReplyView::Flag(yes)) => if yes {
            (s, StopScan::SppGetDevices)
        } else {
            (s, StopScan::Finished(Err(ScanError::AdapterNotFound)))
        },
        (StopScan::SppGetDevices, ReplyView::SppDevices(answer)) => match answer {
            None => (s, StopScan::Finished(Err(ScanError::AdapterNotFound))),
            Some(list) => (s, StopScan::Finished(Ok(first_sightings(Set::empty(), list)))),
        },
        (step, _) => (s, step),
    }
}

impl StdImp {
    fn scan_halted(&mut self, was_scanning: bool) -> (r: StopScanStep)
        ensures
            (final(self)@, r@) == scan_halted(old(self)@, was_scanning),
    {
        match self.connect_type {
            ConnectType::SPP => StopScan::SppLookUpApp { was_scanning },
            ConnectType::BLE => {
                let mut results: Vec<BluetoothDevice> = Vec::new();
                std::mem::swap(&mut results, &mut self.scan_results);
                assert(self@ =~= (ImpState { results: Seq::empty(), ..old(self)@ }));
                StopScan::Finished(Ok(results))
            },
        }
    }

    /// The first step of stopping a scan.
    pub fn stop_scan(&mut self) -> (r: StopScanStep)
        ensures
            (final(self)@, r@) == stop_scan_begin(old(self)@),
    {
        let session = self.scan_state;
        self.scan_state = None;
        match session {
            Some(ScanSession::Spp { id }) => StopScan::SppAbort { id },
            Some(ScanSession::Ble { id }) => {
                if self.platform == Platform::Android {
                    self.scan_halted(false)
                } else {
                    StopScan::BleCancel { id }
                }
            },
            None => self.scan_halted(false),
        }
    }

    /// The step that follows when the driver has answered a step of stopping a scan.
    pub fn stop_scan_step(&mut self, step: StopScanStep, reply: Reply) -> (r: StopScanStep)
        ensures
            (final(self)@, r@) == stop_scan_next(old(self)@, step@, reply@),
    {
        match (step, reply) {
            (StopScan::SppAbort { id: _ }, _) => self.scan_halted(true),
            (StopScan::BleCancel { id }, _) => StopScan::BleAwait { id },
            (StopScan::BleAwait { id: _ }, _) => self.scan_halted(false),
            (StopScan::SppLookUpApp { was_scanning }, Reply::Flag(yes)) => {
                if !yes {
                    StopScan::Finished(Err(ScanError::AdapterNotFound))
                } else if was_scanning {
                    StopScan::SppStop
                } else {
                    StopScan::SppGetDevices
                }
            },
            (StopScan::SppStop, Reply::Flag(yes)) => {
                if yes {
                    StopScan::SppGetDevices
                } else {
                    StopScan::Finished(Err(ScanError::AdapterNotFound))
                }
            },
            (StopScan::SppGetDevices, Reply::SppDevices(answer)) => match answer {
                None => StopScan::Finished(Err(ScanError::AdapterNotFound)),
                Some(list) => {
                    let mut seen = StringHashSet::new();
                    StopScan::Finished(Ok(report_first_sightings(&mut seen, list)))
                },
            },
            (step, _) => step,
        }
    }
}

} // verus!
