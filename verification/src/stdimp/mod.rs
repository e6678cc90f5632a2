//! The transports of an ordinary computer or phone: classic serial port and low energy.
use std::collections::HashMap;

use vstd::prelude::*;

use crate::ble::{BluestDevice, BluestService, Characteristic, Uuid};
use crate::btinterface::{BluetoothDevice, ConnectType};
#[allow(unused_imports)]
use crate::btinterface::{entries, DeviceEntry};
use crate::device_table::DeviceTable;
use crate::driver::{Listener, Platform};

pub mod adapter;
pub mod connect;
pub mod connect_laws;
pub mod disconnect;
pub mod discovery;
pub mod exchange_laws;
pub mod laws;
pub mod listener;
pub mod notify;
pub mod progress_laws;
pub mod radio_laws;
pub mod report_laws;
pub mod scan;
pub mod scan_laws;
pub mod send;
pub mod sightings;
pub mod start_scan;
pub mod stop_scan;
pub mod subscribe;

pub use crate::address::normalize_addr_for_dedup;

verus! {

/// The characteristics of a Xiaomi device that are used when the caller names none.
#[derive(Debug, Clone, Copy)]
pub struct BleCharacteristicBundle {
    pub service: Option<Uuid>,
    pub recv: Option<Uuid>,
    pub sent: Option<Uuid>,
}

/// A scan that is under way. The number tells it from earlier and later scans.
#[derive(Debug, Clone, Copy, PartialEq, Eq, Structural)]
pub enum ScanSession {
    Spp { id: usize },
    Ble { id: usize },
}

/// What a transport knows: the device it is connected to, what it has found, and the scan that
/// is under way.
pub struct StdImp {
    connect_type: ConnectType,
    platform: Platform,
    ble_device: Option<BluestDevice>,
    ble_services: Option<Vec<BluestService>>,
    ble_chara_cache: HashMap<u128, Characteristic>,
    ble_char_bundle: Option<BleCharacteristicBundle>,
    ble_scanned_devices: DeviceTable,
    ble_on_connected: Option<Listener>,
    scan_state: Option<ScanSession>,
    scan_seq: usize,
    scan_results: Vec<BluetoothDevice>,
}

/// The content of a [`StdImp`].
#[verifier::ext_equal]
pub struct ImpState {
    pub connect_type: ConnectType,
    pub platform: Platform,
    pub device: Option<BluestDevice>,
    pub services: Option<Seq<BluestService>>,
    pub cache: Map<u128, Characteristic>,
    pub bundle: Option<BleCharacteristicBundle>,
    pub scanned: Map<Seq<char>, BluestDevice>,
    pub listener: Option<Listener>,
    pub session: Option<ScanSession>,
    pub scan_seq: usize,
    pub results: Seq<DeviceEntry>,
}

impl View for StdImp {
    type V = ImpState;

    closed spec fn view(&self) -> ImpState {
        ImpState {
            connect_type: self.connect_type,
            platform: self.platform,
            device: self.ble_device,
            services: match self.ble_services {
                Some(list) => Some(list@),
                None => None,
            },
            cache: self.ble_chara_cache@,
            bundle: self.ble_char_bundle,
            scanned: self.ble_scanned_devices@,
            listener: self.ble_on_connected,
            session: self.scan_state,
            scan_seq: self.scan_seq,
            results: entries(self.scan_results@),
        }
    }
}

/// A transport that has neither scanned nor connected.
pub open spec fn fresh_state(connect_type: ConnectType, platform: Platform) -> ImpState {
    ImpState {
        connect_type,
        platform,
        device: None,
        services: None,
        cache: Map::empty(),
        bundle: None,
        scanned: Map::empty(),
        listener: None,
        session: None,
        scan_seq: 0,
        results: Seq::empty(),
    }
}

/// The state with the low-energy connection forgotten: device, services, characteristics and
/// the default characteristics.
pub open spec fn cleared(s: ImpState) -> ImpState {
    ImpState { device: None, services: None, cache: Map::empty(), bundle: None, ..s }
}

impl StdImp {
    /// A transport that has neither scanned nor connected.
    pub fn new(connect_type: ConnectType, platform: Platform) -> (r: StdImp)
        ensures
            r@ == fresh_state(connect_type, platform),
    {
        let r = StdImp {
            connect_type,
            platform,
            ble_device: None,
            ble_services: None,
            ble_chara_cache: HashMap::new(),
            ble_char_bundle: None,
            ble_scanned_devices: DeviceTable::new(),
            ble_on_connected: None,
            scan_state: None,
            scan_seq: 0,
            scan_results: Vec::new(),
        };
        assert(r@ =~= fresh_state(connect_type, platform));
        r
    }

    /// Which of the two transports this is.
    pub fn connect_type(&self) -> (r: ConnectType)
        ensures
            r == self@.connect_type,
    {
        self.connect_type
    }

    /// Whether a scan is under way.
    pub fn is_scanning(&self) -> (r: bool)
        ensures
            r == (self@.session is Some),
    {
        self.scan_state.is_some()
    }

    /// The characteristic that is subscribed to when the caller names none.
    pub fn ble_default_recv_uuid(&self) -> (r: Option<Uuid>)
        ensures
            r == match self@.bundle {
                Some(bundle) => bundle.recv,
                None => None,
            },
    {
        match self.ble_char_bundle {
            Some(bundle) => bundle.recv,
            None => None,
        }
    }

    /// The characteristic that is written to when the caller names none.
    pub fn ble_default_sent_uuid(&self) -> (r: Option<Uuid>)
        ensures
            r == match self@.bundle {
                Some(bundle) => bundle.sent,
                None => None,
            },
    {
        match self.ble_char_bundle {
            Some(bundle) => bundle.sent,
            None => None,
        }
    }

    /// The characteristic that is read once a subscription has begun.
    pub fn ble_default_service_uuid(&self) -> (r: Option<Uuid>)
        ensures
            r == match self@.bundle {
                Some(bundle) => bundle.service,
                None => None,
            },
    {
        match self.ble_char_bundle {
            Some(bundle) => bundle.service,
            None => None,
        }
    }

    /// Forgets the low-energy connection.
    pub fn ble_clear_cache(&mut self)
        ensures
            final(self)@ == cleared(old(self)@),
    {
        self.ble_device = None;
        self.ble_services = None;
        self.ble_chara_cache.clear();
        self.ble_char_bundle = None;
        assert(self@ =~= cleared(old(self)@));
    }
}

} // verus!
