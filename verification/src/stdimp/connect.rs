//! Connecting to a device.
use vstd::prelude::*;

use crate::address::normalize_addr_for_dedup;
#[allow(unused_imports)]
use crate::address::dedup_key;
use crate::ble::{BluestDevice, BluestService};
use crate::btinterface::{ConnectError, ConnectType};
use crate::driver::{Heard, Listener, Peer, Platform, Reply, ScanOpening};
#[allow(unused_imports)]
use crate::driver::{peer_entries, HeardView, PeerEntry, ReplyView};
use crate::stdimp::adapter::AdapterStep;
#[allow(unused_imports)]
use crate::stdimp::adapter::adapter_next;
use crate::stdimp::discovery::ExtractStep;
#[allow(unused_imports)]
use crate::stdimp::discovery::{empty_bundle, extract_from, extract_next};
use crate::stdimp::{BleCharacteristicBundle, StdImp};
#[allow(unused_imports)]
use crate::stdimp::ImpState;
use crate::text::eq_ignore_ascii_case;
#[allow(unused_imports)]
use crate::text::equal_ignoring_case;

verus! {

/// How long, in seconds, a device that no scan has found is searched for.
pub const CONNECT_SCAN_SECONDS: u64 = 12;

/// How long, in milliseconds, the search rests when the discovery stream has nothing.
pub const CONNECT_SCAN_PAUSE_MILLIS: u64 = 60;

/// How often a device that does not report itself connected is asked again.
pub const CONNECT_POLL_LIMIT: u32 = 20;

/// How long, in milliseconds, to wait before it is asked again.
pub const CONNECT_POLL_MILLIS: u64 = 100;

/// Connecting to the device with a given address. `A` is a text, `L` a list of services.
#[derive(Debug)]
pub enum Connect<A, L> {
    /// Is the classic transport at hand?
    SppLookUpApp { addr: A },
    /// Connect over the classic transport.
    SppConnect { addr: A },
    /// Obtain the radio.
    BleAdapter { addr: A, step: AdapterStep },
    /// List the peripherals that are connected to the system already.
    BleQueryConnected { addr: A },
    /// Start discovery, and the time of [`CONNECT_SCAN_SECONDS`] from now.
    BleOpenScan { addr: A },
    /// Is there time left?
    BleCheckDeadline { addr: A },
    /// Take the next peripheral off the discovery stream.
    BleNextAdvertisement { addr: A },
    /// Wait for [`CONNECT_SCAN_PAUSE_MILLIS`].
    BlePauseScan { addr: A },
    /// Is the device connected to the system already?
    BleIsConnected { device: BluestDevice },
    /// Connect the device.
    BleConnectDevice { device: BluestDevice },
    /// Does the device report itself connected?
    BlePollConnected { device: BluestDevice, attempts: u32 },
    /// Wait for [`CONNECT_POLL_MILLIS`].
    BlePausePoll { device: BluestDevice, attempts: u32 },
    /// Pair with the device.
    BlePair { device: BluestDevice },
    /// List the services of the device.
    BleDiscoverServices { device: BluestDevice },
    /// List the characteristics of the service at position `index`.
    BleDiscoverCharacteristics {
        device: BluestDevice,
        services: L,
        index: usize,
        bundle: BleCharacteristicBundle,
    },
    /// Tell the listener that the device is connected.
    BleInvokeListener { listener: Listener },
    Finished(Result<(), ConnectError>),
}

pub type ConnectStep = Connect<String, Vec<BluestService>>;

pub type ConnectView = Connect<Seq<char>, Seq<BluestService>>;

impl View for Connect<String, Vec<BluestService>> {
    type V = Connect<Seq<char>, Seq<BluestService>>;

    open spec fn view(&self) -> Connect<Seq<char>, Seq<BluestService>> {
        match *self {
            Connect::SppLookUpApp { addr } => Connect::SppLookUpApp { addr: addr@ },
            Connect::SppConnect { addr } => Connect::SppConnect { addr: addr@ },
            Connect::BleAdapter { addr, step } => Connect::BleAdapter { addr: addr@, step },
            Connect::BleQueryConnected { addr } => Connect::BleQueryConnected { addr: addr@ },
            Connect::BleOpenScan { addr } => Connect::BleOpenScan { addr: addr@ },
            Connect::BleCheckDeadline { addr } => Connect::BleCheckDeadline { addr: addr@ },
            Connect::BleNextAdvertisement { addr } => Connect::BleNextAdvertisement { addr: addr@ },
            Connect::BlePauseScan { addr } => Connect::BlePauseScan { addr: addr@ },
            Connect::BleIsConnected { device } => Connect::BleIsConnected { device },
            Connect::BleConnectDevice { device } => Connect::BleConnectDevice { device },
            Connect::BlePollConnected { device, attempts } => Connect::BlePollConnected {
                device,
                attempts,
            },
            Connect::BlePausePoll { device, attempts } => Connect::BlePausePoll {
                device,
                attempts,
            },
            Connect::BlePair { device } => Connect::BlePair { device },
            Connect::BleDiscoverServices { device } => Connect::BleDiscoverServices { device },
            Connect::BleDiscoverCharacteristics { device, services, index, bundle } => {
                Connect::BleDiscoverCharacteristics { device, services: services@, index, bundle }
            },
            Connect::BleInvokeListener { listener } => Connect::BleInvokeListener { listener },
            Connect::Finished(result) => Connect::Finished(result),
        }
    }
}

/// The first step of connecting.
pub open spec fn connect_begin(s: ImpState, addr: Seq<char>) -> ConnectView {
    match s.connect_type {
        ConnectType::SPP => Connect::SppLookUpApp { addr },
        ConnectType::BLE => if s.platform == Platform::Android {
            Connect::Finished(Err(ConnectError::DeviceNotFound))
        } else {
            Connect::BleAdapter { addr, step: AdapterStep::LookUp }
        },
    }
}

/// An identifier names the device that is asked for: the two are equal but for the case of
/// letters, or they have the same key and the key is not empty.
pub open spec fn names_device(id: Seq<char>, addr: Seq<char>) -> bool {
    ||| equal_ignoring_case(id, addr)
    ||| {
        &&& dedup_key(addr).len() > 0
        &&& dedup_key(id).len() > 0
        &&& equal_ignoring_case(dedup_key(id), dedup_key(addr))
    }
}

/// The first of the connected peripherals whose identifier names the device that is asked for.
pub open spec fn probe(peers: Seq<PeerEntry>, addr: Seq<char>) -> Option<BluestDevice>
    decreases peers.len(),
{
    if peers.len() == 0 {
        None
    } else if names_device(peers.first().entry.addr, addr) {
        Some(peers.first().device)
    } else {
        probe(peers.drop_first(), addr)
    }
}

/// The device is at hand: it is connected, unless the system has done so already.
pub open spec fn connect_device(s: ImpState, device: BluestDevice) -> ConnectView {
    if s.platform == Platform::Ios {
        Connect::BleIsConnected { device }
    } else {
        Connect::BleConnectDevice { device }
    }
}

/// The device has been found under the address that was asked for, and is remembered so.
pub open spec fn connect_found(s: ImpState, addr: Seq<char>, device: BluestDevice) -> (
    ImpState,
    ConnectView,
) {
    (ImpState { scanned: s.scanned.insert(addr, device), ..s }, connect_device(s, device))
}

/// The radio is at hand: the device is one that a scan has found, or it has to be searched for.
pub open spec fn connect_locate(s: ImpState, addr: Seq<char>) -> ConnectView {
    if s.scanned.contains_key(addr) {
        connect_device(s, s.scanned[addr])
    } else if s.platform == Platform::Ios {
        Connect::BleQueryConnected { addr }
    } else {
        Connect::BleOpenScan { addr }
    }
}

/// The characteristics have been looked through, or are still to be. Where they are found, the
/// device and its services become the connection, and the listener, if there is one, is told.
pub open spec fn connect_extracted(
    device: BluestDevice,
    services: Seq<BluestService>,
    found: (ImpState, ExtractStep),
) -> (ImpState, ConnectView) {
    let (s, step) = found;
    match step {
        ExtractStep::Discover { index, bundle } => (
            s,
            Connect::BleDiscoverCharacteristics { device, services, index, bundle },
        ),
        ExtractStep::Finished(Err(error)) => (s, Connect::Finished(Err(error))),
        ExtractStep::Finished(Ok(_)) => (
            ImpState { device: Some(device), services: Some(services), ..s },
            match s.listener {
                Some(listener) => Connect::BleInvokeListener { listener },
                None => Connect::Finished(Ok(())),
            },
        ),
    }
}

/// The state and the step that follow a step and the driver's answer to it. An answer that does
/// not belong to the step leaves it due.
pub open spec fn connect_next(s: ImpState, step: ConnectView, reply: ReplyView) -> (
    ImpState,
    ConnectView,
) {
    match (step, reply) {
        (Connect::SppLookUpApp { addr }, ReplyView::Flag(yes)) => if yes {
            (s, Connect::SppConnect { addr })
        } else {
            (s, Connect::Finished(Err(ConnectError::DeviceNotFound)))
        },
        (Connect::SppConnect { addr: _ }, ReplyView::SppConnected(answer)) => match answer {
            Some(true) => (s, Connect::Finished(Ok(()))),
            Some(false) => (s, Connect::Finished(Err(ConnectError::TargetRejected))),
            None => (s, Connect::Finished(Err(ConnectError::DeviceNotFound))),
        },
        (Connect::BleAdapter { addr, step: at }, ReplyView::Flag(yes)) => match adapter_next(
            at,
            yes,
        ) {
            AdapterStep::Finished(Ok(_)) => (s, connect_locate(s, addr)),
            AdapterStep::Finished(Err(error)) => (s, Connect::Finished(Err(error))),
            due => (s, Connect::BleAdapter { addr, step: due }),
        },
        (Connect::BleQueryConnected { addr }, ReplyView::Peers(answer)) => match answer {
            Some(peers) => match probe(peers, addr) {
                Some(device) => connect_found(s, addr, device),
                None => (s, Connect::BleOpenScan { addr }),
            },
            None => (s, Connect::BleOpenScan { addr }),
        },
        (Connect::BleOpenScan { addr }, ReplyView::Scan(opening)) => if opening
            == ScanOpening::Started {
            (s, Connect::BleCheckDeadline { addr })
        } else {
            (s, Connect::Finished(Err(ConnectError::DeviceNotFound)))
        },
        (Connect::BleCheckDeadline { addr }, ReplyView::Flag(yes)) => if yes {
            (s, Connect::BleNextAdvertisement { addr })
        } else {
            (s, Connect::Finished(Err(ConnectError::DeviceNotFound)))
        },
        (Connect::BleNextAdvertisement { addr }, ReplyView::Heard(HeardView::Found(peer))) => if equal_ignoring_case(
            peer.entry.addr, addr) {
            connect_found(s, addr, peer.device)
        } else {
            (s, Connect::BleCheckDeadline { addr })
        },
        (Connect::BleNextAdvertisement { addr }, ReplyView::Heard(HeardView::Ended)) => (
            s,
            Connect::BlePauseScan { addr },
        ),
        (Connect::BlePauseScan { addr }, _) => (s, Connect::BleCheckDeadline { addr }),
        (Connect::BleIsConnected { device }, ReplyView::Flag(yes)) => if yes {
            (s, Connect::BlePollConnected { device, attempts: 0 })
        } else {
            (s, Connect::BleConnectDevice { device })
        },
        (Connect::BleConnectDevice { device }, ReplyView::Flag(yes)) => if yes {
            (s, Connect::BlePollConnected { device, attempts: 0 })
        } else {
            (s, Connect::Finished(Err(ConnectError::TargetRejected)))
        },
        (Connect::BlePollConnected { device, attempts }, ReplyView::Flag(yes)) => if yes || attempts
            >= CONNECT_POLL_LIMIT {
            (s, Connect::BlePair { device })
        } else {
            (s, Connect::BlePausePoll { device, attempts: (attempts + 1) as u32 })
        },
        (Connect::BlePausePoll { device, attempts }, _) => (
            s,
            Connect::BlePollConnected { device, attempts },
        ),
        (Connect::BlePair { device }, _) => (s, Connect::BleDiscoverServices { device }),
        (Connect::BleDiscoverServices { device }, ReplyView::Services(answer)) => match answer {
            None => (s, Connect::Finished(Err(ConnectError::TargetRejected))),
            Some(services) => connect_extracted(
                device,
                services,
                extract_from(
                    ImpState { cache: Map::empty(), bundle: None, ..s },
                    services,
                    0,
                    empty_bundle(),
                ),
            ),
        },
        (
            Connect::BleDiscoverCharacteristics { device, services, index, bundle },
            ReplyView::Characteristics(chars),
        ) => connect_extracted(
            device,
            services,
            extract_next(s, services, index as int, bundle, chars),
        ),
        (Connect::BleInvokeListener { listener: _ }, _) => (s, Connect::Finished(Ok(()))),
        (step, _) => (s, step),
    }
}

impl StdImp {
    /// The first of the connected peripherals whose identifier names the device that is asked for.
    pub fn ble_probe_connected_device_by_addr(peers: &Vec<Peer>, addr: &str) -> (r: Option<BluestDevice>)
        ensures
            r == probe(peer_entries(peers@), addr@),
    {
        let target = normalize_addr_for_dedup(addr);
        let ghost all = peer_entries(peers@);
        assert(all.skip(0) == all);
        for i in 0..peers.len()
            invariant
                target@ == dedup_key(addr@),
                all == peer_entries(peers@),
                probe(all, addr@) == probe(all.skip(i as int), addr@),
        {
            let id = peers[i].id.as_str();
            let key = normalize_addr_for_dedup(id);
            assert(all.skip(i as int).first() == peers@[i as int]@);
            if eq_ignore_ascii_case(id, addr) || (!target.as_str().is_empty() && !key.as_str().is_empty()
                && eq_ignore_ascii_case(key.as_str(), target.as_str())) {
                return Some(peers[i].device);
            }
            assert(all.skip(i as int).drop_first() == all.skip(i + 1));
        }
        None
    }

    /// The first step of connecting to the device with the given address.
    pub fn connect(&self, addr: String) -> (r: ConnectStep)
        ensures
            r@ == connect_begin(self@, addr@),
    {
        match self.connect_type {
            ConnectType::SPP => Connect::SppLookUpApp { addr },
            ConnectType::BLE => {
                if self.platform == Platform::Android {
                    Connect::Finished(Err(ConnectError::DeviceNotFound))
                } else {
                    Connect::BleAdapter { addr, step: AdapterStep::ble_adapter() }
                }
            },
        }
    }

    fn connect_device(&self, device: BluestDevice) -> (r: ConnectStep)
        ensures
            r@ == connect_device(self@, device),
    {
        if self.platform == Platform::Ios {
            Connect::BleIsConnected { device }
        } else {
            Connect::BleConnectDevice { device }
        }
    }

    fn connect_found(&mut self, addr: String, device: BluestDevice) -> (r: ConnectStep)
        ensures
            (final(self)@, r@) == connect_found(old(self)@, addr@, device),
    {
        self.ble_scanned_devices.insert(addr, device);
        self.connect_device(device)
    }

    fn connect_locate(&self, addr: String) -> (r: ConnectStep)
        ensures
            r@ == connect_locate(self@, addr@),
    {
        match self.ble_scanned_devices.get(&addr) {
            Some(device) => self.connect_device(device),
            None => {
                if self.platform == Platform::Ios {
                    Connect::BleQueryConnected { addr }
                } else {
                    Connect::BleOpenScan { addr }
                }
            },
        }
    }

    fn connect_extracted(
        &mut self,
        device: BluestDevice,
        services: Vec<BluestService>,
        step: ExtractStep,
    ) -> (r: ConnectStep)
        ensures
            (final(self)@, r@) == connect_extracted(device, services@, (old(self)@, step)),
    {
        match step {
            ExtractStep::Discover { index, bundle } => Connect::BleDiscoverCharacteristics {
                device,
                services,
                index,
                bundle,
            },
            ExtractStep::Finished(Err(error)) => Connect::Finished(Err(error)),
            ExtractStep::Finished(Ok(_)) => {
                self.ble_device = Some(device);
                self.ble_services = Some(services);
                match self.ble_on_connected {
                    Some(listener) => Connect::BleInvokeListener { listener },
                    None => Connect::Finished(Ok(())),
                }
            },
        }
    }

    /// The step that follows when the driver has answered a step of connecting.
    pub fn connect_step(&mut self, step: ConnectStep, reply: Reply) -> (r: ConnectStep)
        ensures
            (final(self)@, r@) == connect_next(old(self)@, step@, reply@),
    {
        match (step, reply) {
            (Connect::SppLookUpApp { addr }, Reply::Flag(yes)) => {
                if yes {
                    Connect::SppConnect { addr }
                } else {
                    Connect::Finished(Err(ConnectError::DeviceNotFound))
                }
            },
            (Connect::SppConnect { addr: _ }, Reply::SppConnected(answer)) => match answer {
                Some(true) => Connect::Finished(Ok(())),
                Some(false) => Connect::Finished(Err(ConnectError::TargetRejected)),
                None => Connect::Finished(Err(ConnectError::DeviceNotFound)),
            },
            (Connect::BleAdapter { addr, step: at }, Reply::Flag(yes)) => match at.advance(yes) {
                AdapterStep::Finished(Ok(_)) => self.connect_locate(addr),
                AdapterStep::Finished(Err(error)) => Connect::Finished(Err(error)),
                due => Connect::BleAdapter { addr, step: due },
            },
            (Connect::BleQueryConnected { addr }, Reply::Peers(answer)) => match answer {
                Some(peers) => match Self::ble_probe_connected_device_by_addr(&peers, addr.as_str()) {
                    Some(device) => self.connect_found(addr, device),
                    None => Connect::BleOpenScan { addr },
                },
                None => Connect::BleOpenScan { addr },
            },
            (Connect::BleOpenScan { addr }, Reply::Scan(opening)) => {
                if opening == ScanOpening::Started {
                    Connect::BleCheckDeadline { addr }
                } else {
                    Connect::Finished(Err(ConnectError::DeviceNotFound))
                }
            },
            (Connect::BleCheckDeadline { addr }, Reply::Flag(yes)) => {
                if yes {
                    Connect::BleNextAdvertisement { addr }
                } else {
                    Connect::Finished(Err(ConnectError::DeviceNotFound))
                }
            },
            (Connect::BleNextAdvertisement { addr }, Reply::Heard(Heard::Found(peer))) => {
                if eq_ignore_ascii_case(peer.id.as_str(), addr.as_str()) {
                    self.connect_found(addr, peer.device)
                } else {
                    Connect::BleCheckDeadline { addr }
                }
            },
            (Connect::BleNextAdvertisement { addr }, Reply::Heard(Heard::Ended)) => {
                Connect::BlePauseScan { addr }
            },
            (Connect::BlePauseScan { addr }, _) => Connect::BleCheckDeadline { addr },
            (Connect::BleIsConnected { device }, Reply::Flag(yes)) => {
                if yes {
                    Connect::BlePollConnected { device, attempts: 0 }
                } else {
                    Connect::BleConnectDevice { device }
                }
            },
            (Connect::BleConnectDevice { device }, Reply::Flag(yes)) => {
                if yes {
                    Connect::BlePollConnected { device, attempts: 0 }
                } else {
                    Connect::Finished(Err(ConnectError::TargetRejected))
                }
            },
            (Connect::BlePollConnected { device, attempts }, Reply::Flag(yes)) => {
                if yes || attempts >= CONNECT_POLL_LIMIT {
                    Connect::BlePair { device }
                } else {
                    Connect::BlePausePoll { device, attempts: attempts + 1 }
                }
            },
            (Connect::BlePausePoll { device, attempts }, _) => {
                Connect::BlePollConnected { device, attempts }
            },
            (Connect::BlePair { device }, _) => Connect::BleDiscoverServices { device },
            (Connect::BleDiscoverServices { device }, Reply::Services(answer)) => match answer {
                None => Connect::Finished(Err(ConnectError::TargetRejected)),
                Some(services) => {
                    self.ble_chara_cache.clear();
                    self.ble_char_bundle = None;
                    let bundle = BleCharacteristicBundle { service: None, recv: None, sent: None };
                    let due = self.ble_extract_xiaomi_characteristics(&services, 0, bundle);
                    self.connect_extracted(device, services, due)
                },
            },
            (
                Connect::BleDiscoverCharacteristics { device, services, index, bundle },
                Reply::Characteristics(chars),
            ) => {
                let due = self.ble_extract_step(&services, index, bundle, chars);
                self.connect_extracted(device, services, due)
            },
            (Connect::BleInvokeListener { listener: _ }, _) => Connect::Finished(Ok(())),
            (step, _) => step,
        }
    }
}

} // verus!
