//! The answers of the driver that performs the steps of an operation.
//!
//! An operation is a machine whose state is the step that is due. The driver performs that step
//! on the real devices and hands back a [`Reply`]; the machine then says which step is due next.
use vstd::prelude::*;

use crate::ble::{BluestDevice, BluestService, Characteristic};
use crate::btinterface::BluetoothDevice;
#[allow(unused_imports)]
use crate::btinterface::DeviceEntry;

verus! {

/// The operating systems on which the transports behave differently.
#[derive(Debug, Clone, Copy, PartialEq, Eq, Structural)]
pub enum Platform {
    Linux,
    Ios,
    Android,
    Other,
}

/// A callback that the driver keeps for the caller, by the handle it gave it.
#[derive(Debug, Clone, Copy, PartialEq, Eq, Structural)]
pub struct Listener {
    pub handle: u64,
}

/// A low-energy peripheral as the driver sees it: its identifier, and its name where that can be
/// read.
#[derive(Debug)]
pub struct Peer {
    pub device: BluestDevice,
    pub id: String,
    pub name: Option<String>,
}

/// A peripheral with the entry under which it is reported.
pub struct PeerEntry {
    pub device: BluestDevice,
    pub entry: DeviceEntry,
}

/// A device that the classic transport has found, with its name where it has one.
#[derive(Debug)]
pub struct SppDevice {
    pub name: Option<String>,
    pub address: String,
}

/// The name that is shown: the empty text where there is none.
pub open spec fn shown_name(name: Option<String>) -> Seq<char> {
    match name {
        Some(text) => text@,
        None => Seq::empty(),
    }
}

impl View for Peer {
    type V = PeerEntry;

    open spec fn view(&self) -> PeerEntry {
        PeerEntry {
            device: self.device,
            entry: DeviceEntry { name: shown_name(self.name), addr: self.id@ },
        }
    }
}

impl View for SppDevice {
    type V = DeviceEntry;

    open spec fn view(&self) -> DeviceEntry {
        DeviceEntry { name: shown_name(self.name), addr: self.address@ }
    }
}

/// The entries of a list of peripherals.
pub open spec fn peer_entries(peers: Seq<Peer>) -> Seq<PeerEntry> {
    peers.map_values(|p: Peer| p@)
}

/// The entries of a list of classic devices.
pub open spec fn spp_entries(devices: Seq<SppDevice>) -> Seq<DeviceEntry> {
    devices.map_values(|d: SppDevice| d@)
}

pub(crate) fn name_or_empty(name: Option<String>) -> (r: String)
    ensures
        r@ == shown_name(name),
{
    match name {
        Some(text) => text,
        None => String::new(),
    }
}

impl SppDevice {
    /// The device as it is reported to the caller of a scan.
    pub(crate) fn into_report(self) -> (r: BluetoothDevice)
        ensures
            r@ == self@,
    {
        BluetoothDevice { name: name_or_empty(self.name), addr: self.address }
    }
}

/// How an attempt to start low-energy discovery went.
#[derive(Debug, Clone, Copy, PartialEq, Eq, Structural)]
pub enum ScanOpening {
    Started,
    AlreadyScanning,
    Failed,
}

/// What came next on a discovery stream: a peripheral, its end, or the wish to stop listening.
#[derive(Debug)]
pub enum Heard {
    Found(Peer),
    Ended,
    Cancelled,
}

/// What the driver answers to a step. Where nothing else is said, `None` inside an answer says
/// that the call failed.
#[derive(Debug)]
pub enum Reply {
    /// The step was performed, and there is nothing to tell of it.
    Done,
    /// Yes or no: something is there, or a call succeeded.
    Flag(bool),
    /// Whether the classic transport accepted the connection.
    SppConnected(Option<bool>),
    /// The devices that the classic transport has found.
    SppDevices(Option<Vec<SppDevice>>),
    /// The peripherals that are connected to the system already.
    Peers(Option<Vec<Peer>>),
    /// How an attempt to start discovery went.
    Scan(ScanOpening),
    /// What came next on a discovery stream.
    Heard(Heard),
    /// The services of a peripheral.
    Services(Option<Vec<BluestService>>),
    /// The characteristics of a service.
    Characteristics(Option<Vec<Characteristic>>),
    /// Whether a characteristic sends notifications now, or why not.
    NotifyStarted(Result<(), String>),
    /// The next notification: data, or what went wrong. `None` says that there are no more.
    Notification(Option<Result<Vec<u8>, String>>),
}

/// The content of a [`Heard`].
pub enum HeardView {
    Found(PeerEntry),
    Ended,
    Cancelled,
}

impl View for Heard {
    type V = HeardView;

    open spec fn view(&self) -> HeardView {
        match *self {
            Heard::Found(peer) => HeardView::Found(peer@),
            Heard::Ended => HeardView::Ended,
            Heard::Cancelled => HeardView::Cancelled,
        }
    }
}

/// The content of a [`Reply`].
pub enum ReplyView {
    Done,
    Flag(bool),
    SppConnected(Option<bool>),
    SppDevices(Option<Seq<DeviceEntry>>),
    Peers(Option<Seq<PeerEntry>>),
    Scan(ScanOpening),
    Heard(HeardView),
    Services(Option<Seq<BluestService>>),
    Characteristics(Option<Seq<Characteristic>>),
    NotifyStarted(Result<(), Seq<char>>),
    Notification(Option<Result<Seq<u8>, Seq<char>>>),
}

/// The content of a notification.
pub open spec fn item_view(item: Result<Vec<u8>, String>) -> Result<Seq<u8>, Seq<char>> {
    match item {
        Ok(data) => Ok(data@),
        Err(message) => Err(message@),
    }
}

impl View for Reply {
    type V = ReplyView;

    open spec fn view(&self) -> ReplyView {
        match *self {
            Reply::Done => ReplyView::Done,
            Reply::Flag(yes) => ReplyView::Flag(yes),
            Reply::SppConnected(answer) => ReplyView::SppConnected(answer),
            Reply::SppDevices(Some(list)) => ReplyView::SppDevices(Some(spp_entries(list@))),
            Reply::SppDevices(None) => ReplyView::SppDevices(None),
            Reply::Peers(Some(list)) => ReplyView::Peers(Some(peer_entries(list@))),
            Reply::Peers(None) => ReplyView::Peers(None),
            Reply::Scan(opening) => ReplyView::Scan(opening),
            Reply::Heard(heard) => ReplyView::Heard(heard@),
            Reply::Services(Some(list)) => ReplyView::Services(Some(list@)),
            Reply::Services(None) => ReplyView::Services(None),
            Reply::Characteristics(Some(list)) => ReplyView::Characteristics(Some(list@)),
            Reply::Characteristics(None) => ReplyView::Characteristics(None),
            Reply::NotifyStarted(Ok(_)) => ReplyView::NotifyStarted(Ok(())),
            Reply::NotifyStarted(Err(message)) => ReplyView::NotifyStarted(Err(message@)),
            Reply::Notification(Some(item)) => ReplyView::Notification(Some(item_view(item))),
            Reply::Notification(None) => ReplyView::Notification(None),
        }
    }
}

/// A peripheral is reported with its identifier for an address, and under the name that could be
/// read, or none.
pub proof fn law_what_is_reported_of_a_peer(peer: Peer)
    ensures
        peer@.device == peer.device,
        peer@.entry.addr == peer.id@,
        match peer.name {
            Some(name) => peer@.entry.name == name@,
            None => peer@.entry.name.len() == 0,
        },
{
}

/// A classic device is reported with its address, and under the name that it has, or none.
pub proof fn law_what_is_reported_of_a_classic_device(device: SppDevice)
    ensures
        device@.addr == device.address@,
        match device.name {
            Some(name) => device@.name == name@,
            None => device@.name.len() == 0,
        },
{
}

/// The entries of lists are those of their elements, one for one.
pub proof fn law_entries_of_lists(peers: Seq<Peer>, devices: Seq<SppDevice>)
    ensures
        peer_entries(peers).len() == peers.len(),
        forall|i: int| 0 <= i < peers.len() ==> #[trigger] peer_entries(peers)[i] == peers[i]@,
        spp_entries(devices).len() == devices.len(),
        forall|i: int| 0 <= i < devices.len() ==> #[trigger] spp_entries(devices)[i] == devices[i]@,
{
}

/// What an answer says is what the driver has put into it: lists are taken whole and in order,
/// texts and data as they are.
pub proof fn law_what_an_answer_says(reply: Reply)
    ensures
        match reply {
            Reply::Done => reply@ is Done,
            Reply::Flag(yes) => reply@ == ReplyView::Flag(yes),
            Reply::SppConnected(answer) => reply@ == ReplyView::SppConnected(answer),
            Reply::SppDevices(None) => reply@ == ReplyView::SppDevices(None),
            Reply::SppDevices(Some(list)) => (reply@ matches ReplyView::SppDevices(Some(shown))
                && shown.len() == list@.len() && forall|i: int|
                0 <= i < shown.len() ==> (#[trigger] shown[i]).addr == list@[i].address@),
            Reply::Peers(None) => reply@ == ReplyView::Peers(None),
            Reply::Peers(Some(list)) => (reply@ matches ReplyView::Peers(Some(shown)) && shown.len()
                == list@.len() && forall|i: int|
                0 <= i < shown.len() ==> (#[trigger] shown[i]).entry.addr == list@[i].id@
                    && shown[i].device == list@[i].device),
            Reply::Scan(opening) => reply@ == ReplyView::Scan(opening),
            Reply::Heard(Heard::Found(peer)) => (reply@ matches ReplyView::Heard(
                HeardView::Found(shown),
            ) && shown.device == peer.device && shown.entry.addr == peer.id@),
            Reply::Heard(Heard::Ended) => reply@ == ReplyView::Heard(HeardView::Ended),
            Reply::Heard(Heard::Cancelled) => reply@ == ReplyView::Heard(HeardView::Cancelled),
            Reply::Services(None) => reply@ == ReplyView::Services(None),
            Reply::Services(Some(list)) => reply@ == ReplyView::Services(Some(list@)),
            Reply::Characteristics(None) => reply@ == ReplyView::Characteristics(None),
            Reply::Characteristics(Some(list)) => reply@ == ReplyView::Characteristics(Some(list@)),
            Reply::NotifyStarted(Ok(_)) => reply@ == ReplyView::NotifyStarted(Ok(())),
            Reply::NotifyStarted(Err(message)) => reply@ == ReplyView::NotifyStarted(Err(message@)),
            Reply::Notification(None) => reply@ == ReplyView::Notification(None),
            Reply::Notification(Some(Ok(data))) => reply@ == ReplyView::Notification(
                Some(Ok(data@)),
            ),
            Reply::Notification(Some(Err(message))) => reply@ == ReplyView::Notification(
                Some(Err(message@)),
            ),
        },
{
}

} // verus!
