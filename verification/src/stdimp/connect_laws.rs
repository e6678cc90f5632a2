//! What connecting is for: which device it connects to, what it has done to that device when it
//! succeeds, and why it fails. What is said here is said of the answers that came in on the way.
use vstd::prelude::*;

#[allow(unused_imports)]
use crate::address::dedup_key;
#[allow(unused_imports)]
use crate::ble::{BluestDevice, BluestService};
#[allow(unused_imports)]
use crate::btinterface::{ConnectError, ConnectType};
#[allow(unused_imports)]
use crate::driver::{HeardView, PeerEntry, Platform, ReplyView, ScanOpening};
#[allow(unused_imports)]
use crate::stdimp::connect::{
    connect_begin, connect_next, names_device, probe, Connect, ConnectView,
};
#[allow(unused_imports)]
use crate::stdimp::laws::{connect_run, is_search, polls, services_listed};
#[allow(unused_imports)]
use crate::stdimp::ImpState;
#[allow(unused_imports)]
use crate::text::{differ_only_in_case, law_equal_ignoring_case};

verus! {

/// Whether a step was answered on the way in the manner of an event.
pub open spec fn connect_saw(
    s: ImpState,
    step: ConnectView,
    replies: Seq<ReplyView>,
    event: spec_fn(ConnectView, ReplyView) -> bool,
) -> bool
    decreases replies.len(),
{
    replies.len() > 0 && {
        ||| connect_saw(s, step, replies.drop_last(), event)
        ||| event(connect_run(s, step, replies.drop_last()).1, replies.last())
    }
}

// ---- Which device ----

/// While the device is searched for, a peripheral that is heard is taken for it exactly where its
/// identifier is the address that is asked for, but for the case of letters. Else the search goes
/// on as if it had not been heard.
pub proof fn law_search_takes_only_the_device_asked_for(
    s: ImpState,
    addr: Seq<char>,
    peer: PeerEntry,
)
    ensures
        ({
            let heard = ReplyView::Heard(HeardView::Found(peer));
            let (after, due) = connect_next(s, Connect::BleNextAdvertisement { addr }, heard);
            if differ_only_in_case(peer.entry.addr, addr) {
                &&& due matches Connect::BleIsConnected { device } ==> device == peer.device
                &&& due matches Connect::BleConnectDevice { device } ==> device == peer.device
                &&& due is BleIsConnected || due is BleConnectDevice
                &&& after.scanned == s.scanned.insert(addr, peer.device)
            } else {
                after == s && due == Connect::<Seq<char>, Seq<BluestService>>::BleCheckDeadline {
                    addr,
                }
            }
        }),
{
    law_equal_ignoring_case(peer.entry.addr, addr);
}

/// The search rests when nothing is heard, and goes on as long as there is time.
pub proof fn law_search_goes_on(s: ImpState, addr: Seq<char>, reply: ReplyView)
    ensures
        connect_next(
            s,
            Connect::BleNextAdvertisement { addr },
            ReplyView::Heard(HeardView::Ended),
        ) == (s, Connect::<Seq<char>, Seq<BluestService>>::BlePauseScan { addr }),
        connect_next(s, Connect::BlePauseScan { addr }, reply) == (
            s,
            Connect::<Seq<char>, Seq<BluestService>>::BleCheckDeadline { addr },
        ),
        connect_next(s, Connect::BleCheckDeadline { addr }, ReplyView::Flag(true)) == (
            s,
            Connect::<Seq<char>, Seq<BluestService>>::BleNextAdvertisement { addr },
        ),
{
}

/// The device that connecting is for, as far as it is known: the one that is remembered under the
/// address; else, on iOS, the first connected peripheral that the address names; else the first
/// peripheral that was heard with that address for an identifier, but for the case of letters.
pub open spec fn chosen(s: ImpState, addr: Seq<char>, replies: Seq<ReplyView>) -> Option<
    BluestDevice,
>
    decreases replies.len(),
{
    if replies.len() == 0 {
        if s.scanned.contains_key(addr) {
            Some(s.scanned[addr])
        } else {
            None
        }
    } else {
        match chosen(s, addr, replies.drop_last()) {
            Some(device) => Some(device),
            None => match (
                connect_run(s, connect_begin(s, addr), replies.drop_last()).1,
                replies.last(),
            ) {
                (
                    Connect::BleQueryConnected { addr: _ },
                    ReplyView::Peers(Some(peers)),
                ) => probe(peers, addr),
                (
                    Connect::BleNextAdvertisement { addr: _ },
                    ReplyView::Heard(HeardView::Found(peer)),
                ) => if differ_only_in_case(peer.entry.addr, addr) {
                    Some(peer.device)
                } else {
                    None
                },
                _ => None,
            },
        }
    }
}

/// The device that a step is about.
pub open spec fn device_of(step: ConnectView) -> Option<BluestDevice> {
    match step {
        Connect::BleIsConnected { device } => Some(device),
        Connect::BleConnectDevice { device } => Some(device),
        Connect::BlePollConnected { device, attempts: _ } => Some(device),
        Connect::BlePausePoll { device, attempts: _ } => Some(device),
        Connect::BlePair { device } => Some(device),
        Connect::BleDiscoverServices { device } => Some(device),
        Connect::BleDiscoverCharacteristics { device, services: _, index: _, bundle: _ } => Some(
            device,
        ),
        _ => None,
    }
}

/// An identifier names the device that is asked for exactly where the two are equal but for the
/// case of letters, or have the same key and that is not empty.
pub proof fn law_names_device(id: Seq<char>, addr: Seq<char>)
    ensures
        names_device(id, addr) <==> {
            ||| differ_only_in_case(id, addr)
            ||| dedup_key(addr).len() > 0 && dedup_key(id) == dedup_key(addr)
        },
{
    law_equal_ignoring_case(id, addr);
    if dedup_key(addr).len() > 0 {
        crate::stdimp::laws::law_device_is_named_by_its_key(id, addr);
    }
}

/// A low-energy connecting deals with the chosen device and with no other: every step about a
/// device is about that one, it is what is remembered under the address, and where connecting
/// succeeds it is the device that is connected. What is remembered under other addresses is
/// untouched, and every step of the search is for the address that was asked for.
pub proof fn law_the_chosen_device_is_connected(
    s: ImpState,
    addr: Seq<char>,
    replies: Seq<ReplyView>,
)
    requires
        s.connect_type == ConnectType::BLE,
        s.platform != Platform::Android,
    ensures
        ({
            let (after, due) = connect_run(s, connect_begin(s, addr), replies);
            let device = chosen(s, addr, replies);
            &&& device_of(due) is Some ==> device_of(due) == device
            &&& (due is BleInvokeListener || (due matches Connect::Finished(Ok(_)))) ==> after.device
                == device && device is Some
            &&& after.scanned == match device {
                Some(found) => s.scanned.insert(addr, found),
                None => s.scanned,
            }
            &&& is_search(due) && !(due is BleAdapter) ==> device is None
            &&& due matches Connect::BleAdapter { addr: asked, step: _ } ==> asked == addr
            &&& due matches Connect::BleQueryConnected { addr: asked } ==> asked == addr
            &&& due matches Connect::BleOpenScan { addr: asked } ==> asked == addr
            &&& due matches Connect::BleCheckDeadline { addr: asked } ==> asked == addr
            &&& due matches Connect::BleNextAdvertisement { addr: asked } ==> asked == addr
            &&& due matches Connect::BlePauseScan { addr: asked } ==> asked == addr
        }),
{
    lemma_chosen(s, addr, replies);
}

proof fn lemma_chosen(s: ImpState, addr: Seq<char>, replies: Seq<ReplyView>)
    requires
        s.connect_type == ConnectType::BLE,
        s.platform != Platform::Android,
    ensures
        ({
            let (after, due) = connect_run(s, connect_begin(s, addr), replies);
            let device = chosen(s, addr, replies);
            &&& after.platform == s.platform
            &&& after.scanned == match device {
                Some(found) => s.scanned.insert(addr, found),
                None => s.scanned,
            }
            &&& match due {
                Connect::SppLookUpApp { addr: _ } => false,
                Connect::SppConnect { addr: _ } => false,
                Connect::BleAdapter { addr: asked, step } => {
                    &&& asked == addr
                    &&& !(step is Finished)
                    &&& device == chosen(s, addr, Seq::empty())
                },
                Connect::BleQueryConnected { addr: asked } => asked == addr && device is None,
                Connect::BleOpenScan { addr: asked } => asked == addr && device is None,
                Connect::BleCheckDeadline { addr: asked } => asked == addr && device is None,
                Connect::BleNextAdvertisement { addr: asked } => asked == addr && device is None,
                Connect::BlePauseScan { addr: asked } => asked == addr && device is None,
                Connect::BleInvokeListener { listener: _ } => after.device == device && device
                    is Some,
                Connect::Finished(Ok(_)) => after.device == device && device is Some,
                Connect::Finished(Err(_)) => true,
                _ => device_of(due) == device && device is Some,
            }
        }),
    decreases replies.len(),
{
    reveal_with_fuel(chosen, 2);
    if replies.len() == 0 {
        if s.scanned.contains_key(addr) {
            assert(s.scanned.insert(addr, s.scanned[addr]) =~= s.scanned);
        }
    } else {
        lemma_chosen(s, addr, replies.drop_last());
        let (before, due) = connect_run(s, connect_begin(s, addr), replies.drop_last());
        if let Connect::BleNextAdvertisement { addr: _ } = due {
            if let ReplyView::Heard(HeardView::Found(peer)) = replies.last() {
                law_equal_ignoring_case(peer.entry.addr, addr);
            }
        }
    }
}

// ---- What success takes ----

/// The radio is at hand: a lookup of it was answered by yes.
pub open spec fn radio_at_hand() -> spec_fn(ConnectView, ReplyView) -> bool {
    |due: ConnectView, reply: ReplyView|
        due matches Connect::BleAdapter { addr: _, step } && (step is LookUp || step is LookUpAgain)
            && reply == ReplyView::Flag(true)
}

/// The device is connected: connecting it has succeeded, or it was so before.
pub open spec fn device_connected(device: BluestDevice) -> spec_fn(ConnectView, ReplyView) -> bool {
    |due: ConnectView, reply: ReplyView|
        {
            &&& reply == ReplyView::Flag(true)
            &&& {
                ||| due == Connect::<Seq<char>, Seq<BluestService>>::BleConnectDevice { device }
                ||| due == Connect::<Seq<char>, Seq<BluestService>>::BleIsConnected { device }
            }
        }
}

/// The device has reported itself connected.
pub open spec fn reports_connected(device: BluestDevice) -> spec_fn(ConnectView, ReplyView) -> bool {
    |due: ConnectView, reply: ReplyView|
        due matches Connect::BlePollConnected { device: asked, attempts: _ } && asked == device
            && reply == ReplyView::Flag(true)
}

/// The driver was told to pair with the device.
pub open spec fn paired(device: BluestDevice) -> spec_fn(ConnectView, ReplyView) -> bool {
    |due: ConnectView, reply: ReplyView|
        due == Connect::<Seq<char>, Seq<BluestService>>::BlePair { device }
}

/// The device has listed these services.
pub open spec fn listed(device: BluestDevice, services: Seq<BluestService>) -> spec_fn(
    ConnectView,
    ReplyView,
) -> bool {
    |due: ConnectView, reply: ReplyView|
        due == Connect::<Seq<char>, Seq<BluestService>>::BleDiscoverServices { device } && reply
            == ReplyView::Services(Some(services))
}

/// How many of the steps that were answered were rests between asking the device whether it is
/// connected.
pub open spec fn rests(s: ImpState, step: ConnectView, replies: Seq<ReplyView>) -> nat
    decreases replies.len(),
{
    if replies.len() == 0 {
        0
    } else {
        let earlier = rests(s, step, replies.drop_last());
        if connect_run(s, step, replies.drop_last()).1 is BlePausePoll {
            earlier + 1
        } else {
            earlier
        }
    }
}

/// A low-energy connecting does what it has to do, in this order: it has the radio before it
/// deals with any device; it connects the device, or on iOS finds it connected; it asks the
/// device whether it reports itself connected until that says yes, and twenty-one times at most,
/// with a rest after each no; it pairs; it has the device list its services, and looks through
/// these. Where it succeeds all of this has happened to the device that is then connected.
pub proof fn law_connecting_takes_every_step(s: ImpState, addr: Seq<char>, replies: Seq<ReplyView>)
    requires
        s.connect_type == ConnectType::BLE,
        s.platform != Platform::Android,
    ensures
        ({
            let begin = connect_begin(s, addr);
            let (after, due) = connect_run(s, begin, replies);
            let done = due is BleInvokeListener || (due matches Connect::Finished(Ok(_)));
            &&& device_of(due) is Some || (is_search(due) && !(due is BleAdapter)) || done
                ==> connect_saw(s, begin, replies, radio_at_hand())
            &&& due matches Connect::BlePollConnected { device, attempts: _ } ==> connect_saw(
                s,
                begin,
                replies,
                device_connected(device),
            ) && !connect_saw(s, begin, replies, reports_connected(device)) && polls(
                s,
                begin,
                replies,
            ) == rests(s, begin, replies) && polls(s, begin, replies) <= 20
            &&& due matches Connect::BlePair { device } ==> connect_saw(
                s,
                begin,
                replies,
                device_connected(device),
            ) && (connect_saw(s, begin, replies, reports_connected(device)) || polls(
                s,
                begin,
                replies,
            ) == 21)
            &&& due matches Connect::BleDiscoverServices { device } ==> connect_saw(
                s,
                begin,
                replies,
                paired(device),
            )
            &&& due matches Connect::BleDiscoverCharacteristics {
                device,
                services,
                index: _,
                bundle: _,
            } ==> connect_saw(s, begin, replies, listed(device, services))
            &&& done ==> {
                &&& after.device matches Some(device) && after.services matches Some(services)
                    && connect_saw(s, begin, replies, device_connected(device)) && connect_saw(
                    s,
                    begin,
                    replies,
                    paired(device),
                ) && connect_saw(s, begin, replies, listed(device, services))
            }
        }),
{
    lemma_every_step(s, addr, replies);
}

proof fn lemma_every_step(s: ImpState, addr: Seq<char>, replies: Seq<ReplyView>)
    requires
        s.connect_type == ConnectType::BLE,
        s.platform != Platform::Android,
    ensures
        ({
            let begin = connect_begin(s, addr);
            let (after, due) = connect_run(s, begin, replies);
            let radio = connect_saw(s, begin, replies, radio_at_hand());
            let asked = polls(s, begin, replies);
            let rested = rests(s, begin, replies);
            let unasked = asked == 0 && rested == 0;
            match due {
                Connect::SppLookUpApp { addr: _ } => false,
                Connect::SppConnect { addr: _ } => false,
                Connect::BleAdapter { addr: _, step } => unasked && !(step is Finished),
                Connect::BleIsConnected { device: _ } => radio && unasked && forall|d: BluestDevice|
                    !connect_saw(s, begin, replies, #[trigger] reports_connected(d)),
                Connect::BleConnectDevice { device: _ } => radio && unasked && forall|
                    d: BluestDevice,
                | !connect_saw(s, begin, replies, #[trigger] reports_connected(d)),
                Connect::BlePollConnected { device, attempts } => {
                    &&& radio
                    &&& connect_saw(s, begin, replies, device_connected(device))
                    &&& !connect_saw(s, begin, replies, reports_connected(device))
                    &&& asked == attempts && rested == attempts && attempts <= 20
                },
                Connect::BlePausePoll { device, attempts } => {
                    &&& radio
                    &&& connect_saw(s, begin, replies, device_connected(device))
                    &&& !connect_saw(s, begin, replies, reports_connected(device))
                    &&& asked == attempts && rested + 1 == attempts && attempts <= 20
                },
                Connect::BlePair { device } => {
                    &&& radio
                    &&& connect_saw(s, begin, replies, device_connected(device))
                    &&& connect_saw(s, begin, replies, reports_connected(device)) || asked == 21
                },
                Connect::BleDiscoverServices { device } => {
                    &&& radio
                    &&& connect_saw(s, begin, replies, device_connected(device))
                    &&& connect_saw(s, begin, replies, paired(device))
                },
                Connect::BleDiscoverCharacteristics { device, services, index: _, bundle: _ } => {
                    &&& radio
                    &&& connect_saw(s, begin, replies, device_connected(device))
                    &&& connect_saw(s, begin, replies, paired(device))
                    &&& connect_saw(s, begin, replies, listed(device, services))
                },
                Connect::BleInvokeListener { listener: _ } => {
                    &&& radio
                    &&& after.device is Some && after.services is Some
                    &&& connect_saw(s, begin, replies, device_connected(after.device->0))
                    &&& connect_saw(s, begin, replies, paired(after.device->0))
                    &&& connect_saw(
                        s,
                        begin,
                        replies,
                        listed(after.device->0, after.services->0),
                    )
                },
                Connect::Finished(Ok(_)) => {
                    &&& radio
                    &&& after.device is Some && after.services is Some
                    &&& connect_saw(s, begin, replies, device_connected(after.device->0))
                    &&& connect_saw(s, begin, replies, paired(after.device->0))
                    &&& connect_saw(
                        s,
                        begin,
                        replies,
                        listed(after.device->0, after.services->0),
                    )
                },
                Connect::Finished(Err(_)) => true,
                _ => radio && unasked && forall|d: BluestDevice|
                    !connect_saw(s, begin, replies, #[trigger] reports_connected(d)),
            }
        }),
        connect_run(s, connect_begin(s, addr), replies).1 is BleAdapter ==> forall|d: BluestDevice|
            !connect_saw(s, connect_begin(s, addr), replies, #[trigger] reports_connected(d)),
    decreases replies.len(),
{
    if replies.len() > 0 {
        lemma_every_step(s, addr, replies.drop_last());
    }
}

// ---- Why it fails ----

/// The search for the radio or for the device has come to an end without it: there is no radio,
/// discovery does not start, or the time is up.
pub open spec fn search_failed() -> spec_fn(ConnectView, ReplyView) -> bool {
    |due: ConnectView, reply: ReplyView|
        {
            ||| due matches Connect::BleAdapter { addr: _, step } && (step is Open || step
                is AwaitAvailable || step is LookUpAgain) && reply == ReplyView::Flag(false)
            ||| due is BleOpenScan && (reply matches ReplyView::Scan(opening) && opening
                != ScanOpening::Started)
            ||| due is BleCheckDeadline && reply == ReplyView::Flag(false)
        }
}

/// The device does not do what it is asked for: it does not connect, or does not list its
/// services or the characteristics of one.
pub open spec fn device_refused() -> spec_fn(ConnectView, ReplyView) -> bool {
    |due: ConnectView, reply: ReplyView|
        {
            ||| due is BleConnectDevice && reply == ReplyView::Flag(false)
            ||| due is BleDiscoverServices && reply == ReplyView::Services(None)
            ||| due is BleDiscoverCharacteristics && reply == ReplyView::Characteristics(None)
        }
}

/// A low-energy connecting fails for want of the device exactly where the search for the radio or
/// the device has failed. A device that refuses makes it fail as rejected, and it fails so only
/// where the device has refused or has listed its services.
pub proof fn law_why_connecting_fails(s: ImpState, addr: Seq<char>, replies: Seq<ReplyView>)
    requires
        s.connect_type == ConnectType::BLE,
        s.platform != Platform::Android,
    ensures
        ({
            let begin = connect_begin(s, addr);
            let due = connect_run(s, begin, replies).1;
            let lost = Connect::<Seq<char>, Seq<BluestService>>::Finished(
                Err(ConnectError::DeviceNotFound),
            );
            let rejected = Connect::<Seq<char>, Seq<BluestService>>::Finished(
                Err(ConnectError::TargetRejected),
            );
            &&& due == lost <==> connect_saw(s, begin, replies, search_failed())
            &&& connect_saw(s, begin, replies, device_refused()) ==> due == rejected
            &&& due == rejected ==> connect_saw(s, begin, replies, device_refused())
                || services_listed(s, begin, replies)
        }),
{
    lemma_why(s, addr, replies);
}

proof fn lemma_why(s: ImpState, addr: Seq<char>, replies: Seq<ReplyView>)
    requires
        s.connect_type == ConnectType::BLE,
        s.platform != Platform::Android,
    ensures
        ({
            let begin = connect_begin(s, addr);
            let due = connect_run(s, begin, replies).1;
            let lost = connect_saw(s, begin, replies, search_failed());
            let refused = connect_saw(s, begin, replies, device_refused());
            match due {
                Connect::SppLookUpApp { addr: _ } => false,
                Connect::SppConnect { addr: _ } => false,
                Connect::BleAdapter { addr: _, step } => !lost && !refused && !(step is Finished),
                Connect::BleDiscoverCharacteristics {
                    device: _,
                    services: _,
                    index: _,
                    bundle: _,
                } => !lost && !refused && services_listed(s, begin, replies),
                Connect::Finished(Err(ConnectError::DeviceNotFound)) => lost && !refused,
                Connect::Finished(Err(ConnectError::TargetRejected)) => !lost && (refused
                    || services_listed(s, begin, replies)),
                _ => !lost && !refused,
            }
        }),
    decreases replies.len(),
{
    if replies.len() > 0 {
        lemma_why(s, addr, replies.drop_last());
    }
}

// ---- The classic transport ----

/// The classic transport was asked to connect to an address, and answered so.
pub open spec fn classic_answer(addr: Seq<char>, answer: Option<bool>) -> spec_fn(
    ConnectView,
    ReplyView,
) -> bool {
    |due: ConnectView, reply: ReplyView|
        due == Connect::<Seq<char>, Seq<BluestService>>::SppConnect { addr } && reply
            == ReplyView::SppConnected(answer)
}

/// The classic transport is not at hand.
pub open spec fn classic_missing() -> spec_fn(ConnectView, ReplyView) -> bool {
    |due: ConnectView, reply: ReplyView| due is SppLookUpApp && reply == ReplyView::Flag(false)
}

/// Connecting over the classic transport ends as the transport answers for the very address that
/// was asked for: it succeeds exactly where that accepts, is rejected exactly where that does not,
/// and the device is not found exactly where the transport is missing or fails.
pub proof fn law_classic_connect_result(s: ImpState, addr: Seq<char>, replies: Seq<ReplyView>)
    requires
        s.connect_type == ConnectType::SPP,
    ensures
        ({
            let begin = connect_begin(s, addr);
            let due = connect_run(s, begin, replies).1;
            &&& (due matches Connect::Finished(Ok(_))) <==> connect_saw(
                s,
                begin,
                replies,
                classic_answer(addr, Some(true)),
            )
            &&& (due matches Connect::Finished(Err(ConnectError::TargetRejected))) <==> connect_saw(
                s,
                begin,
                replies,
                classic_answer(addr, Some(false)),
            )
            &&& (due matches Connect::Finished(Err(ConnectError::DeviceNotFound))) <==> connect_saw(
                s,
                begin,
                replies,
                classic_missing(),
            ) || connect_saw(s, begin, replies, classic_answer(addr, None))
        }),
{
    lemma_classic_connect(s, addr, replies);
}

proof fn lemma_classic_connect(s: ImpState, addr: Seq<char>, replies: Seq<ReplyView>)
    requires
        s.connect_type == ConnectType::SPP,
    ensures
        ({
            let begin = connect_begin(s, addr);
            let due = connect_run(s, begin, replies).1;
            let yes = connect_saw(s, begin, replies, classic_answer(addr, Some(true)));
            let no = connect_saw(s, begin, replies, classic_answer(addr, Some(false)));
            let lost = connect_saw(s, begin, replies, classic_missing()) || connect_saw(
                s,
                begin,
                replies,
                classic_answer(addr, None),
            );
            match due {
                Connect::SppLookUpApp { addr: asked } => asked == addr && !yes && !no && !lost,
                Connect::SppConnect { addr: asked } => asked == addr && !yes && !no && !lost,
                Connect::Finished(Ok(_)) => yes && !no && !lost,
                Connect::Finished(Err(ConnectError::TargetRejected)) => !yes && no && !lost,
                Connect::Finished(Err(ConnectError::DeviceNotFound)) => !yes && !no && lost,
                _ => false,
            }
        }),
    decreases replies.len(),
{
    if replies.len() > 0 {
        lemma_classic_connect(s, addr, replies.drop_last());
    }
}

/// Connecting to an address under which a device is remembered deals with that very device and
/// with no other.
pub proof fn law_remembered_device_is_the_one_connected(
    s: ImpState,
    addr: Seq<char>,
    replies: Seq<ReplyView>,
)
    requires
        s.connect_type == ConnectType::BLE,
        s.platform != Platform::Android,
        s.scanned.contains_key(addr),
    ensures
        ({
            let (after, due) = connect_run(s, connect_begin(s, addr), replies);
            &&& device_of(due) matches Some(device) ==> device == s.scanned[addr]
            &&& due matches Connect::Finished(Ok(_)) ==> after.device == Some(s.scanned[addr])
            &&& after.scanned == s.scanned
        }),
{
    lemma_chosen(s, addr, replies);
    lemma_chosen_stays(s, addr, replies);
    assert(s.scanned.insert(addr, s.scanned[addr]) =~= s.scanned);
}

proof fn lemma_chosen_stays(s: ImpState, addr: Seq<char>, replies: Seq<ReplyView>)
    requires
        s.scanned.contains_key(addr),
    ensures
        chosen(s, addr, replies) == Some(s.scanned[addr]),
    decreases replies.len(),
{
    if replies.len() > 0 {
        lemma_chosen_stays(s, addr, replies.drop_last());
    }
}

/// The peripherals that are connected to the system were listed, or could not be.
pub open spec fn connected_listed() -> spec_fn(ConnectView, ReplyView) -> bool {
    |due: ConnectView, reply: ReplyView| due is BleQueryConnected && reply is Peers
}

/// The device was asked whether it is connected to the system, and said no.
pub open spec fn not_connected_yet(device: BluestDevice) -> spec_fn(ConnectView, ReplyView) -> bool {
    |due: ConnectView, reply: ReplyView|
        due == Connect::<Seq<char>, Seq<BluestService>>::BleIsConnected { device } && reply
            == ReplyView::Flag(false)
}

/// On iOS, and only there, the system is asked first: for the peripherals that are connected
/// before discovery is started, and whether the device is connected before it is connected.
pub proof fn law_ios_asks_the_system_first(s: ImpState, addr: Seq<char>, replies: Seq<ReplyView>)
    requires
        s.connect_type == ConnectType::BLE,
        s.platform != Platform::Android,
    ensures
        ({
            let begin = connect_begin(s, addr);
            let due = connect_run(s, begin, replies).1;
            &&& due is BleQueryConnected || due is BleIsConnected ==> s.platform == Platform::Ios
            &&& s.platform == Platform::Ios && due is BleOpenScan ==> connect_saw(
                s,
                begin,
                replies,
                connected_listed(),
            )
            &&& s.platform == Platform::Ios ==> (due matches Connect::BleConnectDevice { device }
                ==> connect_saw(s, begin, replies, not_connected_yet(device)))
        }),
{
    lemma_ios(s, addr, replies);
}

proof fn lemma_ios(s: ImpState, addr: Seq<char>, replies: Seq<ReplyView>)
    requires
        s.connect_type == ConnectType::BLE,
        s.platform != Platform::Android,
    ensures
        ({
            let begin = connect_begin(s, addr);
            let (after, due) = connect_run(s, begin, replies);
            let ios = s.platform == Platform::Ios;
            after.platform == s.platform && match due {
                Connect::SppLookUpApp { addr: _ } => false,
                Connect::SppConnect { addr: _ } => false,
                Connect::BleQueryConnected { addr: _ } => ios,
                Connect::BleOpenScan { addr: _ } => ios ==> connect_saw(
                    s,
                    begin,
                    replies,
                    connected_listed(),
                ),
                Connect::BleIsConnected { device: _ } => ios,
                Connect::BleConnectDevice { device } => ios ==> connect_saw(
                    s,
                    begin,
                    replies,
                    not_connected_yet(device),
                ),
                _ => true,
            }
        }),
    decreases replies.len(),
{
    if replies.len() > 0 {
        lemma_ios(s, addr, replies.drop_last());
    }
}

} // verus!
