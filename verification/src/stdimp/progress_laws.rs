//! That every operation gets on: an answer to the step that is due leads to another step, and an
//! answer that does not belong to it changes nothing. Also how long the driver waits.
use vstd::prelude::*;

#[allow(unused_imports)]
use crate::btinterface::{ConnectType, DeviceEntry};
#[allow(unused_imports)]
use crate::driver::{HeardView, Listener, Platform, ReplyView};
#[allow(unused_imports)]
use crate::stdimp::connect::{
    connect_next, Connect, ConnectView, CONNECT_POLL_LIMIT, CONNECT_POLL_MILLIS,
    CONNECT_SCAN_PAUSE_MILLIS, CONNECT_SCAN_SECONDS,
};
#[allow(unused_imports)]
use crate::stdimp::disconnect::{disconnect_next, DisconnectStep};
#[allow(unused_imports)]
use crate::stdimp::discovery::law_next_xiaomi;
#[allow(unused_imports)]
use crate::stdimp::listener::{listener_next, ListenerStep};
#[allow(unused_imports)]
use crate::stdimp::notify::{notify_next, Notifying, NotifyView};
#[allow(unused_imports)]
use crate::stdimp::scan::{
    ble_scan_next, spp_scan_next, BleScan, BleScanView, SppScan, TaskView,
    BLE_SCAN_RETRY_BASE_DELAY_MS, BLE_SCAN_RETRY_LIMIT, BLE_SHUTDOWN_SECONDS,
    SPP_SCAN_PERIOD_MILLIS,
};
#[allow(unused_imports)]
use crate::stdimp::send::{send_next, SendView, Sending};
#[allow(unused_imports)]
use crate::stdimp::start_scan::{start_scan_next, StartScan, StartScanView};
#[allow(unused_imports)]
use crate::stdimp::stop_scan::{stop_scan_next, StopScan, StopScanView};
#[allow(unused_imports)]
use crate::stdimp::subscribe::{subscribe_next, Subscribe, SubscribeView};
#[allow(unused_imports)]
use crate::stdimp::{fresh_state, ImpState};

verus! {

/// The answer belongs to this step of connecting.
pub open spec fn answers_connect(step: ConnectView, reply: ReplyView) -> bool {
    match step {
        Connect::SppLookUpApp { addr: _ } => reply is Flag,
        Connect::SppConnect { addr: _ } => reply is SppConnected,
        Connect::BleAdapter { addr: _, step: _ } => reply is Flag,
        Connect::BleQueryConnected { addr: _ } => reply is Peers,
        Connect::BleOpenScan { addr: _ } => reply is Scan,
        Connect::BleCheckDeadline { addr: _ } => reply is Flag,
        Connect::BleNextAdvertisement { addr: _ } => reply matches ReplyView::Heard(heard)
            && !(heard is Cancelled),
        Connect::BleIsConnected { device: _ } => reply is Flag,
        Connect::BleConnectDevice { device: _ } => reply is Flag,
        Connect::BlePollConnected { device: _, attempts: _ } => reply is Flag,
        Connect::BleDiscoverServices { device: _ } => reply is Services,
        Connect::BleDiscoverCharacteristics { device: _, services: _, index: _, bundle: _ } => reply
            is Characteristics,
        Connect::Finished(_) => false,
        _ => true,
    }
}

/// Connecting gets on with every answer that belongs to its step, and ignores every other one.
pub proof fn law_connecting_gets_on(s: ImpState, step: ConnectView, reply: ReplyView)
    requires
        step matches Connect::BleDiscoverCharacteristics { device: _, services, index, bundle: _ }
            ==> index < services.len() <= usize::MAX,
    ensures
        answers_connect(step, reply) ==> connect_next(s, step, reply).1 != step,
        !answers_connect(step, reply) ==> connect_next(s, step, reply) == (s, step),
{
    if let Connect::BleDiscoverCharacteristics { device: _, services, index, bundle: _ } = step {
        law_next_xiaomi(services, index + 1);
    }
}

/// The answer belongs to this step of sending.
pub open spec fn answers_sending(step: SendView, reply: ReplyView) -> bool {
    match step {
        Sending::BleDiscover { data: _, uuid: _, services: _, index: _ } => reply
            is Characteristics,
        Sending::Finished(_) => false,
        _ => reply is Flag,
    }
}

/// Sending gets on with every answer that belongs to its step, and ignores every other one.
pub proof fn law_sending_gets_on(s: ImpState, step: SendView, reply: ReplyView)
    requires
        step matches Sending::BleDiscover { data: _, uuid: _, services, index } ==> index
            < services.len() <= usize::MAX,
    ensures
        answers_sending(step, reply) ==> send_next(s, step, reply).1 != step,
        !answers_sending(step, reply) ==> send_next(s, step, reply) == (s, step),
{
}

/// The answer belongs to this step of subscribing.
pub open spec fn answers_subscribing(step: SubscribeView, reply: ReplyView) -> bool {
    match step {
        Subscribe::BleDiscover { uuid: _, services: _, index: _ } => reply is Characteristics,
        Subscribe::BleDiscoverService { uuid: _, services: _, index: _ } => reply
            is Characteristics,
        Subscribe::BleNotify { chara: _ } => true,
        Subscribe::BleReadService { chara: _ } => true,
        Subscribe::Finished(_) => false,
        _ => reply is Flag,
    }
}

/// Subscribing gets on with every answer that belongs to its step, and ignores every other one.
pub proof fn law_subscribing_gets_on(s: ImpState, step: SubscribeView, reply: ReplyView)
    requires
        step matches Subscribe::BleDiscover { uuid: _, services, index } ==> index < services.len()
            <= usize::MAX,
        step matches Subscribe::BleDiscoverService { uuid: _, services, index } ==> index
            < services.len() <= usize::MAX,
    ensures
        answers_subscribing(step, reply) ==> subscribe_next(s, step, reply).1 != step,
        !answers_subscribing(step, reply) ==> subscribe_next(s, step, reply) == (s, step),
{
}

/// Disconnecting gets on with every answer by yes or no until it has finished, and ignores every
/// other one.
pub proof fn law_disconnecting_gets_on(s: ImpState, step: DisconnectStep, reply: ReplyView)
    ensures
        reply is Flag && !(step is Finished) ==> disconnect_next(s, step, reply).1 != step,
        !(reply is Flag) || step is Finished ==> disconnect_next(s, step, reply) == (s, step),
{
}

/// The answer belongs to this step of starting a scan.
pub open spec fn answers_start(step: StartScanView, reply: ReplyView) -> bool {
    match step {
        StartScan::SppLookUpApp => reply is Flag,
        StartScan::SppStart => reply is Flag,
        StartScan::BleAdapter { step: _ } => reply is Flag,
        StartScan::BleLookUpApp => reply is Flag,
        StartScan::BleQueryConnected => reply is Peers,
        StartScan::Finished(_) => false,
        _ => true,
    }
}

/// Starting a scan gets on with every answer that belongs to its step, and ignores every other
/// one.
pub proof fn law_starting_gets_on(s: ImpState, step: StartScanView, reply: ReplyView)
    ensures
        answers_start(step, reply) ==> start_scan_next(s, step, reply).1 != step,
        !answers_start(step, reply) ==> start_scan_next(s, step, reply) == (s, step),
{
}

/// The answer belongs to this step of stopping a scan.
pub open spec fn answers_stop(step: StopScanView, reply: ReplyView) -> bool {
    match step {
        StopScan::SppLookUpApp { was_scanning: _ } => reply is Flag,
        StopScan::SppStop => reply is Flag,
        StopScan::SppGetDevices => reply is SppDevices,
        StopScan::Finished(_) => false,
        _ => true,
    }
}

/// Stopping a scan gets on with every answer that belongs to its step, and ignores every other
/// one.
pub proof fn law_stopping_gets_on(s: ImpState, step: StopScanView, reply: ReplyView)
    ensures
        answers_stop(step, reply) ==> stop_scan_next(s, step, reply).1 != step,
        !answers_stop(step, reply) ==> stop_scan_next(s, step, reply) == (s, step),
{
}

/// The answer belongs to this step of a low-energy scan.
pub open spec fn answers_scan(step: BleScanView, reply: ReplyView) -> bool {
    match step {
        BleScan::Open { retry: _ } => reply is Scan,
        BleScan::Listen => reply is Heard,
        BleScan::Finished => false,
        _ => true,
    }
}

/// A low-energy scan gets on with every answer that belongs to its step, except that it goes on
/// listening after a device that it does not report. It ignores every other answer.
pub proof fn law_scanning_gets_on(s: ImpState, task: TaskView, step: BleScanView, reply: ReplyView)
    ensures
        answers_scan(step, reply) && !(reply matches ReplyView::Heard(HeardView::Found(_)))
            ==> ble_scan_next(s, task, step, reply).2 != step,
        !answers_scan(step, reply) ==> ble_scan_next(s, task, step, reply) == (s, task, step),
        step is Listen && (reply matches ReplyView::Heard(HeardView::Found(_))) ==> ({
            let due = ble_scan_next(s, task, step, reply).2;
            due is Listen || due is Report
        }),
{
}

/// A classic scan ignores an answer that lists no devices while it asks for them.
pub proof fn law_classic_scan_ignores_other_answers(task: TaskView, reply: ReplyView)
    requires
        !(reply is SppDevices),
    ensures
        spp_scan_next(task, SppScan::Poll, reply) == (task, SppScan::<Seq<DeviceEntry>>::Poll),
{
}

/// Passing notifications on gets on with every answer that belongs to its step, and ignores every
/// other one.
pub proof fn law_passing_on_gets_on(step: NotifyView, reply: ReplyView)
    ensures
        ({
            let answered = match step {
                Notifying::Start => reply is NotifyStarted,
                Notifying::Next => reply is Notification,
                Notifying::PassOn { item: _, more: _ } => true,
                Notifying::Finished => false,
            };
            if answered {
                notify_next(step, reply) != step
            } else {
                notify_next(step, reply) == step
            }
        }),
{
}

/// Setting the listener ends after the transport has been looked for and handed it.
pub proof fn law_setting_the_listener_ends(listener: Listener, reply: ReplyView)
    ensures
        listener_next(ListenerStep::SppRegister { listener }, reply) is Finished,
        listener_next(ListenerStep::SppLookUpApp { listener }, ReplyView::Flag(false)) is Finished,
        listener_next(ListenerStep::Finished, reply) is Finished,
        !(reply is Flag) ==> listener_next(ListenerStep::SppLookUpApp { listener }, reply)
            == (ListenerStep::SppLookUpApp { listener }),
{
}

/// The search for a device lasts twelve seconds and rests for 60 milliseconds; a device that is
/// not connected yet is asked again twenty times, every 100 milliseconds. Discovery is tried again
/// six times, after 180 milliseconds and that much more each time. The classic transport is asked
/// every 800 milliseconds, and a cancelled scan is waited for two seconds.
pub proof fn law_how_long_the_driver_waits()
    ensures
        CONNECT_SCAN_SECONDS == 12,
        CONNECT_SCAN_PAUSE_MILLIS == 60,
        CONNECT_POLL_LIMIT == 20,
        CONNECT_POLL_MILLIS == 100,
        BLE_SCAN_RETRY_LIMIT == 6,
        BLE_SCAN_RETRY_BASE_DELAY_MS == 180,
        SPP_SCAN_PERIOD_MILLIS == 800,
        BLE_SHUTDOWN_SECONDS == 2,
{
}

/// A transport that was just made is of the kind and for the system that were asked for. It is
/// connected to nothing, remembers nothing, has found nothing and has no scan under way.
pub proof fn law_a_fresh_transport_knows_nothing(connect_type: ConnectType, platform: Platform)
    ensures
        ({
            let s = fresh_state(connect_type, platform);
            &&& s.connect_type == connect_type
            &&& s.platform == platform
            &&& s.device is None
            &&& s.services is None
            &&& s.bundle is None
            &&& s.listener is None
            &&& s.session is None
            &&& s.scan_seq == 0
            &&& s.results.len() == 0
            &&& forall|uuid: u128| !#[trigger] s.cache.contains_key(uuid)
            &&& forall|addr: Seq<char>| !#[trigger] s.scanned.contains_key(addr)
        }),
{
}

} // verus!
