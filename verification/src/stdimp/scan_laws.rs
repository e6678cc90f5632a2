//! What holds of starting, running and stopping scans as a whole.
use vstd::prelude::*;

#[allow(unused_imports)]
use crate::address::dedup_key;
#[allow(unused_imports)]
use crate::ble::BluestDevice;
#[allow(unused_imports)]
use crate::btinterface::{ConnectType, DeviceEntry, ScanError};
#[allow(unused_imports)]
use crate::driver::{HeardView, PeerEntry, Platform, ReplyView};
#[allow(unused_imports)]
use crate::stdimp::connect::{connect_next, ConnectView};
#[allow(unused_imports)]
use crate::stdimp::disconnect::{disconnect_begin, disconnect_next, DisconnectStep};
#[allow(unused_imports)]
use crate::stdimp::laws::{law_connect_leaves_the_scan_alone, well_formed};
#[allow(unused_imports)]
use crate::stdimp::scan::{
    ble_scan_begin, ble_scan_next, session_ended, spp_scan_next, BleScan, BleScanView, SppScan,
    SppScanView, TaskView, BLE_SCAN_RETRY_BASE_DELAY_MS, BLE_SCAN_RETRY_LIMIT,
};
#[allow(unused_imports)]
use crate::stdimp::send::{send_next, SendView};
#[allow(unused_imports)]
use crate::stdimp::sightings::{
    first_sightings, known_after, law_sightings_are_new, law_sightings_of_two_lists,
};
#[allow(unused_imports)]
use crate::stdimp::start_scan::{
    next_id, seed, start_scan_begin, start_scan_next, StartScan, StartScanView,
};
#[allow(unused_imports)]
use crate::stdimp::stop_scan::{stop_scan_begin, stop_scan_next, StopScan, StopScanView};
#[allow(unused_imports)]
use crate::stdimp::subscribe::{subscribe_next, SubscribeView};
#[allow(unused_imports)]
use crate::stdimp::{fresh_state, ImpState, ScanSession};

verus! {

/// No key of a list of devices is empty, and none occurs twice.
pub open spec fn keys_are_distinct(list: Seq<DeviceEntry>) -> bool {
    &&& forall|i: int| 0 <= i < list.len() ==> dedup_key(#[trigger] list[i].addr).len() > 0
    &&& forall|i: int, j: int|
        0 <= i < j < list.len() ==> dedup_key(#[trigger] list[i].addr) != dedup_key(
            #[trigger] list[j].addr,
        )
}

// ---- A classic scan that is running ----

/// The scan and the step that are due after a sequence of answers.
pub open spec fn spp_scan_run(task: TaskView, step: SppScanView, replies: Seq<ReplyView>) -> (
    TaskView,
    SppScanView,
)
    decreases replies.len(),
{
    if replies.len() == 0 {
        (task, step)
    } else {
        let (before, due) = spp_scan_run(task, step, replies.drop_last());
        spp_scan_next(before, due, replies.last())
    }
}

/// The devices that the classic transport has listed on the way, in order.
pub open spec fn spp_listed(task: TaskView, step: SppScanView, replies: Seq<ReplyView>) -> Seq<
    DeviceEntry,
>
    decreases replies.len(),
{
    if replies.len() == 0 {
        Seq::empty()
    } else {
        let earlier = spp_listed(task, step, replies.drop_last());
        let (_, due) = spp_scan_run(task, step, replies.drop_last());
        match (due, replies.last()) {
            (SppScan::Poll, ReplyView::SppDevices(Some(list))) => earlier + list,
            _ => earlier,
        }
    }
}

/// The devices that were to be reported on the way, in order.
pub open spec fn spp_reported(task: TaskView, step: SppScanView, replies: Seq<ReplyView>) -> Seq<
    DeviceEntry,
>
    decreases replies.len(),
{
    if replies.len() == 0 {
        Seq::empty()
    } else {
        let earlier = spp_reported(task, step, replies.drop_last());
        match spp_scan_run(task, step, replies).1 {
            SppScan::Report { devices } => earlier + devices,
            _ => earlier,
        }
    }
}

/// Over all its polls, a classic scan reports what is sighted for the first time, as if the
/// lists that it was handed were one list. So no key is reported twice.
pub proof fn law_spp_scan_reports_first_sightings(
    task: TaskView,
    step: SppScanView,
    replies: Seq<ReplyView>,
)
    ensures
        spp_reported(task, step, replies) == first_sightings(
            task.known,
            spp_listed(task, step, replies),
        ),
        keys_are_distinct(spp_reported(task, step, replies)),
{
    lemma_spp_scan(task, step, replies);
    law_sightings_are_new(task.known, spp_listed(task, step, replies));
}

proof fn lemma_spp_scan(task: TaskView, step: SppScanView, replies: Seq<ReplyView>)
    ensures
        spp_scan_run(task, step, replies).0.known == known_after(
            task.known,
            spp_listed(task, step, replies),
        ),
        spp_reported(task, step, replies) == first_sightings(
            task.known,
            spp_listed(task, step, replies),
        ),
    decreases replies.len(),
{
    if replies.len() > 0 {
        let earlier = replies.drop_last();
        lemma_spp_scan(task, step, earlier);
        let (_, due) = spp_scan_run(task, step, earlier);
        if let (SppScan::Poll, ReplyView::SppDevices(Some(list))) = (due, replies.last()) {
            law_sightings_of_two_lists(task.known, spp_listed(task, step, earlier), list);
        }
    }
}

// ---- A low-energy scan that is running ----

/// The state, the scan and the step that are due after a sequence of answers.
pub open spec fn ble_scan_run(
    s: ImpState,
    task: TaskView,
    step: BleScanView,
    replies: Seq<ReplyView>,
) -> (ImpState, TaskView, BleScanView)
    decreases replies.len(),
{
    if replies.len() == 0 {
        (s, task, step)
    } else {
        let (before, at, due) = ble_scan_run(s, task, step, replies.drop_last());
        ble_scan_next(before, at, due, replies.last())
    }
}

/// The devices that were heard on the way, in order.
pub open spec fn ble_heard(
    s: ImpState,
    task: TaskView,
    step: BleScanView,
    replies: Seq<ReplyView>,
) -> Seq<DeviceEntry>
    decreases replies.len(),
{
    if replies.len() == 0 {
        Seq::empty()
    } else {
        let earlier = ble_heard(s, task, step, replies.drop_last());
        let (_, _, due) = ble_scan_run(s, task, step, replies.drop_last());
        match (due, replies.last()) {
            (BleScan::Listen, ReplyView::Heard(HeardView::Found(peer))) => earlier.push(peer.entry),
            _ => earlier,
        }
    }
}

/// The devices that were to be reported on the way, in order.
pub open spec fn ble_reported(
    s: ImpState,
    task: TaskView,
    step: BleScanView,
    replies: Seq<ReplyView>,
) -> Seq<DeviceEntry>
    decreases replies.len(),
{
    if replies.len() == 0 {
        Seq::empty()
    } else {
        let earlier = ble_reported(s, task, step, replies.drop_last());
        match ble_scan_run(s, task, step, replies).2 {
            BleScan::Report { device } => earlier.push(device),
            _ => earlier,
        }
    }
}

/// A low-energy scan reports what it hears for the first time, so no key twice, and what it
/// reports is what joins the results. Each device that is reported is remembered.
pub proof fn law_ble_scan_reports_first_sightings(
    s: ImpState,
    task: TaskView,
    replies: Seq<ReplyView>,
)
    ensures
        ({
            let start = BleScan::Open { retry: 0 };
            let reported = ble_reported(s, task, start, replies);
            let after = ble_scan_run(s, task, start, replies).0;
            &&& reported == first_sightings(task.known, ble_heard(s, task, start, replies))
            &&& keys_are_distinct(reported)
            &&& after.results == s.results + reported
            &&& forall|i: int|
                0 <= i < reported.len() ==> after.scanned.contains_key(#[trigger] reported[i].addr)
        }),
{
    let start = BleScan::Open { retry: 0 };
    lemma_ble_scan(s, task, start, replies);
    law_sightings_are_new(task.known, ble_heard(s, task, start, replies));
}

pub(crate) proof fn lemma_ble_scan(s: ImpState, task: TaskView, step: BleScanView, replies: Seq<ReplyView>)
    requires
        !(step is Report),
    ensures
        ble_scan_run(s, task, step, replies).1 == (TaskView {
            known: known_after(task.known, ble_heard(s, task, step, replies)),
            ..task
        }),
        ble_reported(s, task, step, replies) == first_sightings(
            task.known,
            ble_heard(s, task, step, replies),
        ),
        ble_scan_run(s, task, step, replies).0.results == s.results + ble_reported(
            s,
            task,
            step,
            replies,
        ),
        forall|i: int|
            0 <= i < ble_reported(s, task, step, replies).len() ==> ble_scan_run(
                s,
                task,
                step,
                replies,
            ).0.scanned.contains_key(#[trigger] ble_reported(s, task, step, replies)[i].addr),
    decreases replies.len(),
{
    if replies.len() == 0 {
        assert(s.results + Seq::<DeviceEntry>::empty() =~= s.results);
    } else {
        let earlier = replies.drop_last();
        lemma_ble_scan(s, task, step, earlier);
        let (before, at, due) = ble_scan_run(s, task, step, earlier);
        let heard = ble_heard(s, task, step, earlier);
        let reported = ble_reported(s, task, step, earlier);
        if let (BleScan::Listen, ReplyView::Heard(HeardView::Found(peer))) = (due, replies.last()) {
            let one = seq![peer.entry];
            law_sightings_of_two_lists(task.known, heard, one);
            assert(heard + one =~= heard.push(peer.entry));
            assert(one.drop_last() =~= Seq::<DeviceEntry>::empty());
            reveal_with_fuel(first_sightings, 2);
            reveal_with_fuel(known_after, 2);
            let key = dedup_key(peer.entry.addr);
            if key.len() > 0 && !at.known.contains(key) {
                assert(first_sightings(at.known, one) =~= one);
                assert(reported + one =~= reported.push(peer.entry));
                assert((s.results + reported).push(peer.entry) =~= s.results + reported.push(
                    peer.entry,
                ));
            } else {
                assert(first_sightings(at.known, one) =~= Seq::<DeviceEntry>::empty());
                assert(reported + Seq::<DeviceEntry>::empty() =~= reported);
                if at.known.contains(key) {
                    assert(at.known.insert(key) =~= at.known);
                }
            }
            let after = ble_scan_run(s, task, step, replies).0;
            let now = ble_reported(s, task, step, replies);
            assert forall|i: int| 0 <= i < now.len() implies after.scanned.contains_key(
                #[trigger] now[i].addr,
            ) by {
                if i < reported.len() {
                    assert(now[i] == reported[i]);
                }
            }
        }
    }
}

/// What a scan does next, and which keys it knows, do not depend on the state: other operations
/// that run beside it do not change what it reports.
pub proof fn law_scan_does_not_depend_on_the_state(
    a: ImpState,
    b: ImpState,
    task: TaskView,
    step: BleScanView,
    reply: ReplyView,
)
    ensures
        ble_scan_next(a, task, step, reply).1 == ble_scan_next(b, task, step, reply).1,
        ble_scan_next(a, task, step, reply).2 == ble_scan_next(b, task, step, reply).2,
{
}

/// The same of a scan from its beginning: what it hears, reports and does next after a sequence
/// of answers is the same whatever state it began in.
pub proof fn law_scan_run_does_not_depend_on_the_state(
    a: ImpState,
    b: ImpState,
    task: TaskView,
    step: BleScanView,
    replies: Seq<ReplyView>,
)
    ensures
        ble_scan_run(a, task, step, replies).1 == ble_scan_run(b, task, step, replies).1,
        ble_scan_run(a, task, step, replies).2 == ble_scan_run(b, task, step, replies).2,
        ble_heard(a, task, step, replies) == ble_heard(b, task, step, replies),
        ble_reported(a, task, step, replies) == ble_reported(b, task, step, replies),
    decreases replies.len(),
{
    if replies.len() > 0 {
        law_scan_run_does_not_depend_on_the_state(a, b, task, step, replies.drop_last());
        let (before, at, due) = ble_scan_run(a, task, step, replies.drop_last());
        let other = ble_scan_run(b, task, step, replies.drop_last()).0;
        law_scan_does_not_depend_on_the_state(before, other, at, due, replies.last());
    }
}

/// How many attempts to start discovery were answered.
pub open spec fn openings(
    s: ImpState,
    task: TaskView,
    step: BleScanView,
    replies: Seq<ReplyView>,
) -> nat
    decreases replies.len(),
{
    if replies.len() == 0 {
        0
    } else {
        let earlier = openings(s, task, step, replies.drop_last());
        let (_, _, due) = ble_scan_run(s, task, step, replies.drop_last());
        match (due, replies.last()) {
            (BleScan::Open { retry: _ }, ReplyView::Scan(_)) => earlier + 1,
            _ => earlier,
        }
    }
}

/// Discovery is tried at most seven times. Before the second attempt the scan waits for the base
/// delay, before each further one for that much longer than before the last.
pub proof fn law_discovery_is_tried_again_at_most_six_times(
    s: ImpState,
    task: TaskView,
    replies: Seq<ReplyView>,
)
    ensures
        openings(s, task, BleScan::Open { retry: 0 }, replies) <= BLE_SCAN_RETRY_LIMIT + 1,
        ble_scan_run(s, task, BleScan::Open { retry: 0 }, replies).2 matches BleScan::Pause {
            retry,
            millis,
        } ==> retry == openings(s, task, BleScan::Open { retry: 0 }, replies) && millis
            == BLE_SCAN_RETRY_BASE_DELAY_MS * retry,
{
    lemma_openings(s, task, replies);
}

proof fn lemma_openings(s: ImpState, task: TaskView, replies: Seq<ReplyView>)
    ensures
        ({
            let tried = openings(s, task, BleScan::Open { retry: 0 }, replies);
            match ble_scan_run(s, task, BleScan::Open { retry: 0 }, replies).2 {
                BleScan::Open { retry } => tried == retry && retry <= BLE_SCAN_RETRY_LIMIT,
                BleScan::Pause { retry, millis } => tried == retry && retry <= BLE_SCAN_RETRY_LIMIT
                    && millis == BLE_SCAN_RETRY_BASE_DELAY_MS * retry,
                _ => tried <= BLE_SCAN_RETRY_LIMIT + 1,
            }
        }),
    decreases replies.len(),
{
    if replies.len() > 0 {
        lemma_openings(s, task, replies.drop_last());
    }
}

/// A scan that has finished is no longer the current one; until then it is. A scan that is not
/// the current one never ends the one that is.
pub proof fn law_scan_ends_only_its_own_session(
    s: ImpState,
    task: TaskView,
    replies: Seq<ReplyView>,
)
    ensures
        ({
            let (after, _, due) = ble_scan_run(s, task, BleScan::Open { retry: 0 }, replies);
            if due is Finished {
                after.session == session_ended(s, ScanSession::Ble { id: task.id }).session
            } else {
                after.session == s.session
            }
        }),
    decreases replies.len(),
{
    if replies.len() > 0 {
        law_scan_ends_only_its_own_session(s, task, replies.drop_last());
        lemma_ble_scan(s, task, BleScan::Open { retry: 0 }, replies.drop_last());
    }
}

// ---- Starting a scan ----

/// The state and the step that are due after a sequence of answers to starting a scan.
pub open spec fn start_scan_run(s: ImpState, step: StartScanView, replies: Seq<ReplyView>) -> (
    ImpState,
    StartScanView,
)
    decreases replies.len(),
{
    if replies.len() == 0 {
        (s, step)
    } else {
        let (before, due) = start_scan_run(s, step, replies.drop_last());
        start_scan_next(before, due, replies.last())
    }
}

/// Starting a classic scan while a scan is under way changes nothing and spawns nothing.
pub proof fn law_classic_scan_is_not_started_twice(s: ImpState, replies: Seq<ReplyView>)
    requires
        s.connect_type == ConnectType::SPP,
        s.session is Some,
    ensures
        start_scan_run(start_scan_begin(s).0, start_scan_begin(s).1, replies).0 == s,
        start_scan_run(start_scan_begin(s).0, start_scan_begin(s).1, replies).1 is SppLookUpApp
            || start_scan_run(start_scan_begin(s).0, start_scan_begin(s).1, replies).1 is Finished,
    decreases replies.len(),
{
    if replies.len() > 0 {
        law_classic_scan_is_not_started_twice(s, replies.drop_last());
    }
}

/// Two sessions that follow each other have different numbers.
pub proof fn law_session_number_changes(seq: usize)
    ensures
        next_id(seq) != seq,
{
}

/// A classic scan that has started is the current session, under a new number, and nothing else
/// has changed.
pub proof fn law_classic_scan_becomes_the_session(s: ImpState, replies: Seq<ReplyView>)
    requires
        s.connect_type == ConnectType::SPP,
        s.session is None,
        start_scan_run(start_scan_begin(s).0, start_scan_begin(s).1, replies).1
            matches StartScan::Finished(Ok(_)),
    ensures
        ({
            let id = next_id(s.scan_seq);
            start_scan_run(start_scan_begin(s).0, start_scan_begin(s).1, replies).0 == (ImpState {
                scan_seq: id,
                session: Some(ScanSession::Spp { id }),
                ..s
            })
        }),
{
    lemma_classic_start(s, replies);
}

proof fn lemma_classic_start(s: ImpState, replies: Seq<ReplyView>)
    requires
        s.connect_type == ConnectType::SPP,
        s.session is None,
    ensures
        ({
            let id = next_id(s.scan_seq);
            let begun = ImpState { scan_seq: id, session: Some(ScanSession::Spp { id }), ..s };
            let (after, due) = start_scan_run(
                start_scan_begin(s).0,
                start_scan_begin(s).1,
                replies,
            );
            match due {
                StartScan::SppLookUpApp => after == s,
                StartScan::SppSpawn { id: spawned } => after == begun && spawned == id,
                StartScan::SppStart => after == begun,
                StartScan::Finished(Ok(_)) => after == begun,
                StartScan::Finished(Err(_)) => after == s || after == begun,
                _ => false,
            }
        }),
    decreases replies.len(),
{
    if replies.len() > 0 {
        lemma_classic_start(s, replies.drop_last());
    }
}

/// The devices that starting a scan was to report on the way, in order.
pub open spec fn start_reported(s: ImpState, step: StartScanView, replies: Seq<ReplyView>) -> Seq<
    DeviceEntry,
>
    decreases replies.len(),
{
    if replies.len() == 0 {
        Seq::empty()
    } else {
        let earlier = start_reported(s, step, replies.drop_last());
        match start_scan_run(s, step, replies).1 {
            StartScan::BleReport { devices } => earlier + devices,
            _ => earlier,
        }
    }
}

/// The results are these devices, and no device is remembered under another address than theirs.
pub open spec fn holds_only(s: ImpState, devices: Seq<DeviceEntry>) -> bool {
    &&& s.results == devices
    &&& forall|addr: Seq<char>| #[trigger]
        s.scanned.contains_key(addr) ==> exists|i: int|
            0 <= i < devices.len() && (#[trigger] devices[i]).addr == addr
}

/// A low-energy scan that has started is the current session, under a new number. What it holds
/// is what starting it has reported, and that is nothing except on iOS. Where it could not be
/// started, no scan is under way, and nothing else has changed.
pub proof fn law_low_energy_scan_becomes_the_session(s: ImpState, replies: Seq<ReplyView>)
    requires
        s.connect_type == ConnectType::BLE,
        s.platform != Platform::Android,
    ensures
        ({
            let id = next_id(s.scan_seq);
            let (begun, first) = start_scan_begin(s);
            let (after, due) = start_scan_run(begun, first, replies);
            let reported = start_reported(begun, first, replies);
            &&& due matches StartScan::Finished(Ok(_)) ==> {
                &&& after.session == Some(ScanSession::Ble { id })
                &&& after.scan_seq == id
                &&& holds_only(after, reported)
            }
            &&& s.platform != Platform::Ios ==> reported.len() == 0
            &&& due matches StartScan::Finished(Err(error)) ==> error == ScanError::AdapterNotFound
                && after == (ImpState { session: None, ..s })
        }),
{
    lemma_low_energy_start(s, replies);
}

proof fn lemma_low_energy_start(s: ImpState, replies: Seq<ReplyView>)
    requires
        s.connect_type == ConnectType::BLE,
        s.platform != Platform::Android,
    ensures
        ({
            let id = next_id(s.scan_seq);
            let idle = ImpState { session: None, ..s };
            let (begun, first) = start_scan_begin(s);
            let (after, due) = start_scan_run(begun, first, replies);
            let reported = start_reported(begun, first, replies);
            let silent = reported.len() == 0;
            let current = after.session == Some(ScanSession::Ble { id }) && after.scan_seq == id;
            let prepared = after.session is None && after.scan_seq == s.scan_seq && s.platform
                == Platform::Ios;
            &&& after.platform == s.platform
            &&& after.connect_type == s.connect_type
            &&& s.platform != Platform::Ios ==> silent
            &&& match due {
                StartScan::BleCancel { id: _ } => after == idle && silent,
                StartScan::BleAwait { id: _ } => after == idle && silent,
                StartScan::BleAdapter { step: _ } => after == idle && silent,
                StartScan::BleLookUpApp => after == idle && silent,
                StartScan::BleStopClassic => after == idle && silent,
                StartScan::BleQueryConnected => prepared && silent && after.scanned == Map::<
                    Seq<char>,
                    BluestDevice,
                >::empty() && after.results.len() == 0,
                StartScan::BleReport { devices } => prepared && reported == devices && holds_only(
                    after,
                    reported,
                ),
                StartScan::BleSpawn { id: spawned } => current && spawned == id && holds_only(
                    after,
                    reported,
                ),
                StartScan::Finished(Ok(_)) => current && holds_only(after, reported),
                StartScan::Finished(Err(error)) => after == idle && silent && error
                    == ScanError::AdapterNotFound,
                _ => false,
            }
        }),
    decreases replies.len(),
{
    let (begun, first) = start_scan_begin(s);
    if replies.len() > 0 {
        lemma_low_energy_start(s, replies.drop_last());
        let (before, due) = start_scan_run(begun, first, replies.drop_last());
        let earlier = start_reported(begun, first, replies.drop_last());
        let now = start_reported(begun, first, replies);
        if let (StartScan::BleQueryConnected, ReplyView::Peers(Some(peers))) = (due, replies.last()) {
            law_seeds_are_new(before, peers);
            assert(before.results + seed(before, peers).1 =~= seed(before, peers).1);
            assert(earlier + seed(before, peers).1 =~= seed(before, peers).1);
        } else {
            if earlier.len() == 0 {
                assert(earlier =~= Seq::empty());
            }
            let after = start_scan_run(begun, first, replies).0;
            if after.results.len() == 0 {
                assert(after.results =~= Seq::empty());
            }
        }
    }
}

proof fn lemma_seed_frame(s: ImpState, peers: Seq<PeerEntry>)
    ensures
        seed(s, peers).0 == (ImpState {
            scanned: seed(s, peers).0.scanned,
            results: s.results + seed(s, peers).1,
            ..s
        }),
    decreases peers.len(),
{
    if peers.len() == 0 {
        assert(s.results + Seq::<DeviceEntry>::empty() =~= s.results);
    } else {
        lemma_seed_frame(s, peers.drop_last());
        let (before, reported) = seed(s, peers.drop_last());
        let entry = peers.last().entry;
        assert((s.results + reported).push(entry) =~= s.results + reported.push(entry));
    }
}

/// Of the peripherals that are connected to the system, none is reported under an address that
/// is blank or remembered, and none under an address twice. What is reported is what joins the
/// results and what is remembered.
pub proof fn law_seeds_are_new(s: ImpState, peers: Seq<PeerEntry>)
    ensures
        seed(s, peers).0 == (ImpState {
            scanned: seed(s, peers).0.scanned,
            results: s.results + seed(s, peers).1,
            ..s
        }),
        forall|i: int|
            0 <= i < seed(s, peers).1.len() ==> {
                let addr = (#[trigger] seed(s, peers).1[i]).addr;
                dedup_key(addr).len() > 0 && !s.scanned.contains_key(addr) && seed(
                    s,
                    peers,
                ).0.scanned.contains_key(addr)
            },
        forall|i: int, j: int|
            0 <= i < j < seed(s, peers).1.len() ==> (#[trigger] seed(s, peers).1[i]).addr != (
            #[trigger] seed(s, peers).1[j]).addr,
        forall|addr: Seq<char>| #[trigger]
            seed(s, peers).0.scanned.contains_key(addr) ==> s.scanned.contains_key(addr) || exists|
                i: int,
            |
                0 <= i < seed(s, peers).1.len() && (#[trigger] seed(s, peers).1[i]).addr == addr,
        forall|addr: Seq<char>| #[trigger]
            s.scanned.contains_key(addr) ==> seed(s, peers).0.scanned.contains_key(addr),
    decreases peers.len(),
{
    lemma_seed_frame(s, peers);
    if peers.len() > 0 {
        law_seeds_are_new(s, peers.drop_last());
        let (before, earlier) = seed(s, peers.drop_last());
        let (after, reported) = seed(s, peers);
        let entry = peers.last().entry;
        if !(dedup_key(entry.addr).len() == 0 || before.scanned.contains_key(entry.addr)) {
            assert(reported == earlier.push(entry));
            assert forall|i: int| 0 <= i < reported.len() implies {
                let addr = (#[trigger] reported[i]).addr;
                dedup_key(addr).len() > 0 && !s.scanned.contains_key(addr)
                    && after.scanned.contains_key(addr)
            } by {
                if i < earlier.len() {
                    assert(reported[i] == earlier[i]);
                }
            }
            assert forall|i: int, j: int| 0 <= i < j < reported.len() implies (
            #[trigger] reported[i]).addr != (#[trigger] reported[j]).addr by {
                assert(reported[i] == earlier[i]);
                if j < earlier.len() {
                    assert(reported[j] == earlier[j]);
                }
            }
            assert forall|addr: Seq<char>| #[trigger]
                after.scanned.contains_key(addr) implies s.scanned.contains_key(addr) || exists|
                i: int,
            |
                0 <= i < reported.len() && (#[trigger] reported[i]).addr == addr by {
                if addr == entry.addr {
                    assert(reported[earlier.len() as int].addr == addr);
                } else if !s.scanned.contains_key(addr) {
                    assert(before.scanned.contains_key(addr));
                    let i = choose|i: int|
                        0 <= i < earlier.len() && (#[trigger] earlier[i]).addr == addr;
                    assert(reported[i] == earlier[i]);
                }
            }
        }
    }
}

// ---- Stopping a scan ----

/// The state and the step that are due after a sequence of answers to stopping a scan.
pub open spec fn stop_scan_run(s: ImpState, step: StopScanView, replies: Seq<ReplyView>) -> (
    ImpState,
    StopScanView,
)
    decreases replies.len(),
{
    if replies.len() == 0 {
        (s, step)
    } else {
        let (before, due) = stop_scan_run(s, step, replies.drop_last());
        stop_scan_next(before, due, replies.last())
    }
}

/// Stopping a low-energy scan takes two answers at most and cannot fail. It hands over the
/// results, after which there are none, and leaves no scan under way.
pub proof fn law_low_energy_stop_hands_over_the_results(s: ImpState, replies: Seq<ReplyView>)
    requires
        s.connect_type == ConnectType::BLE,
    ensures
        ({
            let (after, due) = stop_scan_run(stop_scan_begin(s).0, stop_scan_begin(s).1, replies);
            &&& replies.len() >= 2 ==> due is Finished
            &&& due matches StopScan::Finished(result) ==> result
                == Ok::<Seq<DeviceEntry>, ScanError>(s.results) && after == (ImpState {
                session: None,
                results: Seq::empty(),
                ..s
            })
        }),
{
    lemma_low_energy_stop(s, replies);
}

proof fn lemma_low_energy_stop(s: ImpState, replies: Seq<ReplyView>)
    requires
        s.connect_type == ConnectType::BLE,
    ensures
        ({
            let idle = ImpState { session: None, ..s };
            let (after, due) = stop_scan_run(stop_scan_begin(s).0, stop_scan_begin(s).1, replies);
            match due {
                StopScan::SppAbort { id: _ } => after == idle && replies.len() == 0,
                StopScan::BleCancel { id: _ } => after == idle && replies.len() == 0,
                StopScan::BleAwait { id: _ } => after == idle && replies.len() <= 1,
                StopScan::Finished(result) => result == Ok::<Seq<DeviceEntry>, ScanError>(s.results)
                    && after == (ImpState { results: Seq::empty(), ..idle }),
                _ => false,
            }
        }),
    decreases replies.len(),
{
    if replies.len() > 0 {
        lemma_low_energy_stop(s, replies.drop_last());
    }
}

/// Stopping a second time hands over nothing, at once.
pub proof fn law_second_low_energy_stop_is_empty(s: ImpState)
    requires
        s.connect_type == ConnectType::BLE,
        s.session is None,
        s.results.len() == 0,
    ensures
        stop_scan_begin(s) == (s, StopScan::<Seq<DeviceEntry>>::Finished(Ok(Seq::empty()))),
{
    assert(s.results =~= Seq::empty());
    assert(stop_scan_begin(s).0 =~= s);
}

/// What stopping a low-energy scan hands over is what there was before the scan ran, and then
/// the devices that the scan reported, in the order in which it reported them.
pub proof fn law_stop_hands_over_what_was_reported(
    s: ImpState,
    task: TaskView,
    scan_replies: Seq<ReplyView>,
    stop_replies: Seq<ReplyView>,
)
    requires
        s.connect_type == ConnectType::BLE,
        stop_replies.len() >= 2,
    ensures
        ({
            let scanned = ble_scan_run(s, task, BleScan::Open { retry: 0 }, scan_replies).0;
            let (begun, first) = stop_scan_begin(scanned);
            stop_scan_run(begun, first, stop_replies).1 == StopScan::<Seq<DeviceEntry>>::Finished(
                Ok(
                    s.results + ble_reported(s, task, BleScan::Open { retry: 0 }, scan_replies),
                ),
            )
        }),
{
    let scanned = ble_scan_run(s, task, BleScan::Open { retry: 0 }, scan_replies).0;
    law_ble_scan_reports_first_sightings(s, task, scan_replies);
    lemma_scan_keeps_the_kind(s, task, scan_replies);
    law_low_energy_stop_hands_over_the_results(scanned, stop_replies);
}

proof fn lemma_scan_keeps_the_kind(s: ImpState, task: TaskView, replies: Seq<ReplyView>)
    ensures
        ble_scan_run(s, task, BleScan::Open { retry: 0 }, replies).0.connect_type
            == s.connect_type,
    decreases replies.len(),
{
    if replies.len() > 0 {
        lemma_scan_keeps_the_kind(s, task, replies.drop_last());
    }
}

/// The turns of a scan that runs and of stopping it, which take place beside each other.
pub enum Turn {
    Scan(ReplyView),
    Stop(ReplyView),
}

/// The state, the scan and the steps that are due after the two have taken turns in any order.
pub open spec fn stop_beside_scan(
    s: ImpState,
    task: TaskView,
    scanning: BleScanView,
    stopping: StopScanView,
    turns: Seq<Turn>,
) -> (ImpState, TaskView, BleScanView, StopScanView)
    decreases turns.len(),
{
    if turns.len() == 0 {
        (s, task, scanning, stopping)
    } else {
        let (before, at, scan_due, stop_due) = stop_beside_scan(
            s,
            task,
            scanning,
            stopping,
            turns.drop_last(),
        );
        match turns.last() {
            Turn::Scan(reply) => {
                let (after, moved, next) = ble_scan_next(before, at, scan_due, reply);
                (after, moved, next, stop_due)
            },
            Turn::Stop(reply) => {
                let (after, next) = stop_scan_next(before, stop_due, reply);
                (after, at, scan_due, next)
            },
        }
    }
}

/// The answers to the scan among the turns.
pub open spec fn scan_replies(turns: Seq<Turn>) -> Seq<ReplyView>
    decreases turns.len(),
{
    if turns.len() == 0 {
        Seq::empty()
    } else {
        match turns.last() {
            Turn::Scan(reply) => scan_replies(turns.drop_last()).push(reply),
            Turn::Stop(_) => scan_replies(turns.drop_last()),
        }
    }
}

/// However stopping a low-energy scan and the scan's last reports interleave, no report is lost
/// and none is handed over twice: what stopping hands over, and then what is left for the next
/// time, is what there was before and then what the scan has reported. At the time that stopping
/// finishes nothing is left, so that devices that turn up until then are handed over. No scan is
/// under way.
pub proof fn law_stop_beside_scan_loses_no_report(
    s: ImpState,
    task: TaskView,
    scanning: BleScanView,
    turns: Seq<Turn>,
)
    requires
        s.connect_type == ConnectType::BLE,
    ensures
        ({
            let (begun, first) = stop_scan_begin(s);
            let (after, _, _, due) = stop_beside_scan(begun, task, scanning, first, turns);
            let reported = ble_reported(s, task, scanning, scan_replies(turns));
            &&& after.session is None
            &&& match due {
                StopScan::Finished(Ok(list)) => list + after.results == s.results + reported,
                StopScan::Finished(Err(_)) => false,
                _ => after.results == s.results + reported,
            }
            &&& turns.len() > 0 && !(stop_beside_scan(
                begun,
                task,
                scanning,
                first,
                turns.drop_last(),
            ).3 is Finished) ==> (due matches StopScan::Finished(Ok(list)) ==> list == s.results
                + reported && after.results.len() == 0)
        }),
{
    lemma_stop_beside_scan(s, task, scanning, turns);
    if turns.len() > 0 {
        lemma_stop_beside_scan(s, task, scanning, turns.drop_last());
    }
}

proof fn lemma_stop_beside_scan(
    s: ImpState,
    task: TaskView,
    scanning: BleScanView,
    turns: Seq<Turn>,
)
    requires
        s.connect_type == ConnectType::BLE,
    ensures
        ({
            let (begun, first) = stop_scan_begin(s);
            let (after, at, scan_due, due) = stop_beside_scan(begun, task, scanning, first, turns);
            let alone = ble_scan_run(s, task, scanning, scan_replies(turns));
            let reported = ble_reported(s, task, scanning, scan_replies(turns));
            &&& after.session is None
            &&& after.connect_type == s.connect_type
            &&& at == alone.1
            &&& scan_due == alone.2
            &&& match due {
                StopScan::SppAbort { id: _ } => after.results == s.results + reported,
                StopScan::BleCancel { id: _ } => after.results == s.results + reported,
                StopScan::BleAwait { id: _ } => after.results == s.results + reported,
                StopScan::Finished(Ok(list)) => list + after.results == s.results + reported,
                _ => false,
            }
        }),
    decreases turns.len(),
{
    let (begun, first) = stop_scan_begin(s);
    if turns.len() == 0 {
        assert(s.results + Seq::<DeviceEntry>::empty() =~= s.results);
    } else {
        let earlier = turns.drop_last();
        lemma_stop_beside_scan(s, task, scanning, earlier);
        let (before, at, scan_due, stop_due) = stop_beside_scan(
            begun,
            task,
            scanning,
            first,
            earlier,
        );
        let reported = ble_reported(s, task, scanning, scan_replies(earlier));
        match turns.last() {
            Turn::Scan(reply) => {
                let replies = scan_replies(turns);
                assert(replies.drop_last() =~= scan_replies(earlier));
                let alone = ble_scan_run(s, task, scanning, scan_replies(earlier)).0;
                law_scan_does_not_depend_on_the_state(before, alone, at, scan_due, reply);
                let next = ble_scan_next(before, at, scan_due, reply);
                if let BleScan::Report { device } = next.2 {
                    assert((s.results + reported).push(device) =~= s.results + reported.push(
                        device,
                    ));
                    if let StopScan::Finished(Ok(list)) = stop_due {
                        assert(list + before.results.push(device) =~= (list
                            + before.results).push(device));
                    }
                }
            },
            Turn::Stop(reply) => {
                assert(before.results + Seq::<DeviceEntry>::empty() =~= before.results);
            },
        }
    }
}

/// What stopping hands over is all that was reported since the scan was started: by starting it,
/// and by the scan.
pub proof fn law_stop_hands_over_all_since_the_start(
    s: ImpState,
    start_replies: Seq<ReplyView>,
    scan_replies: Seq<ReplyView>,
    stop_replies: Seq<ReplyView>,
)
    requires
        s.connect_type == ConnectType::BLE,
        s.platform != Platform::Android,
        start_scan_run(start_scan_begin(s).0, start_scan_begin(s).1, start_replies).1
            matches StartScan::Finished(Ok(_)),
        stop_replies.len() >= 2,
    ensures
        ({
            let (begun, first) = start_scan_begin(s);
            let started = start_scan_run(begun, first, start_replies).0;
            let (task, open) = ble_scan_begin(started, next_id(s.scan_seq));
            let scanned = ble_scan_run(started, task, open, scan_replies).0;
            let (halting, halt) = stop_scan_begin(scanned);
            stop_scan_run(halting, halt, stop_replies).1 == StopScan::<Seq<DeviceEntry>>::Finished(
                Ok(
                    start_reported(begun, first, start_replies) + ble_reported(
                        started,
                        task,
                        open,
                        scan_replies,
                    ),
                ),
            )
        }),
{
    let (begun, first) = start_scan_begin(s);
    lemma_low_energy_start(s, start_replies);
    let started = start_scan_run(begun, first, start_replies).0;
    let (task, _) = ble_scan_begin(started, next_id(s.scan_seq));
    law_stop_hands_over_what_was_reported(started, task, scan_replies, stop_replies);
}

/// Stopping a classic scan leaves no scan under way and changes nothing else. What it hands over
/// has no key twice and no empty key. Unless a classic scan was under way, the transport is not
/// told to stop.
pub proof fn law_classic_stop_ends_the_session(s: ImpState, replies: Seq<ReplyView>)
    requires
        s.connect_type == ConnectType::SPP,
    ensures
        ({
            let (after, due) = stop_scan_run(stop_scan_begin(s).0, stop_scan_begin(s).1, replies);
            &&& after == (ImpState { session: None, ..s })
            &&& due matches StopScan::Finished(Ok(list)) ==> keys_are_distinct(list)
            &&& due is SppStop ==> s.session matches Some(ScanSession::Spp { id: _ })
        }),
{
    lemma_classic_stop(s, replies);
}

proof fn lemma_classic_stop(s: ImpState, replies: Seq<ReplyView>)
    requires
        s.connect_type == ConnectType::SPP,
    ensures
        ({
            let was_scanning = s.session matches Some(ScanSession::Spp { id: _ });
            let (after, due) = stop_scan_run(stop_scan_begin(s).0, stop_scan_begin(s).1, replies);
            after == (ImpState { session: None, ..s }) && match due {
                StopScan::SppAbort { id: _ } => was_scanning,
                StopScan::BleCancel { id: _ } => !was_scanning,
                StopScan::BleAwait { id: _ } => !was_scanning,
                StopScan::SppLookUpApp { was_scanning: stop } => stop == was_scanning,
                StopScan::SppStop => was_scanning,
                StopScan::Finished(Ok(list)) => keys_are_distinct(list),
                _ => true,
            }
        }),
    decreases replies.len(),
{
    if replies.len() > 0 {
        lemma_classic_stop(s, replies.drop_last());
        let (_, due) = stop_scan_run(
            stop_scan_begin(s).0,
            stop_scan_begin(s).1,
            replies.drop_last(),
        );
        if let (StopScan::SppGetDevices, ReplyView::SppDevices(Some(list))) = (due, replies.last()) {
            law_sightings_are_new(Set::empty(), list);
        }
    }
}

// ---- Starting a scan beside the one that it replaces ----

/// The turns of a scan that runs and of starting the next one, which take place beside each other.
pub enum StartTurn {
    Scan(ReplyView),
    Start(ReplyView),
}

/// The state, the old scan and the steps that are due after the two have taken turns in any order.
pub open spec fn start_beside_scan(
    s: ImpState,
    task: TaskView,
    scanning: BleScanView,
    starting: StartScanView,
    turns: Seq<StartTurn>,
) -> (ImpState, TaskView, BleScanView, StartScanView)
    decreases turns.len(),
{
    if turns.len() == 0 {
        (s, task, scanning, starting)
    } else {
        let (before, at, scan_due, start_due) = start_beside_scan(
            s,
            task,
            scanning,
            starting,
            turns.drop_last(),
        );
        match turns.last() {
            StartTurn::Scan(reply) => {
                let (after, moved, next) = ble_scan_next(before, at, scan_due, reply);
                (after, moved, next, start_due)
            },
            StartTurn::Start(reply) => {
                let (after, next) = start_scan_next(before, start_due, reply);
                (after, at, scan_due, next)
            },
        }
    }
}

/// The devices that starting was to report among the turns, in order.
pub open spec fn reported_beside_scan(
    s: ImpState,
    task: TaskView,
    scanning: BleScanView,
    starting: StartScanView,
    turns: Seq<StartTurn>,
) -> Seq<DeviceEntry>
    decreases turns.len(),
{
    if turns.len() == 0 {
        Seq::empty()
    } else {
        let earlier = reported_beside_scan(s, task, scanning, starting, turns.drop_last());
        let due = start_beside_scan(s, task, scanning, starting, turns).3;
        match (turns.last(), due) {
            (StartTurn::Start(_), StartScan::BleReport { devices }) => earlier + devices,
            _ => earlier,
        }
    }
}

/// The scan is telling that it has finished, or has told so.
pub open spec fn is_over(step: BleScanView) -> bool {
    step is SignalFinished || step is Finished
}

/// Waiting for the old scan ended no sooner than that scan told that it has finished.
pub open spec fn was_acknowledged(
    s: ImpState,
    task: TaskView,
    scanning: BleScanView,
    starting: StartScanView,
    turns: Seq<StartTurn>,
) -> bool
    decreases turns.len(),
{
    turns.len() == 0 || {
        let (_, _, scan_due, start_due) = start_beside_scan(
            s,
            task,
            scanning,
            starting,
            turns.drop_last(),
        );
        &&& was_acknowledged(s, task, scanning, starting, turns.drop_last())
        &&& turns.last() is Start && start_due is BleAwait ==> is_over(scan_due)
    }
}

/// Whatever the old scan did until it told that it has finished, and also where its record is
/// cleared late: a low-energy scan that has started is the current session, under a new number,
/// and holds what starting it has reported and nothing of the old scan.
pub proof fn law_start_beside_scan_begins_anew(
    s: ImpState,
    task: TaskView,
    scanning: BleScanView,
    turns: Seq<StartTurn>,
)
    requires
        s.connect_type == ConnectType::BLE,
        s.platform != Platform::Android,
        session_in_order(s),
        s.session == Some(ScanSession::Ble { id: task.id }),
        was_acknowledged(start_scan_begin(s).0, task, scanning, start_scan_begin(s).1, turns),
    ensures
        ({
            let id = next_id(s.scan_seq);
            let (begun, first) = start_scan_begin(s);
            let (after, _, _, due) = start_beside_scan(begun, task, scanning, first, turns);
            due matches StartScan::Finished(result) ==> match result {
                Ok(_) => {
                    &&& after.session == Some(ScanSession::Ble { id })
                    &&& after.scan_seq == id
                    &&& holds_only(
                        after,
                        reported_beside_scan(begun, task, scanning, first, turns),
                    )
                },
                Err(error) => error == ScanError::AdapterNotFound && after.session is None,
            }
        }),
{
    lemma_start_beside_scan(s, task, scanning, turns);
}

proof fn lemma_start_beside_scan(
    s: ImpState,
    task: TaskView,
    scanning: BleScanView,
    turns: Seq<StartTurn>,
)
    requires
        s.connect_type == ConnectType::BLE,
        s.platform != Platform::Android,
        session_in_order(s),
        s.session == Some(ScanSession::Ble { id: task.id }),
        was_acknowledged(start_scan_begin(s).0, task, scanning, start_scan_begin(s).1, turns),
    ensures
        ({
            let id = next_id(s.scan_seq);
            let (begun, first) = start_scan_begin(s);
            let (after, at, scan_due, due) = start_beside_scan(begun, task, scanning, first, turns);
            let reported = reported_beside_scan(begun, task, scanning, first, turns);
            let silent = reported.len() == 0;
            let none = after.session is None && after.scan_seq == s.scan_seq;
            let current = after.session == Some(ScanSession::Ble { id }) && after.scan_seq == id;
            &&& at.id == task.id
            &&& after.platform == s.platform
            &&& after.connect_type == s.connect_type
            &&& match due {
                StartScan::BleCancel { id: _ } => none && silent,
                StartScan::BleAwait { id: _ } => none && silent,
                StartScan::BleAdapter { step: _ } => none && silent && is_over(scan_due),
                StartScan::BleLookUpApp => none && silent && is_over(scan_due),
                StartScan::BleStopClassic => none && silent && is_over(scan_due),
                StartScan::BleQueryConnected => none && silent && is_over(scan_due) && after.scanned
                    == Map::<Seq<char>, BluestDevice>::empty() && after.results.len() == 0,
                StartScan::BleReport { devices } => none && is_over(scan_due) && reported == devices
                    && holds_only(after, reported),
                StartScan::BleSpawn { id: _ } => current && is_over(scan_due) && holds_only(
                    after,
                    reported,
                ),
                StartScan::Finished(Ok(_)) => current && is_over(scan_due) && holds_only(
                    after,
                    reported,
                ),
                StartScan::Finished(Err(error)) => none && is_over(scan_due) && error
                    == ScanError::AdapterNotFound,
                _ => false,
            }
        }),
    decreases turns.len(),
{
    let (begun, first) = start_scan_begin(s);
    if turns.len() > 0 {
        let earlier = turns.drop_last();
        lemma_start_beside_scan(s, task, scanning, earlier);
        let (before, _, _, due) = start_beside_scan(begun, task, scanning, first, earlier);
        let after = start_beside_scan(begun, task, scanning, first, turns).0;
        let reported = reported_beside_scan(begun, task, scanning, first, earlier);
        if reported.len() == 0 {
            assert(reported =~= Seq::empty());
        }
        if after.results.len() == 0 {
            assert(after.results =~= Seq::empty());
        }
        if let StartTurn::Start(reply) = turns.last() {
            if let (StartScan::BleQueryConnected, ReplyView::Peers(Some(peers))) = (due, reply) {
                law_seeds_are_new(before, peers);
                assert(before.results + seed(before, peers).1 =~= seed(before, peers).1);
                assert(reported + seed(before, peers).1 =~= seed(before, peers).1);
            }
        }
    }
}

// ---- The session ----

/// The scan that is under way is one of this transport, and its number is the last that was
/// given.
pub open spec fn session_in_order(s: ImpState) -> bool {
    match s.session {
        None => true,
        Some(ScanSession::Spp { id }) => s.connect_type == ConnectType::SPP && id == s.scan_seq,
        Some(ScanSession::Ble { id }) => s.connect_type == ConnectType::BLE && id == s.scan_seq,
    }
}

/// A transport starts out with its session in order.
pub proof fn law_fresh_session_is_in_order(connect_type: ConnectType, platform: Platform)
    ensures
        session_in_order(fresh_state(connect_type, platform)),
{
}

/// Starting and stopping scans, whatever the driver answers, keep the session in order: a classic
/// transport never has a low-energy session, nor the other way round.
pub proof fn law_start_and_stop_keep_the_session_in_order(s: ImpState, replies: Seq<ReplyView>)
    requires
        session_in_order(s),
    ensures
        session_in_order(
            start_scan_run(start_scan_begin(s).0, start_scan_begin(s).1, replies).0,
        ),
        session_in_order(stop_scan_run(stop_scan_begin(s).0, stop_scan_begin(s).1, replies).0),
{
    match s.connect_type {
        ConnectType::SPP => {
            lemma_classic_stop(s, replies);
            if s.session is Some {
                law_classic_scan_is_not_started_twice(s, replies);
            } else {
                lemma_classic_start(s, replies);
            }
        },
        ConnectType::BLE => {
            lemma_low_energy_stop(s, replies);
            if s.platform == Platform::Android {
                lemma_no_low_energy_start(s, replies);
            } else {
                lemma_low_energy_start(s, replies);
            }
        },
    }
}

proof fn lemma_no_low_energy_start(s: ImpState, replies: Seq<ReplyView>)
    requires
        s.connect_type == ConnectType::BLE,
        s.platform == Platform::Android,
    ensures
        start_scan_run(start_scan_begin(s).0, start_scan_begin(s).1, replies) == start_scan_begin(s),
    decreases replies.len(),
{
    if replies.len() > 0 {
        lemma_no_low_energy_start(s, replies.drop_last());
    }
}

/// Scans that run and scans that end, connecting, sending, subscribing and disconnecting keep the
/// session in order too.
pub proof fn law_other_steps_keep_the_session_in_order(
    s: ImpState,
    task: TaskView,
    scanning: BleScanView,
    session: ScanSession,
    connecting: ConnectView,
    sending: SendView,
    subscribing: SubscribeView,
    disconnecting: DisconnectStep,
    reply: ReplyView,
)
    requires
        session_in_order(s),
    ensures
        session_in_order(ble_scan_next(s, task, scanning, reply).0),
        session_in_order(session_ended(s, session)),
        session_in_order(connect_next(s, connecting, reply).0),
        session_in_order(send_next(s, sending, reply).0),
        session_in_order(subscribe_next(s, subscribing, reply).0),
        session_in_order(disconnect_begin(s).0),
        session_in_order(disconnect_next(s, disconnecting, reply).0),
{
    law_connect_leaves_the_scan_alone(s, connecting, reply);
}

/// How often telling the classic transport to stop has fallen due on the way.
pub open spec fn classic_stops(s: ImpState, step: StopScanView, replies: Seq<ReplyView>) -> nat
    decreases replies.len(),
{
    if replies.len() == 0 {
        0
    } else {
        let earlier = classic_stops(s, step, replies.drop_last());
        if stop_scan_run(s, step, replies).1 is SppStop && !(stop_scan_run(
            s,
            step,
            replies.drop_last(),
        ).1 is SppStop) {
            earlier + 1
        } else {
            earlier
        }
    }
}

/// Whether the classic transport was at hand whenever it was looked for.
pub open spec fn classic_at_hand(s: ImpState, step: StopScanView, replies: Seq<ReplyView>) -> bool
    decreases replies.len(),
{
    replies.len() == 0 || {
        &&& classic_at_hand(s, step, replies.drop_last())
        &&& stop_scan_run(s, step, replies.drop_last()).1 is SppLookUpApp ==> replies.last()
            != ReplyView::Flag(false)
    }
}

/// Stopping a classic scan tells the transport to stop exactly once where a scan was under way
/// and the transport is at hand, and never where no scan was. Its only error is that the transport
/// is not found.
pub proof fn law_classic_transport_is_stopped_once(s: ImpState, replies: Seq<ReplyView>)
    requires
        s.connect_type == ConnectType::SPP,
        session_in_order(s),
    ensures
        ({
            let (begun, first) = stop_scan_begin(s);
            let due = stop_scan_run(begun, first, replies).1;
            let stops = classic_stops(begun, first, replies);
            &&& s.session is None ==> stops == 0
            &&& stops <= 1
            &&& s.session is Some && due is Finished && classic_at_hand(begun, first, replies)
                ==> stops == 1
            &&& due matches StopScan::Finished(Err(error)) ==> error == ScanError::AdapterNotFound
        }),
{
    lemma_classic_stops(s, replies);
}

proof fn lemma_classic_stops(s: ImpState, replies: Seq<ReplyView>)
    requires
        s.connect_type == ConnectType::SPP,
        session_in_order(s),
    ensures
        ({
            let (begun, first) = stop_scan_begin(s);
            let (after, due) = stop_scan_run(begun, first, replies);
            let stops = classic_stops(begun, first, replies);
            let active = s.session is Some;
            after.connect_type == s.connect_type && match due {
                StopScan::SppAbort { id: _ } => active && stops == 0,
                StopScan::SppLookUpApp { was_scanning } => was_scanning == active && stops == 0,
                StopScan::SppStop => active && stops == 1,
                StopScan::SppGetDevices => stops == if active {
                    1nat
                } else {
                    0nat
                },
                StopScan::Finished(Ok(_)) => stops == if active {
                    1nat
                } else {
                    0nat
                },
                StopScan::Finished(Err(error)) => {
                    &&& error == ScanError::AdapterNotFound
                    &&& stops <= if active {
                        1nat
                    } else {
                        0nat
                    }
                    &&& active && classic_at_hand(begun, first, replies) ==> stops == 1
                },
                _ => false,
            }
        }),
    decreases replies.len(),
{
    if replies.len() > 0 {
        lemma_classic_stops(s, replies.drop_last());
    }
}

/// Starting a classic scan fails in one way only: the transport is not found, or does not scan.
pub proof fn law_classic_start_error(s: ImpState, replies: Seq<ReplyView>)
    requires
        s.connect_type == ConnectType::SPP,
    ensures
        start_scan_run(start_scan_begin(s).0, start_scan_begin(s).1, replies).1
            matches StartScan::Finished(Err(error)) ==> error == ScanError::AdapterNotFound,
{
    lemma_classic_start_error(s, replies);
}

proof fn lemma_classic_start_error(s: ImpState, replies: Seq<ReplyView>)
    requires
        s.connect_type == ConnectType::SPP,
    ensures
        match start_scan_run(start_scan_begin(s).0, start_scan_begin(s).1, replies).1 {
            StartScan::SppLookUpApp => true,
            StartScan::SppSpawn { id: _ } => true,
            StartScan::SppStart => true,
            StartScan::Finished(Ok(_)) => true,
            StartScan::Finished(Err(error)) => error == ScanError::AdapterNotFound,
            _ => false,
        },
    decreases replies.len(),
{
    if replies.len() > 0 {
        lemma_classic_start_error(s, replies.drop_last());
    }
}

// ---- What scanning leaves alone ----

/// The connection, the listener and the kind of transport are the same in two states.
pub open spec fn same_connection(a: ImpState, b: ImpState) -> bool {
    &&& a.connect_type == b.connect_type
    &&& a.platform == b.platform
    &&& a.device == b.device
    &&& a.services == b.services
    &&& a.cache == b.cache
    &&& a.bundle == b.bundle
    &&& a.listener == b.listener
}

/// Starting, running and stopping a scan leave the connection alone, and so keep the state well
/// formed.
pub proof fn law_scanning_leaves_the_connection_alone(
    s: ImpState,
    task: TaskView,
    start: StartScanView,
    run: BleScanView,
    stop: StopScanView,
    reply: ReplyView,
)
    ensures
        same_connection(s, start_scan_begin(s).0),
        same_connection(s, start_scan_next(s, start, reply).0),
        same_connection(s, ble_scan_next(s, task, run, reply).0),
        same_connection(s, stop_scan_begin(s).0),
        same_connection(s, stop_scan_next(s, stop, reply).0),
        well_formed(s) ==> well_formed(start_scan_next(s, start, reply).0) && well_formed(
            ble_scan_next(s, task, run, reply).0,
        ) && well_formed(stop_scan_next(s, stop, reply).0),
{
    if let (StartScan::BleQueryConnected, ReplyView::Peers(Some(peers))) = (start, reply) {
        lemma_seed_frame(s, peers);
    }
}

} // verus!
