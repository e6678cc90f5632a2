//! What scanning is for: which devices are reported, what is remembered of them, what stopping
//! hands over, and what the driver is told to do. What is said here is said of the answers that
//! came in on the way.
use vstd::prelude::*;

#[allow(unused_imports)]
use crate::address::dedup_key;
#[allow(unused_imports)]
use crate::ble::BluestDevice;
#[allow(unused_imports)]
use crate::btinterface::{ConnectType, DeviceEntry};
#[allow(unused_imports)]
use crate::driver::{HeardView, PeerEntry, Platform, ReplyView, ScanOpening};
#[allow(unused_imports)]
use crate::stdimp::connect::{connect_begin, Connect};
#[allow(unused_imports)]
use crate::stdimp::connect_laws::{device_of, law_remembered_device_is_the_one_connected};
#[allow(unused_imports)]
use crate::stdimp::laws::{connect_run, law_remembered_device_is_not_searched_for};
#[allow(unused_imports)]
use crate::stdimp::scan::{
    ble_scan_begin, session_ended, spp_scan_next, BleScan, BleScanView, SppScan, SppScanView,
    TaskView,
};
#[allow(unused_imports)]
use crate::stdimp::scan_laws::{
    ble_heard, ble_reported, ble_scan_run, law_seeds_are_new, law_spp_scan_reports_first_sightings,
    lemma_ble_scan, openings, spp_listed, spp_reported, start_scan_run, stop_scan_run,
};
#[allow(unused_imports)]
use crate::stdimp::sightings::{
    law_first_sightings_are_picked, law_known_after, law_sightings_are_new, picks,
};
#[allow(unused_imports)]
use crate::stdimp::start_scan::{next_id, seed, start_scan_begin, StartScan, StartScanView};
#[allow(unused_imports)]
use crate::stdimp::stop_scan::{stop_scan_begin, StopScan, StopScanView};
#[allow(unused_imports)]
use crate::stdimp::{ImpState, ScanSession};

verus! {

// ---- What a scan reports ----

/// A classic scan reports, over all its polls, exactly the devices that the transport has listed
/// under a key that is not blank and was not known or listed before, in the order of the lists.
pub proof fn law_classic_scan_reports_every_new_device(
    task: TaskView,
    step: SppScanView,
    replies: Seq<ReplyView>,
)
    ensures
        exists|positions: Seq<int>| #[trigger]
            picks(
                task.known,
                spp_listed(task, step, replies),
                spp_reported(task, step, replies),
                positions,
            ),
{
    law_spp_scan_reports_first_sightings(task, step, replies);
    law_first_sightings_are_picked(task.known, spp_listed(task, step, replies));
}

/// A classic scan goes round: what is listed leads to a report of it, then it rests, then it asks
/// again; where nothing could be listed, it rests at once.
pub proof fn law_classic_scan_goes_round(
    task: TaskView,
    list: Seq<DeviceEntry>,
    devices: Seq<DeviceEntry>,
    reply: ReplyView,
)
    ensures
        spp_scan_next(task, SppScan::Poll, ReplyView::SppDevices(Some(list))).1 is Report,
        spp_scan_next(task, SppScan::Poll, ReplyView::SppDevices(None)) == (
            task,
            SppScan::<Seq<DeviceEntry>>::Pause,
        ),
        spp_scan_next(task, SppScan::Report { devices }, reply) == (
            task,
            SppScan::<Seq<DeviceEntry>>::Pause,
        ),
        spp_scan_next(task, SppScan::Pause, reply) == (task, SppScan::<Seq<DeviceEntry>>::Poll),
        spp_scan_next(task, SppScan::Poll, ReplyView::SppDevices(Some(list))).0.id == task.id,
{
}

/// The peripherals that were heard on the way, in order.
pub open spec fn heard_peers(
    s: ImpState,
    task: TaskView,
    step: BleScanView,
    replies: Seq<ReplyView>,
) -> Seq<PeerEntry>
    decreases replies.len(),
{
    if replies.len() == 0 {
        Seq::empty()
    } else {
        let earlier = heard_peers(s, task, step, replies.drop_last());
        match (ble_scan_run(s, task, step, replies.drop_last()).2, replies.last()) {
            (BleScan::Listen, ReplyView::Heard(HeardView::Found(peer))) => earlier.push(peer),
            _ => earlier,
        }
    }
}

/// The peripheral at position `j` has this entry and is this device, and none that was heard
/// before it has the same key.
pub open spec fn heard_first_at(
    peers: Seq<PeerEntry>,
    entry: DeviceEntry,
    device: BluestDevice,
    j: int,
) -> bool {
    &&& 0 <= j < peers.len()
    &&& peers[j].entry == entry
    &&& peers[j].device == device
    &&& forall|i: int|
        0 <= i < j ==> dedup_key((#[trigger] peers[i]).entry.addr) != dedup_key(entry.addr)
}

/// Under the address of this entry stands the very device that was heard with it.
pub open spec fn remembers(
    scanned: Map<Seq<char>, BluestDevice>,
    peers: Seq<PeerEntry>,
    entry: DeviceEntry,
) -> bool {
    scanned.contains_key(entry.addr) && exists|j: int| #[trigger]
        heard_first_at(peers, entry, scanned[entry.addr], j)
}

/// Some entry of the list has this address.
pub open spec fn has_address(list: Seq<DeviceEntry>, addr: Seq<char>) -> bool {
    exists|n: int| 0 <= n < list.len() && (#[trigger] list[n]).addr == addr
}

/// Both tables say the same of this address.
pub open spec fn same_under(
    left: Map<Seq<char>, BluestDevice>,
    right: Map<Seq<char>, BluestDevice>,
    addr: Seq<char>,
) -> bool {
    left.contains_key(addr) == right.contains_key(addr) && (left.contains_key(addr) ==> left[addr]
        == right[addr])
}

/// A low-energy scan reports exactly the devices that it hears under a key that is not blank and
/// was neither known nor heard before, in the order in which it hears them. The results grow by
/// just these. Each is remembered under its address as the very peripheral that was heard, and
/// nothing else that is remembered changes.
pub proof fn law_scan_remembers_the_devices_it_reports(
    s: ImpState,
    task: TaskView,
    replies: Seq<ReplyView>,
)
    ensures
        ({
            let start = BleScan::Open { retry: 0 };
            let after = ble_scan_run(s, task, start, replies).0;
            let reported = ble_reported(s, task, start, replies);
            let peers = heard_peers(s, task, start, replies);
            &&& peers.map_values(|peer: PeerEntry| peer.entry) == ble_heard(s, task, start, replies)
            &&& exists|positions: Seq<int>| #[trigger]
                picks(task.known, ble_heard(s, task, start, replies), reported, positions)
            &&& after.results == s.results + reported
            &&& forall|n: int|
                0 <= n < reported.len() ==> remembers(
                    after.scanned,
                    peers,
                    #[trigger] reported[n],
                )
            &&& forall|addr: Seq<char>|
                !has_address(reported, addr) ==> #[trigger] same_under(
                    after.scanned,
                    s.scanned,
                    addr,
                )
        }),
{
    let start = BleScan::Open { retry: 0 };
    lemma_ble_scan(s, task, start, replies);
    law_first_sightings_are_picked(task.known, ble_heard(s, task, start, replies));
    lemma_remembers(s, task, start, replies);
}

proof fn lemma_remembers(s: ImpState, task: TaskView, step: BleScanView, replies: Seq<ReplyView>)
    requires
        !(step is Report),
    ensures
        ({
            let after = ble_scan_run(s, task, step, replies).0;
            let reported = ble_reported(s, task, step, replies);
            let peers = heard_peers(s, task, step, replies);
            &&& peers.map_values(|peer: PeerEntry| peer.entry) == ble_heard(s, task, step, replies)
            &&& forall|n: int|
                0 <= n < reported.len() ==> remembers(
                    after.scanned,
                    peers,
                    #[trigger] reported[n],
                )
            &&& forall|addr: Seq<char>|
                !has_address(reported, addr) ==> #[trigger] same_under(
                    after.scanned,
                    s.scanned,
                    addr,
                )
        }),
    decreases replies.len(),
{
    let reported = ble_reported(s, task, step, replies);
    let peers = heard_peers(s, task, step, replies);
    if replies.len() == 0 {
        assert(peers.map_values(|peer: PeerEntry| peer.entry) =~= Seq::empty());
    } else {
        let earlier = replies.drop_last();
        lemma_remembers(s, task, step, earlier);
        lemma_ble_scan(s, task, step, earlier);
        let (before, at, due) = ble_scan_run(s, task, step, earlier);
        let after = ble_scan_run(s, task, step, replies).0;
        let old_reported = ble_reported(s, task, step, earlier);
        let old_peers = heard_peers(s, task, step, earlier);
        let heard = ble_heard(s, task, step, earlier);
        match (due, replies.last()) {
            (BleScan::Listen, ReplyView::Heard(HeardView::Found(peer))) => {
                let key = dedup_key(peer.entry.addr);
                assert(peers == old_peers.push(peer));
                assert(peers.map_values(|peer: PeerEntry| peer.entry) =~= heard.push(peer.entry));
                law_known_after(task.known, heard, key);
                law_sightings_are_new(task.known, heard);
                let fresh = key.len() > 0 && !at.known.contains(key);
                assert forall|n: int| 0 <= n < old_reported.len() implies remembers(
                    after.scanned,
                    peers,
                    #[trigger] old_reported[n],
                ) by {
                    let entry = old_reported[n];
                    assert(remembers(before.scanned, old_peers, entry));
                    assert(at.known.contains(dedup_key(entry.addr)));
                    if fresh {
                        assert(entry.addr != peer.entry.addr);
                    }
                    assert(after.scanned[entry.addr] == before.scanned[entry.addr]);
                    let j = choose|j: int| #[trigger]
                        heard_first_at(old_peers, entry, before.scanned[entry.addr], j);
                    assert forall|i: int| 0 <= i < j implies dedup_key(
                        (#[trigger] peers[i]).entry.addr,
                    ) != dedup_key(entry.addr) by {
                        assert(peers[i] == old_peers[i]);
                    }
                    assert(heard_first_at(peers, entry, after.scanned[entry.addr], j));
                }
                if fresh {
                    assert(reported == old_reported.push(peer.entry));
                    let last = old_reported.len() as int;
                    assert(reported[last] == peer.entry);
                    let place = old_peers.len() as int;
                    assert forall|i: int| 0 <= i < place implies dedup_key(
                        (#[trigger] peers[i]).entry.addr,
                    ) != key by {
                        assert(peers[i] == old_peers[i]);
                        assert(heard[i] == old_peers[i].entry);
                        assert(dedup_key(heard[i].addr) != key);
                    }
                    assert(heard_first_at(peers, peer.entry, peer.device, place));
                    assert(after.scanned == before.scanned.insert(peer.entry.addr, peer.device));
                    assert(heard_first_at(
                        peers,
                        peer.entry,
                        after.scanned[peer.entry.addr],
                        place,
                    ));
                    assert forall|n: int| 0 <= n < reported.len() implies remembers(
                        after.scanned,
                        peers,
                        #[trigger] reported[n],
                    ) by {
                        if n < last {
                            assert(reported[n] == old_reported[n]);
                        }
                    }
                    assert forall|addr: Seq<char>|
                        !has_address(reported, addr) implies #[trigger] same_under(
                        after.scanned,
                        s.scanned,
                        addr,
                    ) by {
                        assert(reported[last].addr != addr);
                        if has_address(old_reported, addr) {
                            let n = choose|n: int|
                                0 <= n < old_reported.len() && (#[trigger] old_reported[n]).addr
                                    == addr;
                            assert(reported[n] == old_reported[n]);
                        }
                        assert(same_under(before.scanned, s.scanned, addr));
                    }
                }
            },
            _ => {
                assert(peers == old_peers);
                assert(reported == old_reported);
                assert(after.scanned == before.scanned);
            },
        }
    }
}

/// A low-energy scan begins with discovery. It does not report a device whose key is an address
/// that is remembered, and reports every other one that it hears whose key is not blank.
pub proof fn law_scan_begins_with_what_is_remembered(
    s: ImpState,
    id: usize,
    replies: Seq<ReplyView>,
)
    ensures
        ({
            let (task, first) = ble_scan_begin(s, id);
            let heard = ble_heard(s, task, first, replies);
            let reported = ble_reported(s, task, first, replies);
            &&& first == (BleScan::<DeviceEntry>::Open { retry: 0 })
            &&& task.id == id
            &&& forall|key: Seq<char>| #[trigger]
                task.known.contains(key) <==> s.scanned.contains_key(key)
            &&& exists|positions: Seq<int>| #[trigger]
                picks(task.known, heard, reported, positions)
        }),
{
    let (task, _) = ble_scan_begin(s, id);
    law_scan_remembers_the_devices_it_reports(s, task, replies);
}

// ---- How a low-energy scan runs ----

/// Whether a step was answered on the way in the manner of an event.
pub open spec fn scan_saw(
    s: ImpState,
    task: TaskView,
    step: BleScanView,
    replies: Seq<ReplyView>,
    event: spec_fn(BleScanView, ReplyView) -> bool,
) -> bool
    decreases replies.len(),
{
    replies.len() > 0 && {
        ||| scan_saw(s, task, step, replies.drop_last(), event)
        ||| event(ble_scan_run(s, task, step, replies.drop_last()).2, replies.last())
    }
}

/// Discovery has started.
pub open spec fn discovery_started() -> spec_fn(BleScanView, ReplyView) -> bool {
    |due: BleScanView, reply: ReplyView|
        due is Open && reply == ReplyView::Scan(ScanOpening::Started)
}

/// Discovery has failed for another reason than that one is under way.
pub open spec fn discovery_failed() -> spec_fn(BleScanView, ReplyView) -> bool {
    |due: BleScanView, reply: ReplyView|
        due is Open && reply == ReplyView::Scan(ScanOpening::Failed)
}

/// There is nothing more to hear, or the scan was told to stop.
pub open spec fn listening_over() -> spec_fn(BleScanView, ReplyView) -> bool {
    |due: BleScanView, reply: ReplyView|
        due is Listen && (reply == ReplyView::Heard(HeardView::Ended) || reply == ReplyView::Heard(
            HeardView::Cancelled,
        ))
}

/// Those who wait for the scan were told that it has finished.
pub open spec fn end_told() -> spec_fn(BleScanView, ReplyView) -> bool {
    |due: BleScanView, reply: ReplyView| due is SignalFinished
}

/// A low-energy scan listens once discovery has started, and not before. It is over exactly where
/// there is nothing more to hear, it was told to stop, discovery has failed, or discovery was
/// found under way for the seventh time. Before each new attempt it waits, 180 milliseconds longer
/// each time. It ends only after it has told so.
pub proof fn law_how_a_scan_runs(s: ImpState, task: TaskView, replies: Seq<ReplyView>)
    ensures
        ({
            let start = BleScan::Open { retry: 0 };
            let due = ble_scan_run(s, task, start, replies).2;
            let tried = openings(s, task, start, replies);
            let started = scan_saw(s, task, start, replies, discovery_started());
            let over = scan_saw(s, task, start, replies, listening_over());
            let failed = scan_saw(s, task, start, replies, discovery_failed());
            &&& due is Listen || due is Report ==> started && !over && !failed
            &&& due is SignalFinished || due is Finished <==> over || failed || (tried == 7
                && !started)
            &&& due matches BleScan::Open { retry } ==> tried == retry && tried <= 6
            &&& due matches BleScan::Pause { retry, millis } ==> tried == retry && 1 <= tried <= 6
                && millis == 180 * tried
            &&& due is Finished <==> scan_saw(s, task, start, replies, end_told())
        }),
{
    lemma_how_a_scan_runs(s, task, replies);
}

proof fn lemma_how_a_scan_runs(s: ImpState, task: TaskView, replies: Seq<ReplyView>)
    ensures
        ({
            let start = BleScan::Open { retry: 0 };
            let due = ble_scan_run(s, task, start, replies).2;
            let tried = openings(s, task, start, replies);
            let started = scan_saw(s, task, start, replies, discovery_started());
            let over = scan_saw(s, task, start, replies, listening_over());
            let failed = scan_saw(s, task, start, replies, discovery_failed());
            &&& !(due is Finished) ==> !scan_saw(s, task, start, replies, end_told())
            &&& match due {
                BleScan::Open { retry } => tried == retry && tried <= 6 && !started && !over
                    && !failed,
                BleScan::Pause { retry, millis } => tried == retry && 1 <= tried <= 6 && millis
                    == 180 * tried && !started && !over && !failed,
                BleScan::Listen => started && !over && !failed,
                BleScan::Report { device: _ } => started && !over && !failed,
                BleScan::SignalFinished => over || failed || (tried == 7 && !started),
                BleScan::Finished => (over || failed || (tried == 7 && !started)) && scan_saw(
                    s,
                    task,
                    start,
                    replies,
                    end_told(),
                ),
            }
        }),
    decreases replies.len(),
{
    if replies.len() > 0 {
        lemma_how_a_scan_runs(s, task, replies.drop_last());
    }
}

/// The end of a scan clears its own session and no other, and nothing else.
pub proof fn law_end_of_a_session(s: ImpState, session: ScanSession)
    ensures
        session_ended(s, session).session == if s.session == Some(session) {
            None
        } else {
            s.session
        },
        session_ended(s, session).scan_seq == s.scan_seq,
        session_ended(s, session).results == s.results,
        session_ended(s, session).scanned == s.scanned,
        session_ended(s, session).device == s.device,
        session_ended(s, session).services == s.services,
        session_ended(s, session).cache == s.cache,
        session_ended(s, session).bundle == s.bundle,
        session_ended(s, session).listener == s.listener,
        session_ended(s, session).connect_type == s.connect_type,
        session_ended(s, session).platform == s.platform,
{
}

/// A low-energy scan clears its session when it ends, and leaves a session that is not its own.
pub proof fn law_scan_clears_its_session(s: ImpState, task: TaskView, replies: Seq<ReplyView>)
    ensures
        ({
            let (after, at, due) = ble_scan_run(s, task, BleScan::Open { retry: 0 }, replies);
            &&& at.id == task.id
            &&& after.session == if due is Finished && s.session == Some(
                ScanSession::Ble { id: task.id },
            ) {
                None
            } else {
                s.session
            }
        }),
    decreases replies.len(),
{
    if replies.len() > 0 {
        law_scan_clears_its_session(s, task, replies.drop_last());
    }
}

/// Session numbers are counted up by one, and start anew behind the greatest.
pub proof fn law_session_numbers_count_up(seq: usize)
    ensures
        next_id(seq) == if seq == usize::MAX {
            0
        } else {
            seq + 1
        },
{
}

// ---- Beginning with what is connected ----

/// The peripheral at position `i` has an address that is neither blank nor remembered, and none
/// before it has the same one.
pub open spec fn seed_at(s: ImpState, peers: Seq<PeerEntry>, i: int) -> bool {
    &&& dedup_key(peers[i].entry.addr).len() > 0
    &&& !s.scanned.contains_key(peers[i].entry.addr)
    &&& forall|j: int| 0 <= j < i ==> (#[trigger] peers[j]).entry.addr != peers[i].entry.addr
}

/// One of the peripherals that come in anew has this entry.
pub open spec fn seeded_entry(s: ImpState, peers: Seq<PeerEntry>, entry: DeviceEntry) -> bool {
    exists|i: int| 0 <= i < peers.len() && #[trigger] seed_at(s, peers, i) && peers[i].entry == entry
}

/// One of the peripherals that come in anew has this address.
pub open spec fn seeded_address(s: ImpState, peers: Seq<PeerEntry>, addr: Seq<char>) -> bool {
    exists|i: int|
        0 <= i < peers.len() && #[trigger] seed_at(s, peers, i) && peers[i].entry.addr == addr
}

/// Of the peripherals that are connected to the system, each one whose address is neither blank
/// nor remembered is reported, as the first with that address, and no other is. It is remembered
/// under its address as that very device; nothing else that is remembered changes.
pub proof fn law_every_connected_peripheral_is_reported(s: ImpState, peers: Seq<PeerEntry>)
    ensures
        ({
            let (after, reported) = seed(s, peers);
            &&& after.results == s.results + reported
            &&& forall|i: int|
                0 <= i < peers.len() && #[trigger] seed_at(s, peers, i) ==> reported.contains(
                    peers[i].entry,
                ) && after.scanned.contains_key(peers[i].entry.addr)
                    && after.scanned[peers[i].entry.addr] == peers[i].device
            &&& forall|n: int|
                0 <= n < reported.len() ==> seeded_entry(s, peers, #[trigger] reported[n])
            &&& forall|addr: Seq<char>|
                !seeded_address(s, peers, addr) ==> #[trigger] same_under(
                    after.scanned,
                    s.scanned,
                    addr,
                )
        }),
    decreases peers.len(), 1int,
{
    law_seeds_are_new(s, peers);
    if peers.len() > 0 {
        let rest = peers.drop_last();
        let last = peers.len() - 1;
        law_every_connected_peripheral_is_reported(s, rest);
        law_seeds_are_new(s, rest);
        let (before, earlier) = seed(s, rest);
        let (after, reported) = seed(s, peers);
        let peer = peers.last();
        assert(peers[last] == peer);
        assert forall|i: int| 0 <= i < rest.len() implies #[trigger] seed_at(s, rest, i) == seed_at(
            s,
            peers,
            i,
        ) by {
            lemma_seed_at(s, peers, i);
        }
        let taken = !(dedup_key(peer.entry.addr).len() == 0 || before.scanned.contains_key(
            peer.entry.addr,
        ));
        lemma_last_seed(s, peers);
        assert(seed_at(s, peers, last) == taken);
        assert forall|i: int|
            0 <= i < peers.len() && #[trigger] seed_at(s, peers, i) implies reported.contains(
            peers[i].entry,
        ) && after.scanned.contains_key(peers[i].entry.addr)
            && after.scanned[peers[i].entry.addr] == peers[i].device by {
            if i < last {
                assert(seed_at(s, rest, i));
                assert(rest[i] == peers[i]);
                let n = choose|n: int| 0 <= n < earlier.len() && earlier[n] == rest[i].entry;
                assert(reported[n] == earlier[n]);
            } else {
                assert(reported[earlier.len() as int] == peer.entry);
            }
        }
        assert forall|n: int| 0 <= n < reported.len() implies seeded_entry(
            s,
            peers,
            #[trigger] reported[n],
        ) by {
            if n < earlier.len() {
                assert(reported[n] == earlier[n]);
                assert(seeded_entry(s, rest, earlier[n]));
                let i = choose|i: int|
                    0 <= i < rest.len() && #[trigger] seed_at(s, rest, i) && rest[i].entry
                        == earlier[n];
                assert(rest[i] == peers[i]);
                assert(seed_at(s, peers, i));
            } else {
                assert(seed_at(s, peers, last));
            }
        }
        assert forall|addr: Seq<char>|
            !seeded_address(s, peers, addr) implies #[trigger] same_under(
            after.scanned,
            s.scanned,
            addr,
        ) by {
            if seeded_address(s, rest, addr) {
                let i = choose|i: int|
                    0 <= i < rest.len() && #[trigger] seed_at(s, rest, i) && rest[i].entry.addr
                        == addr;
                assert(rest[i] == peers[i]);
                assert(seed_at(s, peers, i));
            }
            assert(same_under(before.scanned, s.scanned, addr));
            if taken {
                assert(seed_at(s, peers, last));
            }
        }
    }
}

/// What is remembered stays remembered while the peripherals are gone through.
proof fn lemma_seed_keeps(s: ImpState, peers: Seq<PeerEntry>, addr: Seq<char>)
    requires
        s.scanned.contains_key(addr),
    ensures
        seed(s, peers).0.scanned.contains_key(addr),
    decreases peers.len(),
{
    if peers.len() > 0 {
        lemma_seed_keeps(s, peers.drop_last(), addr);
    }
}

/// Once the peripherals have been gone through, every address of theirs that is not blank is
/// remembered.
proof fn lemma_seed_of_an_address(s: ImpState, peers: Seq<PeerEntry>, j: int)
    requires
        0 <= j < peers.len(),
        dedup_key(peers[j].entry.addr).len() > 0,
    ensures
        seed(s, peers).0.scanned.contains_key(peers[j].entry.addr),
    decreases peers.len(),
{
    if j < peers.len() - 1 {
        let rest = peers.drop_last();
        assert(rest[j] == peers[j]);
        lemma_seed_of_an_address(s, rest, j);
    } else {
        assert(peers[j] == peers.last());
    }
}

/// `reported` are the entries of the peripherals at the given positions, in order, and those are
/// exactly the ones that come in anew.
pub open spec fn seeds(
    s: ImpState,
    peers: Seq<PeerEntry>,
    reported: Seq<DeviceEntry>,
    positions: Seq<int>,
) -> bool {
    &&& positions.len() == reported.len()
    &&& forall|n: int|
        0 <= n < reported.len() ==> 0 <= #[trigger] positions[n] < peers.len() && reported[n]
            == peers[positions[n]].entry
    &&& forall|n: int, m: int|
        0 <= n < m < reported.len() ==> #[trigger] positions[n] < #[trigger] positions[m]
    &&& forall|i: int|
        0 <= i < peers.len() ==> (#[trigger] positions.contains(i) <==> seed_at(s, peers, i))
}

/// The connected peripherals that come in anew are reported in the order in which the system has
/// listed them, each once.
pub proof fn law_connected_peripherals_are_reported_in_order(s: ImpState, peers: Seq<PeerEntry>)
    ensures
        exists|positions: Seq<int>| #[trigger] seeds(s, peers, seed(s, peers).1, positions),
{
    let positions = lemma_seed_positions(s, peers);
}

proof fn lemma_seed_positions(s: ImpState, peers: Seq<PeerEntry>) -> (positions: Seq<int>)
    ensures
        seeds(s, peers, seed(s, peers).1, positions),
    decreases peers.len(),
{
    if peers.len() == 0 {
        Seq::empty()
    } else {
        let rest = peers.drop_last();
        let last = peers.len() - 1;
        let before = lemma_seed_positions(s, rest);
        let picked = seed(s, rest).1;
        let whole = seed(s, peers).1;
        assert forall|i: int| 0 <= i < rest.len() implies #[trigger] seed_at(s, peers, i) == seed_at(
            s,
            rest,
            i,
        ) by {
            lemma_seed_at(s, peers, i);
        }
        lemma_last_seed(s, peers);
        if seed_at(s, peers, last) {
            let positions = before.push(last);
            assert(whole == picked.push(peers[last].entry));
            assert forall|i: int| 0 <= i < peers.len() implies (#[trigger] positions.contains(i)
                <==> seed_at(s, peers, i)) by {
                if positions.contains(i) {
                    let n = choose|n: int| 0 <= n < positions.len() && positions[n] == i;
                    if n < before.len() {
                        assert(before[n] == i);
                        assert(before.contains(i));
                    }
                }
                if seed_at(s, peers, i) {
                    if i < last {
                        assert(seed_at(s, rest, i));
                        assert(before.contains(i));
                        let n = choose|n: int| 0 <= n < before.len() && before[n] == i;
                        assert(positions[n] == i);
                    } else {
                        assert(positions[before.len() as int] == i);
                    }
                }
            }
            assert forall|n: int| 0 <= n < whole.len() implies 0 <= #[trigger] positions[n]
                < peers.len() && whole[n] == peers[positions[n]].entry by {
                if n < picked.len() {
                    assert(positions[n] == before[n]);
                }
            }
            assert forall|n: int, m: int| 0 <= n < m < positions.len() implies #[trigger] positions[n]
                < #[trigger] positions[m] by {
                assert(positions[n] == before[n]);
                if m < before.len() {
                    assert(positions[m] == before[m]);
                }
            }
            positions
        } else {
            assert(whole == picked);
            assert forall|i: int| 0 <= i < peers.len() implies (#[trigger] before.contains(i)
                <==> seed_at(s, peers, i)) by {
                if before.contains(i) && i == last {
                    let n = choose|n: int| 0 <= n < before.len() && before[n] == i;
                    assert(before[n] < rest.len());
                }
                if i < last {
                    assert(seed_at(s, rest, i) == before.contains(i));
                }
            }
            assert forall|n: int| 0 <= n < whole.len() implies 0 <= #[trigger] before[n]
                < peers.len() && whole[n] == peers[before[n]].entry by {
                assert(rest[before[n]] == peers[before[n]]);
            }
            before
        }
    }
}

/// Whether a peripheral comes in anew does not depend on those behind it.
proof fn lemma_seed_at(s: ImpState, peers: Seq<PeerEntry>, i: int)
    requires
        0 <= i < peers.len() - 1,
    ensures
        seed_at(s, peers, i) == seed_at(s, peers.drop_last(), i),
{
    let rest = peers.drop_last();
    assert(rest[i] == peers[i]);
    if seed_at(s, rest, i) {
        assert forall|j: int| 0 <= j < i implies (#[trigger] peers[j]).entry.addr
            != peers[i].entry.addr by {
            assert(rest[j] == peers[j]);
        }
    }
    if seed_at(s, peers, i) {
        assert forall|j: int| 0 <= j < i implies (#[trigger] rest[j]).entry.addr
            != rest[i].entry.addr by {
            assert(rest[j] == peers[j]);
        }
    }
}

/// The last peripheral comes in anew exactly where its address is neither blank nor remembered
/// when all others have been gone through.
proof fn lemma_last_seed(s: ImpState, peers: Seq<PeerEntry>)
    requires
        peers.len() > 0,
    ensures
        seed_at(s, peers, peers.len() - 1) <==> dedup_key(peers.last().entry.addr).len() > 0
            && !seed(s, peers.drop_last()).0.scanned.contains_key(peers.last().entry.addr),
    decreases peers.len(), 0int,
{
    let rest = peers.drop_last();
    let last = peers.len() - 1;
    let peer = peers.last();
    let before = seed(s, rest).0;
    assert(peers[last] == peer);
    law_every_connected_peripheral_is_reported(s, rest);
    if dedup_key(peer.entry.addr).len() > 0 && !before.scanned.contains_key(peer.entry.addr) {
        assert forall|j: int| 0 <= j < last implies (#[trigger] peers[j]).entry.addr
            != peer.entry.addr by {
            assert(rest[j] == peers[j]);
            if rest[j].entry.addr == peer.entry.addr {
                lemma_seed_of_an_address(s, rest, j);
            }
        }
        if s.scanned.contains_key(peer.entry.addr) {
            lemma_seed_keeps(s, rest, peer.entry.addr);
        }
    }
    if seed_at(s, peers, last) && before.scanned.contains_key(peer.entry.addr) {
        assert(!same_under(before.scanned, s.scanned, peer.entry.addr));
        let i = choose|i: int|
            0 <= i < rest.len() && #[trigger] seed_at(s, rest, i) && rest[i].entry.addr
                == peer.entry.addr;
        assert(rest[i] == peers[i]);
    }
}

// ---- What starting tells the driver ----

/// Whether a step was answered on the way in the manner of an event.
pub open spec fn start_saw(
    s: ImpState,
    step: StartScanView,
    replies: Seq<ReplyView>,
    event: spec_fn(StartScanView, ReplyView) -> bool,
) -> bool
    decreases replies.len(),
{
    replies.len() > 0 && {
        ||| start_saw(s, step, replies.drop_last(), event)
        ||| event(start_scan_run(s, step, replies.drop_last()).1, replies.last())
    }
}

/// This step was due.
pub open spec fn start_due(step: StartScanView) -> spec_fn(StartScanView, ReplyView) -> bool {
    |due: StartScanView, reply: ReplyView| due == step
}

/// The lookup of the classic transport was answered so.
pub open spec fn classic_found(yes: bool) -> spec_fn(StartScanView, ReplyView) -> bool {
    |due: StartScanView, reply: ReplyView|
        (due is SppLookUpApp || due is BleLookUpApp) && reply == ReplyView::Flag(yes)
}

/// The classic transport was told to scan, and does so or not.
pub open spec fn classic_scans(yes: bool) -> spec_fn(StartScanView, ReplyView) -> bool {
    |due: StartScanView, reply: ReplyView| due is SppStart && reply == ReplyView::Flag(yes)
}

/// Starting a classic scan where none is under way spawns the scan of the new session, then has
/// the transport scan, and succeeds exactly where it does; it fails exactly where the transport is
/// missing or does not scan. Where one is under way, it succeeds exactly where the transport is at
/// hand.
pub proof fn law_classic_start(s: ImpState, replies: Seq<ReplyView>)
    requires
        s.connect_type == ConnectType::SPP,
    ensures
        ({
            let (begun, first) = start_scan_begin(s);
            let due = start_scan_run(begun, first, replies).1;
            let missing = start_saw(begun, first, replies, classic_found(false));
            let refused = start_saw(begun, first, replies, classic_scans(false));
            let spawned = start_saw(
                begun,
                first,
                replies,
                start_due(StartScan::SppSpawn { id: next_id(s.scan_seq) }),
            );
            &&& (due matches StartScan::Finished(Err(_))) <==> missing || refused
            &&& s.session is None ==> {
                &&& (due matches StartScan::Finished(Ok(_))) <==> start_saw(
                    begun,
                    first,
                    replies,
                    classic_scans(true),
                )
                &&& due is SppStart || (due matches StartScan::Finished(Ok(_))) ==> spawned
            }
            &&& s.session is Some ==> {
                &&& (due matches StartScan::Finished(Ok(_))) <==> start_saw(
                    begun,
                    first,
                    replies,
                    classic_found(true),
                )
                &&& !(due is SppSpawn) && !(due is SppStart)
            }
        }),
{
    lemma_classic_start_history(s, replies);
}

proof fn lemma_classic_start_history(s: ImpState, replies: Seq<ReplyView>)
    requires
        s.connect_type == ConnectType::SPP,
    ensures
        ({
            let (begun, first) = start_scan_begin(s);
            let (after, due) = start_scan_run(begun, first, replies);
            let found = start_saw(begun, first, replies, classic_found(true));
            let missing = start_saw(begun, first, replies, classic_found(false));
            let scans = start_saw(begun, first, replies, classic_scans(true));
            let refused = start_saw(begun, first, replies, classic_scans(false));
            let spawned = start_saw(
                begun,
                first,
                replies,
                start_due(StartScan::SppSpawn { id: next_id(s.scan_seq) }),
            );
            match due {
                StartScan::SppLookUpApp => after == s && !found && !missing && !scans && !refused,
                StartScan::SppSpawn { id } => s.session is None && id == next_id(s.scan_seq)
                    && found && !missing && !scans && !refused,
                StartScan::SppStart => s.session is None && spawned && found && !missing && !scans
                    && !refused,
                StartScan::Finished(Ok(_)) => found && !missing && !refused && (s.session is None
                    ==> spawned && scans),
                StartScan::Finished(Err(_)) => !scans && (missing || refused) && (s.session is Some
                    ==> !found),
                _ => false,
            }
        }),
    decreases replies.len(),
{
    if replies.len() > 0 {
        lemma_classic_start_history(s, replies.drop_last());
    }
}

/// The search for the radio has come to an end without it.
pub open spec fn start_radio(yes: bool) -> spec_fn(StartScanView, ReplyView) -> bool {
    |due: StartScanView, reply: ReplyView|
        due matches StartScan::BleAdapter { step } && if yes {
            (step is LookUp || step is LookUpAgain) && reply == ReplyView::Flag(true)
        } else {
            (step is Open || step is AwaitAvailable || step is LookUpAgain) && reply
                == ReplyView::Flag(false)
        }
}

/// The peripherals that are connected to the system were listed, or could not be.
pub open spec fn start_queried() -> spec_fn(StartScanView, ReplyView) -> bool {
    |due: StartScanView, reply: ReplyView| due is BleQueryConnected && reply is Peers
}

/// Starting a low-energy scan first tells the scan that it replaces to stop, and waits for it, and
/// for no other. It then obtains the radio, and fails exactly where it cannot. On Linux, and only
/// there, it has the classic transport stop wherever that is at hand; on iOS, and only there, it
/// asks for the peripherals that are connected. When it has succeeded, the scan of the new session
/// was spawned.
pub proof fn law_low_energy_start(s: ImpState, replies: Seq<ReplyView>)
    requires
        s.connect_type == ConnectType::BLE,
        s.platform != Platform::Android,
    ensures
        ({
            let (begun, first) = start_scan_begin(s);
            let due = start_scan_run(begun, first, replies).1;
            let saw = |event: spec_fn(StartScanView, ReplyView) -> bool|
                start_saw(begun, first, replies, event);
            let spawning = due is BleSpawn || (due matches StartScan::Finished(Ok(_)));
            &&& due matches StartScan::BleCancel { id } ==> s.session == Some(
                ScanSession::Ble { id },
            )
            &&& due matches StartScan::BleAwait { id } ==> s.session == Some(
                ScanSession::Ble { id },
            )
            &&& s.session matches Some(ScanSession::Ble { id }) ==> (!(due is BleCancel) && !(due
                is BleAwait) ==> saw(start_due(StartScan::BleCancel { id })) && saw(
                start_due(StartScan::BleAwait { id }),
            ))
            &&& (due matches StartScan::Finished(Err(_))) <==> saw(start_radio(false))
            &&& spawning ==> saw(start_radio(true))
            &&& s.platform == Platform::Linux && spawning ==> saw(classic_found(false)) || saw(
                start_due(StartScan::BleStopClassic),
            )
            &&& due is BleLookUpApp || due is BleStopClassic ==> s.platform == Platform::Linux
            &&& due is BleStopClassic ==> saw(classic_found(true))
            &&& s.platform == Platform::Ios && spawning ==> saw(start_queried())
            &&& due is BleQueryConnected || due is BleReport ==> s.platform == Platform::Ios
            &&& due matches StartScan::BleSpawn { id } ==> id == next_id(s.scan_seq)
            &&& (due matches StartScan::Finished(Ok(_))) <==> saw(
                start_due(StartScan::BleSpawn { id: next_id(s.scan_seq) }),
            )
        }),
{
    lemma_low_energy_start_history(s, replies);
}

proof fn lemma_low_energy_start_history(s: ImpState, replies: Seq<ReplyView>)
    requires
        s.connect_type == ConnectType::BLE,
        s.platform != Platform::Android,
    ensures
        ({
            let (begun, first) = start_scan_begin(s);
            let (after, due) = start_scan_run(begun, first, replies);
            let waited = s.session matches Some(ScanSession::Ble { id }) ==> start_saw(
                begun,
                first,
                replies,
                start_due(StartScan::BleCancel { id }),
            ) && start_saw(begun, first, replies, start_due(StartScan::BleAwait { id }));
            let radio = start_saw(begun, first, replies, start_radio(true));
            let lost = start_saw(begun, first, replies, start_radio(false));
            let freed = s.platform == Platform::Linux ==> start_saw(
                begun,
                first,
                replies,
                classic_found(false),
            ) || start_saw(begun, first, replies, start_due(StartScan::BleStopClassic));
            let queried = s.platform == Platform::Ios ==> start_saw(
                begun,
                first,
                replies,
                start_queried(),
            );
            let fits = after.platform == s.platform && after.connect_type == s.connect_type;
            &&& !(due matches StartScan::Finished(Ok(_))) ==> !start_saw(
                begun,
                first,
                replies,
                start_due(StartScan::BleSpawn { id: next_id(s.scan_seq) }),
            )
            &&& match due {
                StartScan::BleCancel { id } => fits && s.session == Some(ScanSession::Ble { id })
                    && !lost && after.scan_seq == s.scan_seq,
                StartScan::BleAwait { id } => fits && s.session == Some(ScanSession::Ble { id })
                    && start_saw(
                    begun,
                    first,
                    replies,
                    start_due(StartScan::BleCancel { id }),
                ) && !lost && after.scan_seq == s.scan_seq,
                StartScan::BleAdapter { step } => fits && waited && !lost && !(step is Finished)
                    && after.scan_seq == s.scan_seq,
                StartScan::BleLookUpApp => fits && waited && radio && !lost && s.platform
                    == Platform::Linux && after.scan_seq == s.scan_seq,
                StartScan::BleStopClassic => fits && waited && radio && !lost && s.platform
                    == Platform::Linux && start_saw(begun, first, replies, classic_found(true))
                    && after.scan_seq == s.scan_seq,
                StartScan::BleQueryConnected => fits && waited && radio && !lost && freed
                    && s.platform == Platform::Ios && after.scan_seq == s.scan_seq,
                StartScan::BleReport { devices: _ } => fits && waited && radio && !lost && freed
                    && queried && s.platform == Platform::Ios && after.scan_seq == s.scan_seq,
                StartScan::BleSpawn { id } => fits && waited && radio && !lost && freed && queried
                    && id == next_id(s.scan_seq),
                StartScan::Finished(Ok(_)) => waited && radio && !lost && freed && queried
                    && start_saw(
                    begun,
                    first,
                    replies,
                    start_due(StartScan::BleSpawn { id: next_id(s.scan_seq) }),
                ),
                StartScan::Finished(Err(_)) => waited && lost,
                _ => false,
            }
        }),
    decreases replies.len(),
{
    if replies.len() > 0 {
        lemma_low_energy_start_history(s, replies.drop_last());
        let (begun, first) = start_scan_begin(s);
        let (before, due) = start_scan_run(begun, first, replies.drop_last());
        if let (StartScan::BleQueryConnected, ReplyView::Peers(Some(peers))) = (due, replies.last()) {
            law_seeds_are_new(before, peers);
        }
    }
}

/// The system has listed these peripherals.
pub open spec fn start_listed(peers: Seq<PeerEntry>) -> spec_fn(StartScanView, ReplyView) -> bool {
    |due: StartScanView, reply: ReplyView|
        due is BleQueryConnected && reply == ReplyView::Peers(Some(peers))
}

/// Nothing is remembered and there are no results.
pub open spec fn starts_empty(s: ImpState) -> bool {
    &&& s.results.len() == 0
    &&& forall|addr: Seq<char>| !#[trigger] s.scanned.contains_key(addr)
}

/// The peripheral at position `i` has an address that is not blank, and none before it has the
/// same one.
pub open spec fn first_address_at(peers: Seq<PeerEntry>, i: int) -> bool {
    &&& dedup_key(peers[i].entry.addr).len() > 0
    &&& forall|j: int| 0 <= j < i ==> (#[trigger] peers[j]).entry.addr != peers[i].entry.addr
}

/// The results are the entries of the peripherals at the given positions, in order, and those are
/// exactly the first ones with an address that is not blank. Just these are remembered, each under
/// its address as the very device.
pub open spec fn starts_with(s: ImpState, peers: Seq<PeerEntry>, positions: Seq<int>) -> bool {
    &&& positions.len() == s.results.len()
    &&& forall|n: int|
        0 <= n < s.results.len() ==> 0 <= #[trigger] positions[n] < peers.len() && s.results[n]
            == peers[positions[n]].entry && s.scanned.contains_key(s.results[n].addr)
            && s.scanned[s.results[n].addr] == peers[positions[n]].device
    &&& forall|n: int, m: int|
        0 <= n < m < s.results.len() ==> #[trigger] positions[n] < #[trigger] positions[m]
    &&& forall|i: int|
        0 <= i < peers.len() ==> (#[trigger] positions.contains(i) <==> first_address_at(peers, i))
    &&& forall|addr: Seq<char>| #[trigger]
        s.scanned.contains_key(addr) ==> has_address(s.results, addr)
}

/// A low-energy scan starts with nothing that an earlier scan has found. On iOS it starts with the
/// peripherals that the system has listed as connected, each address once, and these are what
/// starting reports.
pub proof fn law_what_a_low_energy_scan_starts_with(
    s: ImpState,
    replies: Seq<ReplyView>,
    peers: Seq<PeerEntry>,
)
    requires
        s.connect_type == ConnectType::BLE,
        s.platform != Platform::Android,
    ensures
        ({
            let (begun, first) = start_scan_begin(s);
            let (after, due) = start_scan_run(begun, first, replies);
            let listed = start_saw(begun, first, replies, start_listed(peers));
            let started = due is BleSpawn || (due matches StartScan::Finished(Ok(_)));
            &&& s.platform != Platform::Ios && started ==> starts_empty(after)
            &&& due is BleQueryConnected ==> starts_empty(after)
            &&& due is BleReport ==> start_saw(begun, first, replies, start_queried())
            &&& listed ==> exists|positions: Seq<int>| #[trigger]
                starts_with(after, peers, positions)
            &&& due matches StartScan::BleReport { devices } ==> devices == after.results
        }),
{
    lemma_starts_with(s, replies, peers);
    lemma_low_energy_start_history(s, replies);
}

proof fn lemma_starts_with(s: ImpState, replies: Seq<ReplyView>, peers: Seq<PeerEntry>)
    requires
        s.connect_type == ConnectType::BLE,
        s.platform != Platform::Android,
    ensures
        ({
            let (begun, first) = start_scan_begin(s);
            let (after, due) = start_scan_run(begun, first, replies);
            let listed = start_saw(begun, first, replies, start_listed(peers));
            &&& after.platform == s.platform
            &&& listed ==> (due is BleReport || due is BleSpawn || (due
                matches StartScan::Finished(Ok(_)))) && exists|positions: Seq<int>| #[trigger]
                starts_with(after, peers, positions)
            &&& match due {
                StartScan::BleQueryConnected => starts_empty(after) && s.platform == Platform::Ios,
                StartScan::BleReport { devices } => devices == after.results && s.platform
                    == Platform::Ios,
                StartScan::BleSpawn { id: _ } => s.platform != Platform::Ios ==> starts_empty(after),
                StartScan::Finished(Ok(_)) => s.platform != Platform::Ios ==> starts_empty(after),
                StartScan::SppLookUpApp => false,
                StartScan::SppSpawn { id: _ } => false,
                StartScan::SppStart => false,
                _ => true,
            }
        }),
    decreases replies.len(),
{
    if replies.len() > 0 {
        lemma_starts_with(s, replies.drop_last(), peers);
        let (begun, first) = start_scan_begin(s);
        let (before, due) = start_scan_run(begun, first, replies.drop_last());
        let (after, next) = start_scan_run(begun, first, replies);
        match (due, replies.last()) {
            (StartScan::BleQueryConnected, ReplyView::Peers(Some(list))) => {
                law_seeds_are_new(before, list);
                law_every_connected_peripheral_is_reported(before, list);
                let positions = lemma_seed_positions(before, list);
                let reported = seed(before, list).1;
                assert(after.results =~= reported);
                assert forall|i: int| 0 <= i < list.len() implies #[trigger] seed_at(before, list, i)
                    == first_address_at(list, i) by {}
                assert forall|n: int| 0 <= n < after.results.len() implies 0
                    <= #[trigger] positions[n] < list.len() && after.results[n]
                    == list[positions[n]].entry && after.scanned.contains_key(after.results[n].addr)
                    && after.scanned[after.results[n].addr] == list[positions[n]].device by {
                    let i = positions[n];
                    assert(positions.contains(i));
                    assert(seed_at(before, list, i));
                }
                assert forall|i: int| 0 <= i < list.len() implies (#[trigger] positions.contains(i)
                    <==> first_address_at(list, i)) by {
                    assert(seed_at(before, list, i) == first_address_at(list, i));
                }
                assert forall|addr: Seq<char>| #[trigger]
                    after.scanned.contains_key(addr) implies has_address(after.results, addr) by {
                    assert(!same_under(after.scanned, before.scanned, addr));
                    let i = choose|i: int|
                        0 <= i < list.len() && #[trigger] seed_at(before, list, i)
                            && list[i].entry.addr == addr;
                    assert(positions.contains(i));
                    let n = choose|n: int| 0 <= n < positions.len() && positions[n] == i;
                    assert(after.results[n].addr == addr);
                }
                assert(starts_with(after, list, positions));
            },
            _ => {
                if start_saw(begun, first, replies.drop_last(), start_listed(peers)) {
                    let positions = choose|positions: Seq<int>| #[trigger]
                        starts_with(before, peers, positions);
                    assert(starts_with(after, peers, positions));
                }
            },
        }
    }
}

// ---- What stopping tells the driver and hands over ----

/// Whether a step was answered on the way in the manner of an event.
pub open spec fn stop_saw(
    s: ImpState,
    step: StopScanView,
    replies: Seq<ReplyView>,
    event: spec_fn(StopScanView, ReplyView) -> bool,
) -> bool
    decreases replies.len(),
{
    replies.len() > 0 && {
        ||| stop_saw(s, step, replies.drop_last(), event)
        ||| event(stop_scan_run(s, step, replies.drop_last()).1, replies.last())
    }
}

/// This step was due.
pub open spec fn stop_due(step: StopScanView) -> spec_fn(StopScanView, ReplyView) -> bool {
    |due: StopScanView, reply: ReplyView| due == step
}

/// Stopping ends the scan that is under way and no other: a classic one is aborted, a low-energy
/// one is told to stop and then waited for, except on Android. It does not finish before.
pub proof fn law_stopping_ends_the_scan(s: ImpState, replies: Seq<ReplyView>)
    ensures
        ({
            let (begun, first) = stop_scan_begin(s);
            let due = stop_scan_run(begun, first, replies).1;
            let saw = |event: spec_fn(StopScanView, ReplyView) -> bool|
                stop_saw(begun, first, replies, event);
            &&& due matches StopScan::SppAbort { id } ==> s.session == Some(ScanSession::Spp { id })
            &&& due matches StopScan::BleCancel { id } ==> s.session == Some(ScanSession::Ble { id })
            &&& due matches StopScan::BleAwait { id } ==> s.session == Some(ScanSession::Ble { id })
            &&& due is Finished ==> match s.session {
                None => true,
                Some(ScanSession::Spp { id }) => saw(stop_due(StopScan::SppAbort { id })),
                Some(ScanSession::Ble { id }) => s.platform == Platform::Android || (saw(
                    stop_due(StopScan::BleCancel { id }),
                ) && saw(stop_due(StopScan::BleAwait { id }))),
            }
        }),
{
    lemma_stopping(s, replies);
}

proof fn lemma_stopping(s: ImpState, replies: Seq<ReplyView>)
    ensures
        ({
            let (begun, first) = stop_scan_begin(s);
            let (after, due) = stop_scan_run(begun, first, replies);
            let halted = match s.session {
                None => true,
                Some(ScanSession::Spp { id }) => stop_saw(
                    begun,
                    first,
                    replies,
                    stop_due(StopScan::SppAbort { id }),
                ),
                Some(ScanSession::Ble { id }) => s.platform == Platform::Android || (stop_saw(
                    begun,
                    first,
                    replies,
                    stop_due(StopScan::BleCancel { id }),
                ) && stop_saw(begun, first, replies, stop_due(StopScan::BleAwait { id }))),
            };
            match due {
                StopScan::SppAbort { id } => s.session == Some(ScanSession::Spp { id }),
                StopScan::BleCancel { id } => s.session == Some(ScanSession::Ble { id }),
                StopScan::BleAwait { id } => s.session == Some(ScanSession::Ble { id }) && stop_saw(
                    begun,
                    first,
                    replies,
                    stop_due(StopScan::BleCancel { id }),
                ),
                _ => halted,
            }
        }),
    decreases replies.len(),
{
    if replies.len() > 0 {
        lemma_stopping(s, replies.drop_last());
    }
}

/// The classic transport has listed these devices.
pub open spec fn classic_listed(list: Seq<DeviceEntry>) -> spec_fn(StopScanView, ReplyView) -> bool {
    |due: StopScanView, reply: ReplyView|
        due is SppGetDevices && reply == ReplyView::SppDevices(Some(list))
}

/// The classic transport is missing, does not stop, or cannot list its devices.
pub open spec fn classic_failed() -> spec_fn(StopScanView, ReplyView) -> bool {
    |due: StopScanView, reply: ReplyView|
        {
            ||| (due is SppLookUpApp || due is SppStop) && reply == ReplyView::Flag(false)
            ||| due is SppGetDevices && reply == ReplyView::SppDevices(None)
        }
}

/// The list holds exactly the devices of another, each once: every one whose key is not blank and
/// turns up there for the first time, in order.
pub open spec fn each_once(listed: Seq<DeviceEntry>, list: Seq<DeviceEntry>) -> bool {
    exists|positions: Seq<int>| #[trigger] picks(Set::empty(), listed, list, positions)
}

/// What stopping a classic scan hands over is exactly what the transport lists, each device once:
/// every device of the list whose key is not blank and turns up there for the first time, in
/// order. Stopping fails exactly where the transport fails.
pub proof fn law_classic_stop_hands_over_every_device(
    s: ImpState,
    listed: Seq<DeviceEntry>,
    replies: Seq<ReplyView>,
)
    requires
        s.connect_type == ConnectType::SPP,
    ensures
        ({
            let (begun, first) = stop_scan_begin(s);
            let due = stop_scan_run(begun, first, replies).1;
            &&& stop_saw(begun, first, replies, classic_listed(listed)) ==> (due
                matches StopScan::Finished(Ok(list)) && each_once(listed, list))
            &&& due matches StopScan::Finished(Ok(list)) ==> exists|shown: Seq<DeviceEntry>|
                #[trigger] stop_saw(begun, first, replies, classic_listed(shown)) && each_once(
                    shown,
                    list,
                )
            &&& (due matches StopScan::Finished(Err(_))) <==> stop_saw(
                begun,
                first,
                replies,
                classic_failed(),
            )
        }),
{
    lemma_classic_handing_over(s, listed, replies);
}

proof fn lemma_classic_handing_over(
    s: ImpState,
    listed: Seq<DeviceEntry>,
    replies: Seq<ReplyView>,
)
    requires
        s.connect_type == ConnectType::SPP,
    ensures
        ({
            let (begun, first) = stop_scan_begin(s);
            let (after, due) = stop_scan_run(begun, first, replies);
            let shown = stop_saw(begun, first, replies, classic_listed(listed));
            let failed = stop_saw(begun, first, replies, classic_failed());
            after.connect_type == s.connect_type && match due {
                StopScan::Finished(Ok(list)) => {
                    &&& !failed
                    &&& shown ==> each_once(listed, list)
                    &&& exists|shown: Seq<DeviceEntry>| #[trigger]
                        stop_saw(begun, first, replies, classic_listed(shown)) && each_once(
                            shown,
                            list,
                        )
                },
                StopScan::Finished(Err(_)) => failed && !shown,
                _ => !failed && !shown,
            }
        }),
    decreases replies.len(),
{
    if replies.len() > 0 {
        lemma_classic_handing_over(s, listed, replies.drop_last());
        let (begun, first) = stop_scan_begin(s);
        let due = stop_scan_run(begun, first, replies.drop_last()).1;
        if let (StopScan::SppGetDevices, ReplyView::SppDevices(Some(list))) = (due, replies.last()) {
            law_first_sightings_are_picked(Set::empty(), list);
            assert(stop_saw(begun, first, replies, classic_listed(list)));
        }
        if let StopScan::Finished(Ok(list)) = due {
            let shown = choose|shown: Seq<DeviceEntry>| #[trigger]
                stop_saw(begun, first, replies.drop_last(), classic_listed(shown)) && each_once(
                    shown,
                    list,
                );
            assert(stop_saw(begun, first, replies, classic_listed(shown)));
        }
    }
}

// ---- From a scan to a connection ----

/// What a low-energy scan has reported can be connected to: when the scan has been stopped, and
/// its caller then connects to the address of a device that was reported, every step about a
/// device is about the very peripheral that was heard with that report, and so is the connection
/// that is made.
pub proof fn law_a_reported_device_is_the_one_connected(
    s: ImpState,
    task: TaskView,
    scanning: Seq<ReplyView>,
    stopping: Seq<ReplyView>,
    n: int,
    connecting: Seq<ReplyView>,
)
    requires
        s.connect_type == ConnectType::BLE,
        s.platform != Platform::Android,
        0 <= n < ble_reported(s, task, BleScan::Open { retry: 0 }, scanning).len(),
    ensures
        ({
            let start = BleScan::Open { retry: 0 };
            let peers = heard_peers(s, task, start, scanning);
            let entry = ble_reported(s, task, start, scanning)[n];
            let scanned = ble_scan_run(s, task, start, scanning).0;
            let (begun, first) = stop_scan_begin(scanned);
            let stopped = stop_scan_run(begun, first, stopping).0;
            let (after, due) = connect_run(stopped, connect_begin(stopped, entry.addr), connecting);
            &&& device_of(due) matches Some(device) ==> heard_with(peers, entry, device)
            &&& due matches Connect::Finished(Ok(_)) ==> (after.device matches Some(device)
                && heard_with(peers, entry, device))
            &&& !(due is BleQueryConnected) && !(due is BleOpenScan)
        }),
{
    let start = BleScan::Open { retry: 0 };
    let entry = ble_reported(s, task, start, scanning)[n];
    let scanned = ble_scan_run(s, task, start, scanning).0;
    let (begun, first) = stop_scan_begin(scanned);
    let stopped = stop_scan_run(begun, first, stopping).0;
    law_scan_remembers_the_devices_it_reports(s, task, scanning);
    let peers = heard_peers(s, task, start, scanning);
    assert(remembers(scanned.scanned, peers, entry));
    lemma_scan_keeps_the_transport(s, task, scanning);
    lemma_stop_keeps_what_is_remembered(scanned, stopping);
    law_remembered_device_is_the_one_connected(stopped, entry.addr, connecting);
    law_remembered_device_is_not_searched_for(stopped, entry.addr, connecting);
}

/// Some peripheral was heard with this entry, first with its key, and is this device.
pub open spec fn heard_with(
    peers: Seq<PeerEntry>,
    entry: DeviceEntry,
    device: BluestDevice,
) -> bool {
    exists|j: int| #[trigger] heard_first_at(peers, entry, device, j)
}

proof fn lemma_scan_keeps_the_transport(s: ImpState, task: TaskView, replies: Seq<ReplyView>)
    ensures
        ble_scan_run(s, task, BleScan::Open { retry: 0 }, replies).0.connect_type
            == s.connect_type,
        ble_scan_run(s, task, BleScan::Open { retry: 0 }, replies).0.platform == s.platform,
    decreases replies.len(),
{
    if replies.len() > 0 {
        lemma_scan_keeps_the_transport(s, task, replies.drop_last());
    }
}

proof fn lemma_stop_keeps_what_is_remembered(s: ImpState, replies: Seq<ReplyView>)
    ensures
        ({
            let (begun, first) = stop_scan_begin(s);
            let after = stop_scan_run(begun, first, replies).0;
            after.connect_type == s.connect_type && after.platform == s.platform && after.scanned
                == s.scanned
        }),
    decreases replies.len(),
{
    if replies.len() > 0 {
        lemma_stop_keeps_what_is_remembered(s, replies.drop_last());
    }
}

} // verus!
