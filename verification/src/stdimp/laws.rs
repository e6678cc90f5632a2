//! What holds of connecting, sending, subscribing and disconnecting as a whole.
use vstd::prelude::*;

#[allow(unused_imports)]
use crate::address::{dedup_key, law_key_ignores_case, law_key_is_its_own_key};
#[allow(unused_imports)]
use crate::ble::{uuid_has, BluestDevice, BluestService, Characteristic, Uuid};
#[allow(unused_imports)]
use crate::btinterface::{ConnectError, ConnectType, SendError, SubscribeError};
#[allow(unused_imports)]
use crate::driver::{Listener, PeerEntry, Platform, ReplyView};
#[allow(unused_imports)]
use crate::stdimp::adapter::{adapter_next, AdapterStep};
#[allow(unused_imports)]
use crate::stdimp::connect::{
    connect_begin, connect_extracted, connect_next, names_device, probe, Connect, ConnectView,
    CONNECT_POLL_LIMIT,
};
#[allow(unused_imports)]
use crate::stdimp::disconnect::{disconnect_begin, disconnect_next, DisconnectStep};
#[allow(unused_imports)]
use crate::stdimp::discovery::{
    bundle_with, cache_with, empty_bundle, extract_from, extract_next, find_chara, is_xiaomi,
    last_in_role, lookup_begin, lookup_next, next_xiaomi, role_of, ExtractStep, Lookup, LookupView,
    Role, BLE_UUID_KEYWORD_XIAOMI_RECV, BLE_UUID_KEYWORD_XIAOMI_SENT,
};
#[allow(unused_imports)]
use crate::stdimp::listener::listener_begin;
#[allow(unused_imports)]
use crate::stdimp::scan::{ble_scan_next, BleScanView, TaskView};
#[allow(unused_imports)]
use crate::stdimp::send::{send_begin, send_next, send_target, SendView, Sending};
#[allow(unused_imports)]
use crate::stdimp::stop_scan::{stop_scan_begin, stop_scan_next, StopScanView};
#[allow(unused_imports)]
use crate::stdimp::subscribe::{
    subscribe_begin, subscribe_next, subscribe_target, Subscribe, SubscribeView,
};
#[allow(unused_imports)]
use crate::stdimp::{cleared, fresh_state, BleCharacteristicBundle, ImpState};
#[allow(unused_imports)]
use crate::text::equal_ignoring_case;

verus! {

// ---- What every state keeps ----

/// Every characteristic is remembered under its own identifier, the services are known exactly
/// while a device is, and the default characteristics cover both directions.
pub open spec fn well_formed(s: ImpState) -> bool {
    &&& forall|k: u128| #[trigger] s.cache.contains_key(k) ==> s.cache[k].uuid.0 == k
    &&& s.device is Some <==> s.services is Some
    &&& s.bundle is Some ==> s.bundle->0.recv is Some && s.bundle->0.sent is Some
}

/// A transport starts out well formed.
pub proof fn law_fresh_state_is_well_formed(connect_type: ConnectType, platform: Platform)
    ensures
        well_formed(fresh_state(connect_type, platform)),
{
}

proof fn lemma_find_chara(chars: Seq<Characteristic>, uuid: Uuid)
    ensures
        match find_chara(chars, uuid) {
            Some(c) => c.uuid == uuid && chars.contains(c),
            None => forall|i: int| 0 <= i < chars.len() ==> (#[trigger] chars[i]).uuid != uuid,
        },
    decreases chars.len(),
{
    if chars.len() > 0 && chars.first().uuid != uuid {
        let rest = chars.drop_first();
        lemma_find_chara(rest, uuid);
        match find_chara(rest, uuid) {
            Some(c) => {
                let i = choose|i: int| 0 <= i < rest.len() && rest[i] == c;
                assert(chars[i + 1] == c);
            },
            None => {
                assert forall|i: int| 0 <= i < chars.len() implies (#[trigger] chars[i]).uuid
                    != uuid by {
                    if i > 0 {
                        assert(chars[i] == rest[i - 1]);
                    }
                }
            },
        }
    } else if chars.len() > 0 {
        assert(chars[0] == chars.first());
    }
}

proof fn lemma_cache_with(cache: Map<u128, Characteristic>, chars: Seq<Characteristic>)
    requires
        forall|k: u128| #[trigger] cache.contains_key(k) ==> cache[k].uuid.0 == k,
    ensures
        forall|k: u128| #[trigger]
            cache_with(cache, chars).contains_key(k) ==> cache_with(cache, chars)[k].uuid.0 == k,
        forall|k: u128| #[trigger] cache.contains_key(k) ==> cache_with(cache, chars).contains_key(k),
        forall|i: int|
            0 <= i < chars.len() ==> cache_with(cache, chars).contains_key(
                (#[trigger] chars[i]).uuid.0,
            ),
    decreases chars.len(),
{
    if chars.len() > 0 {
        let rest = chars.drop_last();
        lemma_cache_with(cache, rest);
        let before = cache_with(cache, rest);
        assert forall|k: u128| #[trigger] cache_with(cache, chars).contains_key(k) implies cache_with(
            cache,
            chars,
        )[k].uuid.0 == k by {
            if k != chars.last().uuid.0 {
                assert(before.contains_key(k));
            }
        }
        assert forall|i: int| 0 <= i < chars.len() implies cache_with(cache, chars).contains_key(
            (#[trigger] chars[i]).uuid.0,
        ) by {
            if i < rest.len() {
                assert(rest[i] == chars[i]);
            }
        }
    }
}

proof fn lemma_last_in_role(chars: Seq<Characteristic>, role: Role, before: Option<Uuid>)
    ensures
        last_in_role(chars, role, before) == before || exists|i: int|
            0 <= i < chars.len() && last_in_role(chars, role, before) == Some(
                (#[trigger] chars[i]).uuid,
            ) && role_of(chars[i].uuid) == role,
    decreases chars.len(),
{
    if chars.len() > 0 {
        let rest = chars.drop_last();
        lemma_last_in_role(rest, role, before);
        assert(chars.last() == chars[chars.len() - 1]);
        if last_in_role(chars, role, before) != before && role_of(chars.last().uuid) != role {
            let i = choose|i: int|
                0 <= i < rest.len() && last_in_role(rest, role, before) == Some(
                    (#[trigger] rest[i]).uuid,
                ) && role_of(rest[i].uuid) == role;
            assert(rest[i] == chars[i]);
        }
    }
}

/// Connecting keeps the state well formed, whatever the driver answers.
pub proof fn law_connect_keeps_well_formed(s: ImpState, step: ConnectView, reply: ReplyView)
    requires
        well_formed(s),
    ensures
        well_formed(connect_next(s, step, reply).0),
{
    if let Connect::BleDiscoverCharacteristics { device, services, index, bundle } = step {
        if let ReplyView::Characteristics(Some(list)) = reply {
            lemma_cache_with(s.cache, list);
        }
    }
}

/// Looking for a characteristic keeps the state well formed, whatever is listed.
pub proof fn law_lookup_keeps_well_formed(
    s: ImpState,
    step: LookupView,
    chars: Option<Seq<Characteristic>>,
)
    requires
        well_formed(s),
    ensures
        well_formed(lookup_next(s, step, chars).0),
{
    if let Lookup::Discover { uuid, services: _, index: _ } = step {
        if let Some(list) = chars {
            lemma_find_chara(list, uuid);
        }
    }
}

/// Extracting the default characteristics keeps the state well formed, whatever is listed.
pub proof fn law_extract_keeps_well_formed(
    s: ImpState,
    services: Seq<BluestService>,
    index: int,
    bundle: BleCharacteristicBundle,
    chars: Option<Seq<Characteristic>>,
)
    requires
        well_formed(s),
    ensures
        well_formed(extract_from(s, services, index, bundle).0),
        well_formed(extract_next(s, services, index, bundle, chars).0),
{
    if let Some(list) = chars {
        lemma_cache_with(s.cache, list);
    }
}

/// Sending keeps the state well formed, whatever the driver answers.
pub proof fn law_send_keeps_well_formed(s: ImpState, step: SendView, reply: ReplyView)
    requires
        well_formed(s),
    ensures
        well_formed(send_next(s, step, reply).0),
{
    if let Sending::BleDiscover { data, uuid, services, index } = step {
        if let ReplyView::Characteristics(Some(list)) = reply {
            lemma_find_chara(list, uuid);
        }
    }
}

/// Subscribing keeps the state well formed, whatever the driver answers.
pub proof fn law_subscribe_keeps_well_formed(s: ImpState, step: SubscribeView, reply: ReplyView)
    requires
        well_formed(s),
    ensures
        well_formed(subscribe_next(s, step, reply).0),
{
    if let ReplyView::Characteristics(Some(list)) = reply {
        if let Subscribe::BleDiscover { uuid, services, index } = step {
            lemma_find_chara(list, uuid);
        }
        if let Subscribe::BleDiscoverService { uuid, services, index } = step {
            lemma_find_chara(list, uuid);
        }
    }
}

/// Disconnecting keeps the state well formed, whatever the driver answers.
pub proof fn law_disconnect_keeps_well_formed(s: ImpState, step: DisconnectStep, reply: ReplyView)
    requires
        well_formed(s),
    ensures
        well_formed(disconnect_begin(s).0),
        well_formed(disconnect_next(s, step, reply).0),
{
}

// ---- What an operation leaves alone ----

/// Sending changes nothing but which characteristics are remembered.
pub proof fn law_send_changes_only_the_cache(s: ImpState, step: SendView, reply: ReplyView)
    ensures
        send_next(s, step, reply).0 == (ImpState { cache: send_next(s, step, reply).0.cache, ..s }),
{
}

/// Subscribing changes nothing but which characteristics are remembered.
pub proof fn law_subscribe_changes_only_the_cache(
    s: ImpState,
    step: SubscribeView,
    reply: ReplyView,
)
    ensures
        subscribe_next(s, step, reply).0 == (ImpState {
            cache: subscribe_next(s, step, reply).0.cache,
            ..s
        }),
{
}

/// Connecting leaves the scan, its results and the listener alone.
pub proof fn law_connect_leaves_the_scan_alone(s: ImpState, step: ConnectView, reply: ReplyView)
    ensures
        connect_next(s, step, reply).0.connect_type == s.connect_type,
        connect_next(s, step, reply).0.platform == s.platform,
        connect_next(s, step, reply).0.session == s.session,
        connect_next(s, step, reply).0.scan_seq == s.scan_seq,
        connect_next(s, step, reply).0.results == s.results,
        connect_next(s, step, reply).0.listener == s.listener,
{
}

// ---- Obtaining the radio ----

/// The step that is due after a sequence of answers.
pub open spec fn adapter_run(step: AdapterStep, answers: Seq<bool>) -> AdapterStep
    decreases answers.len(),
{
    if answers.len() == 0 {
        step
    } else {
        adapter_next(adapter_run(step, answers.drop_last()), answers.last())
    }
}

/// Obtaining the radio takes five answers at most, and fails in one way only.
pub proof fn law_adapter_is_obtained_in_five_steps(answers: Seq<bool>)
    requires
        answers.len() >= 5,
    ensures
        adapter_run(AdapterStep::LookUp, answers) matches AdapterStep::Finished(result) && (
        result matches Err(error) ==> error == ConnectError::DeviceNotFound),
    decreases answers.len(),
{
    if answers.len() > 5 {
        law_adapter_is_obtained_in_five_steps(answers.drop_last());
    } else {
        reveal_with_fuel(adapter_run, 6);
    }
}

// ---- Finding a characteristic ----

/// A characteristic that is found is the one that was looked for, and is at hand from then on.
pub proof fn law_found_characteristic_is_at_hand(
    s: ImpState,
    step: LookupView,
    uuid: Uuid,
    chars: Option<Seq<Characteristic>>,
)
    requires
        s.platform != Platform::Android,
        step matches Lookup::Discover { uuid: wanted, services: _, index: _ } && wanted == uuid,
        lookup_next(s, step, chars).1 matches Lookup::Finished(Ok(_)),
    ensures
        lookup_next(s, step, chars).1 matches Lookup::Finished(Ok(found)) && found.uuid == uuid,
        lookup_begin(lookup_next(s, step, chars).0, uuid) == lookup_next(s, step, chars).1,
{
    lemma_find_chara(chars->0, uuid);
}

/// The outcome of looking for a characteristic on the services from position `from` on, where
/// `answers` says what each service lists: the first service that cannot be asked or that has
/// the characteristic decides.
pub open spec fn lookup_outcome(
    uuid: Uuid,
    services: Seq<BluestService>,
    from: int,
    answers: spec_fn(BluestService) -> Option<Seq<Characteristic>>,
) -> Result<Characteristic, SubscribeError>
    decreases services.len() - from,
{
    if from >= services.len() {
        Err(SubscribeError::BleCharaNotFound)
    } else {
        match answers(services[from]) {
            None => Err(SubscribeError::Disconnected),
            Some(list) => match find_chara(list, uuid) {
                Some(found) => Ok(found),
                None => lookup_outcome(uuid, services, from + 1, answers),
            },
        }
    }
}

/// Looking for a characteristic, each listing answered by `answers`, until it is finished.
pub open spec fn lookup_to_end(
    s: ImpState,
    step: LookupView,
    answers: spec_fn(BluestService) -> Option<Seq<Characteristic>>,
) -> (ImpState, LookupView)
    decreases
            match step {
                Lookup::Discover { uuid: _, services, index } => services.len() - index,
                Lookup::Finished(_) => 0,
            },
        when step matches Lookup::Discover { uuid: _, services, index } ==> index < services.len()
        <= usize::MAX
{
    match step {
        Lookup::Discover { uuid: _, services, index } => {
            let (after, due) = lookup_next(s, step, answers(services[index as int]));
            lookup_to_end(after, due, answers)
        },
        Lookup::Finished(_) => (s, step),
    }
}

/// Looking for a characteristic goes through the services in order, until one cannot be asked or
/// has it.
pub proof fn law_lookup_goes_through_the_services(
    s: ImpState,
    uuid: Uuid,
    services: Seq<BluestService>,
    index: usize,
    answers: spec_fn(BluestService) -> Option<Seq<Characteristic>>,
)
    requires
        index < services.len() <= usize::MAX,
    ensures
        lookup_to_end(s, Lookup::Discover { uuid, services, index }, answers).1
            == Lookup::<Seq<BluestService>>::Finished(
            lookup_outcome(uuid, services, index as int, answers),
        ),
    decreases services.len() - index,
{
    if index + 1 < services.len() {
        law_lookup_goes_through_the_services(s, uuid, services, (index + 1) as usize, answers);
    }
    reveal_with_fuel(lookup_outcome, 2);
    reveal_with_fuel(lookup_to_end, 2);
}

// ---- Connecting ----

/// The state and the step that are due after a sequence of answers to a connecting.
pub open spec fn connect_run(s: ImpState, step: ConnectView, replies: Seq<ReplyView>) -> (
    ImpState,
    ConnectView,
)
    decreases replies.len(),
{
    if replies.len() == 0 {
        (s, step)
    } else {
        let (before, due) = connect_run(s, step, replies.drop_last());
        connect_next(before, due, replies.last())
    }
}

/// The characteristics of a bundle are remembered under their own identifiers.
pub open spec fn bundle_at_hand(cache: Map<u128, Characteristic>, bundle: BleCharacteristicBundle) -> bool {
    &&& bundle.recv matches Some(uuid) ==> cache.contains_key(uuid.0) && cache[uuid.0].uuid == uuid
    &&& bundle.sent matches Some(uuid) ==> cache.contains_key(uuid.0) && cache[uuid.0].uuid == uuid
    &&& bundle.service matches Some(uuid) ==> cache.contains_key(uuid.0) && cache[uuid.0].uuid
        == uuid
}

/// Each characteristic of a bundle has the role that it is put down for.
pub open spec fn bundle_in_roles(bundle: BleCharacteristicBundle) -> bool {
    &&& bundle.recv matches Some(uuid) ==> role_of(uuid) == Role::Recv
    &&& bundle.sent matches Some(uuid) ==> role_of(uuid) == Role::Sent
    &&& bundle.service matches Some(uuid) ==> role_of(uuid) == Role::Service
}

/// A low-energy connection over which data can flow both ways: a device and its services are
/// known, and the default characteristics of both directions are at hand and in their roles.
pub open spec fn ready(s: ImpState) -> bool {
    &&& s.device is Some
    &&& s.services is Some
    &&& s.bundle matches Some(bundle) && bundle.recv is Some && bundle.sent is Some
        && bundle_at_hand(s.cache, bundle) && bundle_in_roles(bundle)
}

/// What holds between the state and the step of a low-energy connecting: what was found so far
/// is at hand, and the connection stands once it is reported.
spec fn connect_holds(s: ImpState, step: ConnectView) -> bool {
    &&& forall|k: u128| #[trigger] s.cache.contains_key(k) ==> s.cache[k].uuid.0 == k
    &&& match step {
        Connect::SppLookUpApp { addr: _ } => false,
        Connect::SppConnect { addr: _ } => false,
        Connect::BleDiscoverCharacteristics { device: _, services: _, index: _, bundle } => {
            bundle_at_hand(s.cache, bundle) && bundle_in_roles(bundle)
        },
        Connect::BleInvokeListener { listener: _ } => ready(s),
        Connect::Finished(Ok(_)) => ready(s),
        _ => true,
    }
}

proof fn lemma_connect_holds(s: ImpState, step: ConnectView, reply: ReplyView)
    requires
        connect_holds(s, step),
    ensures
        connect_holds(connect_next(s, step, reply).0, connect_next(s, step, reply).1),
{
    if let Connect::BleDiscoverCharacteristics { device, services, index, bundle } = step {
        if let ReplyView::Characteristics(Some(list)) = reply {
            lemma_cache_with(s.cache, list);
            lemma_last_in_role(list, Role::Recv, bundle.recv);
            lemma_last_in_role(list, Role::Sent, bundle.sent);
            lemma_last_in_role(list, Role::Service, bundle.service);
            assert(bundle_at_hand(cache_with(s.cache, list), bundle_with(bundle, list)));
        }
    }
}

/// A low-energy connecting that succeeds leaves a connection over which data can flow both ways.
pub proof fn law_connected_means_ready(s: ImpState, addr: Seq<char>, replies: Seq<ReplyView>)
    requires
        well_formed(s),
        s.connect_type == ConnectType::BLE,
        connect_run(s, connect_begin(s, addr), replies).1 == Connect::<
            Seq<char>,
            Seq<BluestService>,
        >::Finished(Ok(())),
    ensures
        ready(connect_run(s, connect_begin(s, addr), replies).0),
{
    lemma_connect_run_holds(s, addr, replies);
}

proof fn lemma_connect_run_holds(s: ImpState, addr: Seq<char>, replies: Seq<ReplyView>)
    requires
        well_formed(s),
        s.connect_type == ConnectType::BLE,
    ensures
        connect_holds(
            connect_run(s, connect_begin(s, addr), replies).0,
            connect_run(s, connect_begin(s, addr), replies).1,
        ),
    decreases replies.len(),
{
    if replies.len() > 0 {
        lemma_connect_run_holds(s, addr, replies.drop_last());
        let (before, due) = connect_run(s, connect_begin(s, addr), replies.drop_last());
        lemma_connect_holds(before, due, replies.last());
    }
}

/// Over a connection that is ready, data is written to the default characteristic at once, and
/// subscribing is to the default characteristic at once: neither asks the device for anything
/// first. What is written to is marked for sending and never for receiving, what is subscribed
/// to is marked for receiving.
pub proof fn law_ready_needs_no_discovery(s: ImpState, data: Seq<u8>)
    requires
        ready(s),
        s.connect_type == ConnectType::BLE,
        s.platform != Platform::Android,
    ensures
        send_begin(s, data, None) matches Sending::BleWrite { chara, data: written } && written
            == data && Some(chara.uuid) == s.bundle->0.sent && uuid_has(
            chara.uuid,
            BLE_UUID_KEYWORD_XIAOMI_SENT@,
        ) && !uuid_has(chara.uuid, BLE_UUID_KEYWORD_XIAOMI_RECV@),
        subscribe_begin(s, None) matches Subscribe::BleNotify { chara } && Some(chara.uuid)
            == s.bundle->0.recv && uuid_has(chara.uuid, BLE_UUID_KEYWORD_XIAOMI_RECV@),
{
}

/// A connection that is ready stays so while data is sent or subscribed to.
pub proof fn law_ready_lasts(
    s: ImpState,
    sending: SendView,
    subscribing: SubscribeView,
    reply: ReplyView,
)
    requires
        ready(s),
    ensures
        ready(send_next(s, sending, reply).0),
        ready(subscribe_next(s, subscribing, reply).0),
{
    if let ReplyView::Characteristics(Some(list)) = reply {
        if let Sending::BleDiscover { data: _, uuid, services: _, index: _ } = sending {
            lemma_find_chara(list, uuid);
        }
        if let Subscribe::BleDiscover { uuid, services: _, index: _ } = subscribing {
            lemma_find_chara(list, uuid);
        }
        if let Subscribe::BleDiscoverService { uuid, services: _, index: _ } = subscribing {
            lemma_find_chara(list, uuid);
        }
    }
}

/// Whether the device has listed its services on the way.
pub open spec fn services_listed(s: ImpState, step: ConnectView, replies: Seq<ReplyView>) -> bool
    decreases replies.len(),
{
    if replies.len() == 0 {
        false
    } else {
        let (_, due) = connect_run(s, step, replies.drop_last());
        ||| services_listed(s, step, replies.drop_last())
        ||| due is BleDiscoverServices && replies.last() matches ReplyView::Services(Some(_))
    }
}

/// As long as a connecting has not succeeded, and also where it has failed, the earlier device
/// and its services are in place. What is remembered of their characteristics is untouched until
/// a device has listed its services; from then on there are no default characteristics.
pub proof fn law_failed_connect_keeps_the_device(
    s: ImpState,
    addr: Seq<char>,
    replies: Seq<ReplyView>,
)
    requires
        !(connect_run(s, connect_begin(s, addr), replies).1 is BleInvokeListener),
        !(connect_run(s, connect_begin(s, addr), replies).1 matches Connect::Finished(Ok(_))),
    ensures
        ({
            let after = connect_run(s, connect_begin(s, addr), replies).0;
            &&& after.device == s.device
            &&& after.services == s.services
            &&& if services_listed(s, connect_begin(s, addr), replies) {
                after.bundle is None
            } else {
                after.cache == s.cache && after.bundle == s.bundle
            }
        }),
{
    lemma_failed_connect(s, addr, replies);
}

proof fn lemma_failed_connect(s: ImpState, addr: Seq<char>, replies: Seq<ReplyView>)
    ensures
        ({
            let (after, due) = connect_run(s, connect_begin(s, addr), replies);
            let listed = services_listed(s, connect_begin(s, addr), replies);
            let untouched = after.cache == s.cache && after.bundle == s.bundle;
            let kept = after.device == s.device && after.services == s.services;
            match due {
                Connect::BleDiscoverCharacteristics {
                    device: _,
                    services: _,
                    index: _,
                    bundle: _,
                } => kept && listed && after.bundle is None,
                Connect::Finished(Err(_)) => kept && (if listed {
                    after.bundle is None
                } else {
                    untouched
                }),
                Connect::Finished(Ok(_)) => true,
                Connect::BleInvokeListener { listener: _ } => true,
                _ => kept && !listed && untouched,
            }
        }),
    decreases replies.len(),
{
    if replies.len() > 0 {
        lemma_failed_connect(s, addr, replies.drop_last());
    }
}

/// How many of the steps that were answered asked the device whether it is connected.
pub open spec fn polls(s: ImpState, step: ConnectView, replies: Seq<ReplyView>) -> nat
    decreases replies.len(),
{
    if replies.len() == 0 {
        0
    } else {
        let earlier = polls(s, step, replies.drop_last());
        let (_, due) = connect_run(s, step, replies.drop_last());
        if due is BlePollConnected && replies.last() is Flag {
            earlier + 1
        } else {
            earlier
        }
    }
}

/// A device is asked at most twenty-one times whether it is connected; then connecting goes on.
pub proof fn law_polls_are_bounded(s: ImpState, addr: Seq<char>, replies: Seq<ReplyView>)
    ensures
        polls(s, connect_begin(s, addr), replies) <= CONNECT_POLL_LIMIT + 1,
{
    lemma_polls(s, addr, replies);
}

/// How often the device was asked, by the step that is due.
proof fn lemma_polls(s: ImpState, addr: Seq<char>, replies: Seq<ReplyView>)
    ensures
        ({
            let asked = polls(s, connect_begin(s, addr), replies);
            match connect_run(s, connect_begin(s, addr), replies).1 {
                Connect::BlePollConnected { device: _, attempts } => asked == attempts && attempts
                    <= CONNECT_POLL_LIMIT,
                Connect::BlePausePoll { device: _, attempts } => asked == attempts && attempts
                    <= CONNECT_POLL_LIMIT,
                Connect::BlePair { device: _ } => asked <= CONNECT_POLL_LIMIT + 1,
                Connect::BleDiscoverServices { device: _ } => asked <= CONNECT_POLL_LIMIT + 1,
                Connect::BleDiscoverCharacteristics {
                    device: _,
                    services: _,
                    index: _,
                    bundle: _,
                } => asked <= CONNECT_POLL_LIMIT + 1,
                Connect::BleInvokeListener { listener: _ } => asked <= CONNECT_POLL_LIMIT + 1,
                Connect::Finished(_) => asked <= CONNECT_POLL_LIMIT + 1,
                _ => asked == 0,
            }
        }),
    decreases replies.len(),
{
    if replies.len() > 0 {
        lemma_polls(s, addr, replies.drop_last());
    }
}

/// A device that is remembered stays so through every step of connecting, sending, subscribing,
/// disconnecting, stopping a scan and a scan that runs.
pub proof fn law_remembered_device_stays(
    s: ImpState,
    addr: Seq<char>,
    connecting: ConnectView,
    sending: SendView,
    subscribing: SubscribeView,
    disconnecting: DisconnectStep,
    stopping: StopScanView,
    task: TaskView,
    scanning: BleScanView,
    reply: ReplyView,
)
    requires
        s.scanned.contains_key(addr),
    ensures
        connect_next(s, connecting, reply).0.scanned.contains_key(addr),
        send_next(s, sending, reply).0.scanned.contains_key(addr),
        subscribe_next(s, subscribing, reply).0.scanned.contains_key(addr),
        disconnect_begin(s).0.scanned.contains_key(addr),
        disconnect_next(s, disconnecting, reply).0.scanned.contains_key(addr),
        stop_scan_begin(s).0.scanned.contains_key(addr),
        stop_scan_next(s, stopping, reply).0.scanned.contains_key(addr),
        ble_scan_next(s, task, scanning, reply).0.scanned.contains_key(addr),
{
}

/// The device that is connected to is not yet determined: the radio is obtained, or the device
/// is looked for.
pub open spec fn is_search(step: ConnectView) -> bool {
    ||| step is BleAdapter
    ||| step is BleQueryConnected
    ||| step is BleOpenScan
    ||| step is BleCheckDeadline
    ||| step is BleNextAdvertisement
    ||| step is BlePauseScan
}

/// A device that is remembered is never searched for: once the radio is there, it is connected
/// to.
pub proof fn law_remembered_device_is_not_searched_for(
    s: ImpState,
    addr: Seq<char>,
    replies: Seq<ReplyView>,
)
    requires
        s.scanned.contains_key(addr),
    ensures
        ({
            let due = connect_run(s, connect_begin(s, addr), replies).1;
            is_search(due) ==> due is BleAdapter
        }),
{
    lemma_remembered_device(s, addr, replies);
}

proof fn lemma_remembered_device(s: ImpState, addr: Seq<char>, replies: Seq<ReplyView>)
    requires
        s.scanned.contains_key(addr),
    ensures
        ({
            let (after, due) = connect_run(s, connect_begin(s, addr), replies);
            &&& after.scanned.contains_key(addr)
            &&& due matches Connect::BleAdapter { addr: asked, step: _ } ==> asked == addr
            &&& is_search(due) ==> due is BleAdapter
        }),
    decreases replies.len(),
{
    if replies.len() > 0 {
        lemma_remembered_device(s, addr, replies.drop_last());
    }
}

/// Whether connecting has got hold of the device on the way.
pub open spec fn located(s: ImpState, step: ConnectView, replies: Seq<ReplyView>) -> bool
    decreases replies.len(),
{
    let due = connect_run(s, step, replies).1;
    ||| due is BleIsConnected
    ||| due is BleConnectDevice
    ||| replies.len() > 0 && located(s, step, replies.drop_last())
}

/// How a low-energy connecting fails tells how far it got: the device is not found exactly where
/// connecting never got hold of it, else the target has rejected. One that succeeds has got hold
/// of the device.
pub proof fn law_connect_error_tells_how_far_it_got(
    s: ImpState,
    addr: Seq<char>,
    replies: Seq<ReplyView>,
)
    requires
        s.connect_type == ConnectType::BLE,
    ensures
        ({
            let due = connect_run(s, connect_begin(s, addr), replies).1;
            let reached = located(s, connect_begin(s, addr), replies);
            due matches Connect::Finished(result) ==> match result {
                Ok(_) => reached,
                Err(ConnectError::DeviceNotFound) => !reached,
                Err(ConnectError::TargetRejected) => reached,
            }
        }),
{
    lemma_located(s, addr, replies);
}

proof fn lemma_located(s: ImpState, addr: Seq<char>, replies: Seq<ReplyView>)
    requires
        s.connect_type == ConnectType::BLE,
    ensures
        ({
            let due = connect_run(s, connect_begin(s, addr), replies).1;
            let reached = located(s, connect_begin(s, addr), replies);
            match due {
                Connect::Finished(Err(ConnectError::DeviceNotFound)) => !reached,
                Connect::SppLookUpApp { addr: _ } => false,
                Connect::SppConnect { addr: _ } => false,
                Connect::BleAdapter { addr: _, step } => !reached && (step
                    matches AdapterStep::Finished(Err(error)) ==> error
                    == ConnectError::DeviceNotFound),
                _ => is_search(due) != reached,
            }
        }),
    decreases replies.len(),
{
    if replies.len() > 0 {
        lemma_located(s, addr, replies.drop_last());
    }
}

/// Where the address that is asked for is not blank, an identifier names the device exactly
/// where the two have the same key.
pub proof fn law_device_is_named_by_its_key(id: Seq<char>, addr: Seq<char>)
    requires
        dedup_key(addr).len() > 0,
    ensures
        names_device(id, addr) <==> dedup_key(id) == dedup_key(addr),
{
    if equal_ignoring_case(id, addr) {
        law_key_ignores_case(id, addr);
    } else if names_device(id, addr) {
        law_key_ignores_case(dedup_key(id), dedup_key(addr));
        law_key_is_its_own_key(id);
        law_key_is_its_own_key(addr);
    }
}

/// Of the connected peripherals the first one that is named is taken; none, where none is named.
pub proof fn law_probe_takes_the_first_named(peers: Seq<PeerEntry>, addr: Seq<char>)
    ensures
        match probe(peers, addr) {
            Some(device) => exists|i: int|
                {
                    &&& 0 <= i < peers.len()
                    &&& (#[trigger] peers[i]).device == device
                    &&& names_device(peers[i].entry.addr, addr)
                    &&& forall|j: int|
                        0 <= j < i ==> !names_device(#[trigger] peers[j].entry.addr, addr)
                },
            None => forall|i: int|
                0 <= i < peers.len() ==> !names_device(#[trigger] peers[i].entry.addr, addr),
        },
    decreases peers.len(),
{
    if peers.len() > 0 {
        assert(peers[0] == peers.first());
        if !names_device(peers.first().entry.addr, addr) {
            let rest = peers.drop_first();
            law_probe_takes_the_first_named(rest, addr);
            match probe(rest, addr) {
                Some(device) => {
                    let i = choose|i: int|
                        {
                            &&& 0 <= i < rest.len()
                            &&& (#[trigger] rest[i]).device == device
                            &&& names_device(rest[i].entry.addr, addr)
                            &&& forall|j: int|
                                0 <= j < i ==> !names_device(#[trigger] rest[j].entry.addr, addr)
                        };
                    assert(peers[i + 1] == rest[i]);
                    assert forall|j: int| 0 <= j < i + 1 implies !names_device(
                        #[trigger] peers[j].entry.addr,
                        addr,
                    ) by {
                        if j > 0 {
                            assert(peers[j] == rest[j - 1]);
                        }
                    }
                },
                None => {
                    assert forall|i: int| 0 <= i < peers.len() implies !names_device(
                        #[trigger] peers[i].entry.addr,
                        addr,
                    ) by {
                        if i > 0 {
                            assert(peers[i] == rest[i - 1]);
                        }
                    }
                },
            }
        }
    }
}

/// A connecting that has got hold of the device remembers it from then on under the address that
/// was asked for, also where it fails in the end.
pub proof fn law_device_that_was_found_is_remembered(
    s: ImpState,
    addr: Seq<char>,
    replies: Seq<ReplyView>,
)
    requires
        s.connect_type == ConnectType::BLE,
        located(s, connect_begin(s, addr), replies),
    ensures
        connect_run(s, connect_begin(s, addr), replies).0.scanned.contains_key(addr),
{
    lemma_found_device(s, addr, replies);
}

proof fn lemma_found_device(s: ImpState, addr: Seq<char>, replies: Seq<ReplyView>)
    requires
        s.connect_type == ConnectType::BLE,
    ensures
        ({
            let (after, due) = connect_run(s, connect_begin(s, addr), replies);
            &&& located(s, connect_begin(s, addr), replies) ==> after.scanned.contains_key(addr)
            &&& match due {
                Connect::BleAdapter { addr: asked, step: _ } => asked == addr,
                Connect::BleQueryConnected { addr: asked } => asked == addr,
                Connect::BleOpenScan { addr: asked } => asked == addr,
                Connect::BleCheckDeadline { addr: asked } => asked == addr,
                Connect::BleNextAdvertisement { addr: asked } => asked == addr,
                Connect::BlePauseScan { addr: asked } => asked == addr,
                Connect::SppLookUpApp { addr: _ } => false,
                Connect::SppConnect { addr: _ } => false,
                _ => true,
            }
        }),
    decreases replies.len(),
{
    if replies.len() > 0 {
        lemma_found_device(s, addr, replies.drop_last());
    }
}

// ---- Extracting the default characteristics ----

/// Extracting to the end, each listing answered by `answers`.
pub open spec fn extract_to_end(
    s: ImpState,
    services: Seq<BluestService>,
    from: int,
    bundle: BleCharacteristicBundle,
    answers: spec_fn(BluestService) -> Option<Seq<Characteristic>>,
) -> (ImpState, ExtractStep)
    decreases services.len() - from,
{
    match extract_from(s, services, from, bundle) {
        (before, ExtractStep::Discover { index, bundle: _ }) => if from <= index < services.len() {
            match answers(services[index as int]) {
                None => extract_next(before, services, index as int, bundle, None),
                Some(list) => extract_to_end(
                    ImpState { cache: cache_with(before.cache, list), ..before },
                    services,
                    index + 1,
                    bundle_with(bundle, list),
                    answers,
                ),
            }
        } else {
            (before, ExtractStep::Discover { index, bundle })
        },
        finished => finished,
    }
}

/// The characteristics that the Xiaomi services from position `from` on list, in order, up to the
/// first one that cannot be listed.
pub open spec fn xiaomi_characteristics(
    services: Seq<BluestService>,
    from: int,
    answers: spec_fn(BluestService) -> Option<Seq<Characteristic>>,
) -> Seq<Characteristic>
    decreases services.len() - from,
{
    if from >= services.len() {
        Seq::empty()
    } else if !is_xiaomi(services[from]) {
        xiaomi_characteristics(services, from + 1, answers)
    } else {
        match answers(services[from]) {
            None => Seq::empty(),
            Some(list) => list + xiaomi_characteristics(services, from + 1, answers),
        }
    }
}

/// Every Xiaomi service from position `from` on can be listed.
pub open spec fn all_listed(
    services: Seq<BluestService>,
    from: int,
    answers: spec_fn(BluestService) -> Option<Seq<Characteristic>>,
) -> bool {
    forall|i: int|
        from <= i < services.len() && is_xiaomi(#[trigger] services[i]) ==> answers(
            services[i],
        ) is Some
}

proof fn lemma_next_xiaomi(
    services: Seq<BluestService>,
    from: int,
    answers: spec_fn(BluestService) -> Option<Seq<Characteristic>>,
)
    requires
        0 <= from <= services.len(),
    ensures
        from <= next_xiaomi(services, from) <= services.len(),
        xiaomi_characteristics(services, from, answers) == xiaomi_characteristics(
            services,
            next_xiaomi(services, from),
            answers,
        ),
        all_listed(services, from, answers) == all_listed(
            services,
            next_xiaomi(services, from),
            answers,
        ),
        next_xiaomi(services, from) < services.len() ==> is_xiaomi(
            services[next_xiaomi(services, from)],
        ),
    decreases services.len() - from,
{
    if from < services.len() && !is_xiaomi(services[from]) {
        lemma_next_xiaomi(services, from + 1, answers);
        assert(all_listed(services, from, answers) == all_listed(services, from + 1, answers)) by {
            if all_listed(services, from + 1, answers) {
                assert forall|i: int|
                    from <= i < services.len() && is_xiaomi(#[trigger] services[i]) implies answers(
                    services[i],
                ) is Some by {
                    assert(i != from);
                }
            }
        }
    }
}

proof fn lemma_bundle_of_two_lists(
    bundle: BleCharacteristicBundle,
    a: Seq<Characteristic>,
    b: Seq<Characteristic>,
)
    ensures
        bundle_with(bundle_with(bundle, a), b) == bundle_with(bundle, a + b),
{
    lemma_role_of_two_lists(Role::Service, bundle.service, a, b);
    lemma_role_of_two_lists(Role::Recv, bundle.recv, a, b);
    lemma_role_of_two_lists(Role::Sent, bundle.sent, a, b);
}

proof fn lemma_role_of_two_lists(
    role: Role,
    before: Option<Uuid>,
    a: Seq<Characteristic>,
    b: Seq<Characteristic>,
)
    ensures
        last_in_role(b, role, last_in_role(a, role, before)) == last_in_role(a + b, role, before),
    decreases b.len(),
{
    if b.len() == 0 {
        assert(a + b =~= a);
    } else {
        lemma_role_of_two_lists(role, before, a, b.drop_last());
        assert((a + b).drop_last() =~= a + b.drop_last());
        assert((a + b).last() == b.last());
    }
}

proof fn lemma_cache_of_two_lists(
    cache: Map<u128, Characteristic>,
    a: Seq<Characteristic>,
    b: Seq<Characteristic>,
)
    ensures
        cache_with(cache_with(cache, a), b) == cache_with(cache, a + b),
    decreases b.len(),
{
    if b.len() == 0 {
        assert(a + b =~= a);
    } else {
        lemma_cache_of_two_lists(cache, a, b.drop_last());
        assert((a + b).drop_last() =~= a + b.drop_last());
        assert((a + b).last() == b.last());
    }
}

/// Extracting reads the Xiaomi services in order, as if their characteristics stood in one list:
/// all of them are remembered, and the last one in each role is the default. It succeeds exactly
/// where each of these services can be listed and there is a characteristic for each direction;
/// else the target is rejected, and the defaults stay as they were.
pub proof fn law_extraction_reads_all_xiaomi_services(
    s: ImpState,
    services: Seq<BluestService>,
    from: int,
    bundle: BleCharacteristicBundle,
    answers: spec_fn(BluestService) -> Option<Seq<Characteristic>>,
)
    requires
        0 <= from <= services.len() <= usize::MAX,
    ensures
        ({
            let all = xiaomi_characteristics(services, from, answers);
            let found = bundle_with(bundle, all);
            let after = ImpState { cache: cache_with(s.cache, all), ..s };
            extract_to_end(s, services, from, bundle, answers) == if all_listed(
                services,
                from,
                answers,
            ) && found.recv is Some && found.sent is Some {
                (
                    ImpState { bundle: Some(found), ..after },
                    ExtractStep::Finished(Ok::<(), ConnectError>(())),
                )
            } else {
                (
                    after,
                    ExtractStep::Finished(Err::<(), ConnectError>(ConnectError::TargetRejected)),
                )
            }
        }),
    decreases services.len() - from,
{
    lemma_next_xiaomi(services, from, answers);
    let index = next_xiaomi(services, from);
    if index < services.len() {
        match answers(services[index]) {
            None => {
                assert(!all_listed(services, index, answers));
                assert(xiaomi_characteristics(services, from, answers) =~= Seq::empty());
            },
            Some(list) => {
                let rest = xiaomi_characteristics(services, index + 1, answers);
                law_extraction_reads_all_xiaomi_services(
                    ImpState { cache: cache_with(s.cache, list), ..s },
                    services,
                    index + 1,
                    bundle_with(bundle, list),
                    answers,
                );
                lemma_bundle_of_two_lists(bundle, list, rest);
                lemma_cache_of_two_lists(s.cache, list, rest);
                assert(xiaomi_characteristics(services, from, answers) == list + rest);
                assert(all_listed(services, index, answers) == all_listed(
                    services,
                    index + 1,
                    answers,
                )) by {
                    if all_listed(services, index + 1, answers) {
                        assert forall|i: int|
                            index <= i < services.len() && is_xiaomi(
                                #[trigger] services[i],
                            ) implies answers(services[i]) is Some by {
                            if i > index {
                                assert(index + 1 <= i);
                            }
                        }
                    }
                }
            },
        }
    }
}

/// The answers to the listings that connecting asks for, where `answers` says what each service
/// lists. Those behind a service that cannot be listed are not asked for any more.
pub open spec fn listings(
    services: Seq<BluestService>,
    from: int,
    answers: spec_fn(BluestService) -> Option<Seq<Characteristic>>,
) -> Seq<ReplyView>
    decreases services.len() - from,
{
    if from >= services.len() {
        Seq::empty()
    } else if !is_xiaomi(services[from]) {
        listings(services, from + 1, answers)
    } else {
        seq![ReplyView::Characteristics(answers(services[from]))] + if answers(
            services[from],
        ) is Some {
            listings(services, from + 1, answers)
        } else {
            Seq::empty()
        }
    }
}

proof fn lemma_connect_run_from_front(
    s: ImpState,
    step: ConnectView,
    first: ReplyView,
    rest: Seq<ReplyView>,
)
    ensures
        connect_run(s, step, seq![first] + rest) == connect_run(
            connect_next(s, step, first).0,
            connect_next(s, step, first).1,
            rest,
        ),
    decreases rest.len(),
{
    let all = seq![first] + rest;
    if rest.len() == 0 {
        assert(all.drop_last() =~= Seq::empty());
        reveal_with_fuel(connect_run, 2);
    } else {
        assert(all.drop_last() =~= seq![first] + rest.drop_last());
        assert(all.last() == rest.last());
        lemma_connect_run_from_front(s, step, first, rest.drop_last());
    }
}

proof fn lemma_next_listing(
    services: Seq<BluestService>,
    from: int,
    answers: spec_fn(BluestService) -> Option<Seq<Characteristic>>,
)
    requires
        0 <= from <= services.len(),
    ensures
        listings(services, from, answers) == listings(
            services,
            next_xiaomi(services, from),
            answers,
        ),
    decreases services.len() - from,
{
    if from < services.len() && !is_xiaomi(services[from]) {
        lemma_next_listing(services, from + 1, answers);
    }
}

proof fn lemma_connect_through_listings(
    s: ImpState,
    device: BluestDevice,
    services: Seq<BluestService>,
    from: int,
    bundle: BleCharacteristicBundle,
    answers: spec_fn(BluestService) -> Option<Seq<Characteristic>>,
)
    requires
        0 <= from <= services.len() <= usize::MAX,
    ensures
        ({
            let (begun, first) = connect_extracted(
                device,
                services,
                extract_from(s, services, from, bundle),
            );
            connect_run(begun, first, listings(services, from, answers)) == connect_extracted(
                device,
                services,
                extract_to_end(s, services, from, bundle, answers),
            )
        }),
    decreases services.len() - from,
{
    lemma_next_xiaomi(services, from, answers);
    lemma_next_listing(services, from, answers);
    let index = next_xiaomi(services, from);
    if index < services.len() {
        let (begun, first) = connect_extracted(
            device,
            services,
            extract_from(s, services, from, bundle),
        );
        let rest = if answers(services[index]) is Some {
            listings(services, index + 1, answers)
        } else {
            Seq::empty()
        };
        lemma_connect_run_from_front(
            begun,
            first,
            ReplyView::Characteristics(answers(services[index])),
            rest,
        );
        if let Some(list) = answers(services[index]) {
            lemma_connect_through_listings(
                ImpState { cache: cache_with(s.cache, list), ..s },
                device,
                services,
                index + 1,
                bundle_with(bundle, list),
                answers,
            );
        }
    }
}

/// When a device has listed its services, connecting succeeds exactly where each Xiaomi service
/// can be listed and there is a characteristic for each direction. It then holds the device, the
/// services, all those characteristics and the defaults; else the target is rejected, the earlier
/// device and services stay, and there are no defaults.
pub proof fn law_connect_succeeds_with_both_directions(
    s: ImpState,
    device: BluestDevice,
    services: Seq<BluestService>,
    answers: spec_fn(BluestService) -> Option<Seq<Characteristic>>,
)
    requires
        services.len() <= usize::MAX,
    ensures
        ({
            let all = xiaomi_characteristics(services, 0, answers);
            let found = bundle_with(empty_bundle(), all);
            let cache = cache_with(Map::empty(), all);
            let replies = seq![ReplyView::Services(Some(services))] + listings(services, 0, answers);
            connect_run(s, Connect::BleDiscoverServices { device }, replies) == if all_listed(
                services,
                0,
                answers,
            ) && found.recv is Some && found.sent is Some {
                (
                    ImpState {
                        device: Some(device),
                        services: Some(services),
                        cache,
                        bundle: Some(found),
                        ..s
                    },
                    match s.listener {
                        Some(listener) => Connect::<
                            Seq<char>,
                            Seq<BluestService>,
                        >::BleInvokeListener { listener },
                        None => Connect::Finished(Ok(())),
                    },
                )
            } else {
                (
                    ImpState { cache, bundle: None, ..s },
                    Connect::Finished(Err(ConnectError::TargetRejected)),
                )
            }
        }),
{
    let fresh = ImpState { cache: Map::empty(), bundle: None, ..s };
    lemma_connect_run_from_front(
        s,
        Connect::BleDiscoverServices { device },
        ReplyView::Services(Some(services)),
        listings(services, 0, answers),
    );
    lemma_connect_through_listings(fresh, device, services, 0, empty_bundle(), answers);
    law_extraction_reads_all_xiaomi_services(fresh, services, 0, empty_bundle(), answers);
}

// ---- Sending and subscribing ----

/// The state and the step that are due after a sequence of answers to a sending.
pub open spec fn send_run(s: ImpState, step: SendView, replies: Seq<ReplyView>) -> (
    ImpState,
    SendView,
)
    decreases replies.len(),
{
    if replies.len() == 0 {
        (s, step)
    } else {
        let (before, due) = send_run(s, step, replies.drop_last());
        send_next(before, due, replies.last())
    }
}

/// What is handed to the driver is the caller's data, unchanged; over low energy it is written
/// to the characteristic that the caller names, or to the default one.
pub proof fn law_data_is_sent_unchanged(
    s: ImpState,
    data: Seq<u8>,
    characteristic: Option<Uuid>,
    replies: Seq<ReplyView>,
)
    requires
        well_formed(s),
    ensures
        ({
            let due = send_run(s, send_begin(s, data, characteristic), replies).1;
            &&& due matches Sending::SppSend { data: handed } ==> handed == data
            &&& due matches Sending::BleWrite { chara, data: handed } ==> handed == data && Some(
                chara.uuid,
            ) == send_target(s, characteristic)
        }),
{
    lemma_send_steps(s, data, characteristic, replies);
}

proof fn lemma_send_steps(
    s: ImpState,
    data: Seq<u8>,
    characteristic: Option<Uuid>,
    replies: Seq<ReplyView>,
)
    requires
        well_formed(s),
    ensures
        ({
            let (after, due) = send_run(s, send_begin(s, data, characteristic), replies);
            well_formed(after) && match due {
                Sending::SppLookUpApp { data: handed } => handed == data,
                Sending::SppSend { data: handed } => handed == data,
                Sending::BleDiscover { data: handed, uuid, services: _, index: _ } => handed == data
                    && Some(uuid) == send_target(s, characteristic),
                Sending::BleWrite { chara, data: handed } => handed == data && Some(chara.uuid)
                    == send_target(s, characteristic),
                Sending::Finished(_) => true,
            }
        }),
    decreases replies.len(),
{
    if replies.len() > 0 {
        lemma_send_steps(s, data, characteristic, replies.drop_last());
        let (before, due) = send_run(
            s,
            send_begin(s, data, characteristic),
            replies.drop_last(),
        );
        law_send_keeps_well_formed(before, due, replies.last());
        if let (
            Sending::BleDiscover { data: _, uuid, services: _, index: _ },
            ReplyView::Characteristics(Some(list)),
        ) = (due, replies.last()) {
            lemma_find_chara(list, uuid);
        }
    }
}

/// The state and the step that are due after a sequence of answers to a subscribing.
pub open spec fn subscribe_run(s: ImpState, step: SubscribeView, replies: Seq<ReplyView>) -> (
    ImpState,
    SubscribeView,
)
    decreases replies.len(),
{
    if replies.len() == 0 {
        (s, step)
    } else {
        let (before, due) = subscribe_run(s, step, replies.drop_last());
        subscribe_next(before, due, replies.last())
    }
}

/// Over low energy the subscription is to the characteristic that the caller names, or to the
/// default one, and what is read afterwards is the default service characteristic.
pub proof fn law_subscription_is_to_the_target(
    s: ImpState,
    characteristic: Option<Uuid>,
    replies: Seq<ReplyView>,
)
    requires
        well_formed(s),
    ensures
        ({
            let due = subscribe_run(s, subscribe_begin(s, characteristic), replies).1;
            &&& due matches Subscribe::BleNotify { chara } ==> Some(chara.uuid) == subscribe_target(
                s,
                characteristic,
            )
            &&& due matches Subscribe::BleReadService { chara } ==> s.bundle matches Some(bundle)
                && bundle.service == Some(chara.uuid)
        }),
{
    lemma_subscribe_steps(s, characteristic, replies);
}

proof fn lemma_subscribe_steps(
    s: ImpState,
    characteristic: Option<Uuid>,
    replies: Seq<ReplyView>,
)
    requires
        well_formed(s),
    ensures
        ({
            let (after, due) = subscribe_run(s, subscribe_begin(s, characteristic), replies);
            well_formed(after) && after.bundle == s.bundle && match due {
                Subscribe::BleDiscover { uuid, services: _, index: _ } => Some(uuid)
                    == subscribe_target(s, characteristic),
                Subscribe::BleNotify { chara } => Some(chara.uuid) == subscribe_target(
                    s,
                    characteristic,
                ),
                Subscribe::BleDiscoverService { uuid, services: _, index: _ } => s.bundle is Some
                    && s.bundle->0.service == Some(uuid),
                Subscribe::BleReadService { chara } => s.bundle is Some && s.bundle->0.service
                    == Some(chara.uuid),
                _ => true,
            }
        }),
    decreases replies.len(),
{
    if replies.len() > 0 {
        lemma_subscribe_steps(s, characteristic, replies.drop_last());
        let (before, due) = subscribe_run(
            s,
            subscribe_begin(s, characteristic),
            replies.drop_last(),
        );
        law_subscribe_keeps_well_formed(before, due, replies.last());
        if let ReplyView::Characteristics(Some(list)) = replies.last() {
            if let Subscribe::BleDiscover { uuid, services: _, index: _ } = due {
                lemma_find_chara(list, uuid);
            }
            if let Subscribe::BleDiscoverService { uuid, services: _, index: _ } = due {
                lemma_find_chara(list, uuid);
            }
        }
    }
}

/// Once a subscription has begun, it succeeds, whatever becomes of the characteristic that is
/// read afterwards.
pub proof fn law_begun_subscription_succeeds(s: ImpState, step: SubscribeView, reply: ReplyView)
    requires
        step is BleNotify || step is BleDiscoverService || step is BleReadService,
    ensures
        ({
            let due = subscribe_next(s, step, reply).1;
            ||| due is BleDiscoverService
            ||| due is BleReadService
            ||| due == Subscribe::<Seq<BluestService>>::Finished(Ok(()))
        }),
{
}

/// The answers to the listings that looking for a characteristic asks for, up to the one that
/// decides, where `answers` says what each service lists.
pub open spec fn lookup_listings(
    uuid: Uuid,
    services: Seq<BluestService>,
    from: int,
    answers: spec_fn(BluestService) -> Option<Seq<Characteristic>>,
) -> Seq<ReplyView>
    decreases services.len() - from,
{
    if from >= services.len() {
        Seq::empty()
    } else {
        let goes_on = answers(services[from]) matches Some(list) && find_chara(list, uuid) is None;
        seq![ReplyView::Characteristics(answers(services[from]))] + if goes_on {
            lookup_listings(uuid, services, from + 1, answers)
        } else {
            Seq::empty()
        }
    }
}

proof fn lemma_send_run_from_front(
    s: ImpState,
    step: SendView,
    first: ReplyView,
    rest: Seq<ReplyView>,
)
    ensures
        send_run(s, step, seq![first] + rest) == send_run(
            send_next(s, step, first).0,
            send_next(s, step, first).1,
            rest,
        ),
    decreases rest.len(),
{
    let all = seq![first] + rest;
    if rest.len() == 0 {
        assert(all.drop_last() =~= Seq::empty());
        reveal_with_fuel(send_run, 2);
    } else {
        assert(all.drop_last() =~= seq![first] + rest.drop_last());
        assert(all.last() == rest.last());
        lemma_send_run_from_front(s, step, first, rest.drop_last());
    }
}

proof fn lemma_subscribe_run_from_front(
    s: ImpState,
    step: SubscribeView,
    first: ReplyView,
    rest: Seq<ReplyView>,
)
    ensures
        subscribe_run(s, step, seq![first] + rest) == subscribe_run(
            subscribe_next(s, step, first).0,
            subscribe_next(s, step, first).1,
            rest,
        ),
    decreases rest.len(),
{
    let all = seq![first] + rest;
    if rest.len() == 0 {
        assert(all.drop_last() =~= Seq::empty());
        reveal_with_fuel(subscribe_run, 2);
    } else {
        assert(all.drop_last() =~= seq![first] + rest.drop_last());
        assert(all.last() == rest.last());
        lemma_subscribe_run_from_front(s, step, first, rest.drop_last());
    }
}

/// A sending that has to look for its characteristic goes through the services as every lookup
/// does: the data is written where it is found, and else sending fails as the lookup does.
pub proof fn law_sending_looks_for_its_characteristic(
    s: ImpState,
    data: Seq<u8>,
    uuid: Uuid,
    services: Seq<BluestService>,
    index: usize,
    answers: spec_fn(BluestService) -> Option<Seq<Characteristic>>,
)
    requires
        index < services.len() <= usize::MAX,
    ensures
        ({
            let replies = lookup_listings(uuid, services, index as int, answers);
            let (after, due) = send_run(
                s,
                Sending::BleDiscover { data, uuid, services, index },
                replies,
            );
            &&& after == lookup_to_end(s, Lookup::Discover { uuid, services, index }, answers).0
            &&& due == match lookup_outcome(uuid, services, index as int, answers) {
                Ok(chara) => Sending::<Seq<u8>, Seq<BluestService>>::BleWrite { chara, data },
                Err(SubscribeError::BleCharaNotFound) => Sending::Finished(
                    Err(SendError::BleCharaNotFound),
                ),
                Err(SubscribeError::Disconnected) => Sending::Finished(
                    Err(SendError::Disconnected),
                ),
            }
        }),
    decreases services.len() - index,
{
    let step = Sending::BleDiscover { data, uuid, services, index };
    let answer = answers(services[index as int]);
    let goes_on = answer matches Some(list) && find_chara(list, uuid) is None;
    let rest = if goes_on {
        lookup_listings(uuid, services, index + 1, answers)
    } else {
        Seq::empty()
    };
    lemma_send_run_from_front(s, step, ReplyView::Characteristics(answer), rest);
    reveal_with_fuel(lookup_outcome, 2);
    reveal_with_fuel(lookup_to_end, 2);
    if goes_on && index + 1 < services.len() {
        law_sending_looks_for_its_characteristic(
            s,
            data,
            uuid,
            services,
            (index + 1) as usize,
            answers,
        );
    }
}

/// A subscribing that has to look for its characteristic goes through the services as every
/// lookup does: it subscribes where it is found, and else fails as the lookup does.
pub proof fn law_subscribing_looks_for_its_characteristic(
    s: ImpState,
    uuid: Uuid,
    services: Seq<BluestService>,
    index: usize,
    answers: spec_fn(BluestService) -> Option<Seq<Characteristic>>,
)
    requires
        index < services.len() <= usize::MAX,
    ensures
        ({
            let replies = lookup_listings(uuid, services, index as int, answers);
            let (after, due) = subscribe_run(
                s,
                Subscribe::BleDiscover { uuid, services, index },
                replies,
            );
            &&& after == lookup_to_end(s, Lookup::Discover { uuid, services, index }, answers).0
            &&& due == match lookup_outcome(uuid, services, index as int, answers) {
                Ok(chara) => Subscribe::<Seq<BluestService>>::BleNotify { chara },
                Err(error) => Subscribe::Finished(Err(error)),
            }
        }),
    decreases services.len() - index,
{
    let step = Subscribe::BleDiscover { uuid, services, index };
    let answer = answers(services[index as int]);
    let goes_on = answer matches Some(list) && find_chara(list, uuid) is None;
    let rest = if goes_on {
        lookup_listings(uuid, services, index + 1, answers)
    } else {
        Seq::empty()
    };
    lemma_subscribe_run_from_front(s, step, ReplyView::Characteristics(answer), rest);
    reveal_with_fuel(lookup_outcome, 2);
    reveal_with_fuel(lookup_to_end, 2);
    if goes_on && index + 1 < services.len() {
        law_subscribing_looks_for_its_characteristic(
            s,
            uuid,
            services,
            (index + 1) as usize,
            answers,
        );
    }
}

/// No sending fails for the length of its data.
pub proof fn law_data_is_never_too_long(
    s: ImpState,
    data: Seq<u8>,
    characteristic: Option<Uuid>,
    replies: Seq<ReplyView>,
)
    ensures
        send_run(s, send_begin(s, data, characteristic), replies).1 != Sending::<
            Seq<u8>,
            Seq<BluestService>,
        >::Finished(Err(SendError::TooLong)),
    decreases replies.len(),
{
    if replies.len() > 0 {
        law_data_is_never_too_long(s, data, characteristic, replies.drop_last());
    }
}

// ---- Disconnecting ----

/// The state and the step that are due after a sequence of answers to a disconnecting.
pub open spec fn disconnect_run(s: ImpState, step: DisconnectStep, replies: Seq<ReplyView>) -> (
    ImpState,
    DisconnectStep,
)
    decreases replies.len(),
{
    if replies.len() == 0 {
        (s, step)
    } else {
        let (before, due) = disconnect_run(s, step, replies.drop_last());
        disconnect_next(before, due, replies.last())
    }
}

/// Once a low-energy disconnecting has finished, in success or in failure, the connection is
/// forgotten and nothing else has changed.
pub proof fn law_disconnect_forgets_the_connection(s: ImpState, replies: Seq<ReplyView>)
    requires
        s.connect_type == ConnectType::BLE,
    ensures
        ({
            let (begun, first) = disconnect_begin(s);
            let (after, due) = disconnect_run(begun, first, replies);
            if due is Finished {
                after == cleared(s)
            } else {
                after == s
            }
        }),
{
    lemma_disconnect_steps(s, replies);
}

proof fn lemma_disconnect_steps(s: ImpState, replies: Seq<ReplyView>)
    requires
        s.connect_type == ConnectType::BLE,
    ensures
        ({
            let (begun, first) = disconnect_begin(s);
            let (after, due) = disconnect_run(begun, first, replies);
            match due {
                DisconnectStep::Finished(_) => after == cleared(s),
                DisconnectStep::BleAdapter { device: _, step: _ } => after == s,
                DisconnectStep::BleDisconnectDevice { device: _ } => after == s,
                _ => false,
            }
        }),
    decreases replies.len(),
{
    if replies.len() > 0 {
        lemma_disconnect_steps(s, replies.drop_last());
    }
}

/// Whether the driver has disconnected the device on the way.
pub open spec fn was_disconnected(
    s: ImpState,
    step: DisconnectStep,
    replies: Seq<ReplyView>,
) -> bool
    decreases replies.len(),
{
    if replies.len() == 0 {
        false
    } else {
        let (_, due) = disconnect_run(s, step, replies.drop_last());
        ||| was_disconnected(s, step, replies.drop_last())
        ||| due is BleDisconnectDevice && replies.last() == ReplyView::Flag(true)
    }
}

/// Where there is a low-energy device, disconnecting succeeds exactly where the driver has
/// disconnected it.
pub proof fn law_disconnect_result(s: ImpState, replies: Seq<ReplyView>)
    requires
        s.connect_type == ConnectType::BLE,
        s.platform != Platform::Android,
        s.device is Some,
    ensures
        ({
            let (begun, first) = disconnect_begin(s);
            let due = disconnect_run(begun, first, replies).1;
            due matches DisconnectStep::Finished(result) ==> (result is Ok <==> was_disconnected(
                begun,
                first,
                replies,
            ))
        }),
{
    lemma_disconnect_result(s, replies);
}

proof fn lemma_disconnect_result(s: ImpState, replies: Seq<ReplyView>)
    requires
        s.connect_type == ConnectType::BLE,
        s.platform != Platform::Android,
        s.device is Some,
    ensures
        ({
            let (begun, first) = disconnect_begin(s);
            let due = disconnect_run(begun, first, replies).1;
            let done = was_disconnected(begun, first, replies);
            match due {
                DisconnectStep::SppLookUpApp => false,
                DisconnectStep::SppDisconnect => false,
                DisconnectStep::Finished(result) => result is Ok <==> done,
                _ => !done,
            }
        }),
    decreases replies.len(),
{
    if replies.len() > 0 {
        lemma_disconnect_result(s, replies.drop_last());
    }
}

/// When the connection is forgotten, nothing can be sent or subscribed to: without a
/// characteristic none is found, with one there is no device. On Android there never is one.
/// Disconnecting again succeeds.
pub proof fn law_nothing_flows_after_disconnect(
    s: ImpState,
    data: Seq<u8>,
    characteristic: Option<Uuid>,
)
    requires
        s.connect_type == ConnectType::BLE,
    ensures
        send_begin(cleared(s), data, characteristic) == Sending::<
            Seq<u8>,
            Seq<BluestService>,
        >::Finished(
            Err(
                if s.platform == Platform::Android || characteristic is Some {
                    SendError::Disconnected
                } else {
                    SendError::BleCharaNotFound
                },
            ),
        ),
        subscribe_begin(cleared(s), characteristic) == Subscribe::<Seq<BluestService>>::Finished(
            Err(
                if s.platform == Platform::Android || characteristic is Some {
                    SubscribeError::Disconnected
                } else {
                    SubscribeError::BleCharaNotFound
                },
            ),
        ),
        disconnect_begin(cleared(s)) == (cleared(s), DisconnectStep::Finished(Ok(()))),
{
}

// ---- The listener ----

/// The listeners that were told on the way, in order.
pub open spec fn told(s: ImpState, step: ConnectView, replies: Seq<ReplyView>) -> Seq<Listener>
    decreases replies.len(),
{
    if replies.len() == 0 {
        Seq::empty()
    } else {
        let earlier = told(s, step, replies.drop_last());
        match connect_run(s, step, replies.drop_last()).1 {
            Connect::BleInvokeListener { listener } => earlier.push(listener),
            _ => earlier,
        }
    }
}

/// A listener that is set is kept, in place of an earlier one, and nothing else changes.
pub proof fn law_listener_is_kept(s: ImpState, listener: Listener)
    requires
        s.connect_type == ConnectType::BLE,
    ensures
        listener_begin(s, listener).0 == (ImpState { listener: Some(listener), ..s }),
        well_formed(s) ==> well_formed(listener_begin(s, listener).0),
{
}

/// The listener that is kept is told of a low-energy connecting exactly once where that succeeds,
/// and never where it fails. When it is to be told, the connection is ready. Where none is kept,
/// none is told.
pub proof fn law_listener_is_told_once(s: ImpState, addr: Seq<char>, replies: Seq<ReplyView>)
    requires
        well_formed(s),
        s.connect_type == ConnectType::BLE,
    ensures
        ({
            let (after, due) = connect_run(s, connect_begin(s, addr), replies);
            let heard = told(s, connect_begin(s, addr), replies);
            match due {
                Connect::Finished(Ok(_)) => heard == match s.listener {
                    Some(listener) => seq![listener],
                    None => Seq::empty(),
                },
                Connect::BleInvokeListener { listener } => s.listener == Some(listener)
                    && heard.len() == 0 && ready(after),
                _ => heard.len() == 0,
            }
        }),
{
    lemma_told(s, addr, replies);
    lemma_connect_run_holds(s, addr, replies);
}

proof fn lemma_told(s: ImpState, addr: Seq<char>, replies: Seq<ReplyView>)
    requires
        s.connect_type == ConnectType::BLE,
    ensures
        ({
            let (after, due) = connect_run(s, connect_begin(s, addr), replies);
            let heard = told(s, connect_begin(s, addr), replies);
            after.listener == s.listener && match due {
                Connect::Finished(Ok(_)) => heard == match s.listener {
                    Some(listener) => seq![listener],
                    None => Seq::empty(),
                },
                Connect::BleInvokeListener { listener } => s.listener == Some(listener)
                    && heard.len() == 0,
                Connect::SppLookUpApp { addr: _ } => false,
                Connect::SppConnect { addr: _ } => false,
                _ => heard.len() == 0,
            }
        }),
    decreases replies.len(),
{
    if replies.len() > 0 {
        lemma_told(s, addr, replies.drop_last());
        let (before, due) = connect_run(s, connect_begin(s, addr), replies.drop_last());
        law_connect_leaves_the_scan_alone(before, due, replies.last());
        let heard = told(s, connect_begin(s, addr), replies);
        if let Connect::BleInvokeListener { listener } = due {
            assert(heard =~= seq![listener]);
        } else if heard.len() == 0 {
            assert(heard =~= Seq::empty());
        }
    }
}

// ---- The classic transport ----

/// Over the classic transport nothing is remembered of a connection: connecting leaves the state
/// as it is.
pub proof fn law_classic_connect_changes_nothing(
    s: ImpState,
    addr: Seq<char>,
    replies: Seq<ReplyView>,
)
    requires
        s.connect_type == ConnectType::SPP,
    ensures
        ({
            let (after, due) = connect_run(s, connect_begin(s, addr), replies);
            after == s && (due is SppLookUpApp || due is SppConnect || due is Finished)
        }),
    decreases replies.len(),
{
    if replies.len() > 0 {
        law_classic_connect_changes_nothing(s, addr, replies.drop_last());
    }
}

/// Sending over the classic transport leaves the state as it is.
pub proof fn law_classic_send_changes_nothing(
    s: ImpState,
    data: Seq<u8>,
    characteristic: Option<Uuid>,
    replies: Seq<ReplyView>,
)
    requires
        s.connect_type == ConnectType::SPP,
    ensures
        ({
            let (after, due) = send_run(s, send_begin(s, data, characteristic), replies);
            after == s && (due is SppLookUpApp || due is SppSend || due is Finished)
        }),
    decreases replies.len(),
{
    if replies.len() > 0 {
        law_classic_send_changes_nothing(s, data, characteristic, replies.drop_last());
    }
}

/// Subscribing over the classic transport leaves the state as it is.
pub proof fn law_classic_subscribe_changes_nothing(
    s: ImpState,
    characteristic: Option<Uuid>,
    replies: Seq<ReplyView>,
)
    requires
        s.connect_type == ConnectType::SPP,
    ensures
        ({
            let (after, due) = subscribe_run(s, subscribe_begin(s, characteristic), replies);
            after == s && (due is SppLookUpApp || due is SppSetListener || due is SppStart
                || due is Finished)
        }),
    decreases replies.len(),
{
    if replies.len() > 0 {
        law_classic_subscribe_changes_nothing(s, characteristic, replies.drop_last());
    }
}

/// Disconnecting over the classic transport leaves the state as it is.
pub proof fn law_classic_disconnect_changes_nothing(s: ImpState, replies: Seq<ReplyView>)
    requires
        s.connect_type == ConnectType::SPP,
    ensures
        ({
            let (begun, first) = disconnect_begin(s);
            let (after, due) = disconnect_run(begun, first, replies);
            after == s && (due is SppLookUpApp || due is SppDisconnect || due is Finished)
        }),
    decreases replies.len(),
{
    if replies.len() > 0 {
        law_classic_disconnect_changes_nothing(s, replies.drop_last());
    }
}

} // verus!
