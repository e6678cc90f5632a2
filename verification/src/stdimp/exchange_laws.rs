//! What sending, subscribing, disconnecting and setting the listener are for. What is said here is
//! said of the answers that came in on the way.
use vstd::prelude::*;

#[allow(unused_imports)]
use crate::ble::{BluestDevice, BluestService, Characteristic, Uuid};
#[allow(unused_imports)]
use crate::btinterface::{ConnectError, ConnectType, ScanError, SendError, SubscribeError};
#[allow(unused_imports)]
use crate::driver::{Listener, Platform, ReplyView};
#[allow(unused_imports)]
use crate::stdimp::adapter::{adapter_next, AdapterStep};
#[allow(unused_imports)]
use crate::stdimp::connect::{connect_begin, connect_next, Connect};
#[allow(unused_imports)]
use crate::stdimp::disconnect::{disconnect_begin, disconnect_next, DisconnectStep};
#[allow(unused_imports)]
use crate::stdimp::discovery::{find_chara, law_find_chara, Lookup};
#[allow(unused_imports)]
use crate::stdimp::laws::{
    disconnect_run, lookup_listings, lookup_outcome, lookup_to_end, send_run, subscribe_run,
    well_formed,
};
#[allow(unused_imports)]
use crate::stdimp::listener::{listener_begin, listener_next, ListenerStep};
#[allow(unused_imports)]
use crate::stdimp::send::{send_begin, SendView, Sending};
#[allow(unused_imports)]
use crate::stdimp::start_scan::{start_scan_begin, start_scan_next, StartScan};
#[allow(unused_imports)]
use crate::stdimp::subscribe::{subscribe_begin, subscribe_next, Subscribe, SubscribeView};
#[allow(unused_imports)]
use crate::stdimp::{cleared, ImpState};

verus! {

/// The characteristic that is meant: the one that the caller names, or else the default one.
pub open spec fn meant(named: Option<Uuid>, default: Option<Uuid>) -> Option<Uuid> {
    if named is Some {
        named
    } else {
        default
    }
}

/// The default characteristic for sending.
pub open spec fn default_sent(s: ImpState) -> Option<Uuid> {
    match s.bundle {
        Some(bundle) => bundle.sent,
        None => None,
    }
}

/// The default characteristic for receiving.
pub open spec fn default_recv(s: ImpState) -> Option<Uuid> {
    match s.bundle {
        Some(bundle) => bundle.recv,
        None => None,
    }
}

/// The characteristic that is read once a subscription has begun.
pub open spec fn default_service(s: ImpState) -> Option<Uuid> {
    match s.bundle {
        Some(bundle) => bundle.service,
        None => None,
    }
}

// ---- Sending ----

/// Whether a step was answered on the way in the manner of an event.
pub open spec fn send_saw(
    s: ImpState,
    step: SendView,
    replies: Seq<ReplyView>,
    event: spec_fn(SendView, ReplyView) -> bool,
) -> bool
    decreases replies.len(),
{
    replies.len() > 0 && {
        ||| send_saw(s, step, replies.drop_last(), event)
        ||| event(send_run(s, step, replies.drop_last()).1, replies.last())
    }
}

/// The driver was handed the data, for the characteristic that is meant where there is one, and
/// has said so or not.
pub open spec fn handed_over(data: Seq<u8>, target: Option<Uuid>, accepted: bool) -> spec_fn(
    SendView,
    ReplyView,
) -> bool {
    |due: SendView, reply: ReplyView|
        reply == ReplyView::Flag(accepted) && match due {
            Sending::SppSend { data: handed } => handed == data,
            Sending::BleWrite { chara, data: handed } => handed == data && Some(chara.uuid)
                == target,
            _ => false,
        }
}

/// The classic transport is not at hand.
pub open spec fn send_without_transport() -> spec_fn(SendView, ReplyView) -> bool {
    |due: SendView, reply: ReplyView| due is SppLookUpApp && reply == ReplyView::Flag(false)
}

/// A sending succeeds exactly where the driver was handed the caller's data, over low energy for
/// the characteristic that the caller names or else the default one, and has accepted it. Where
/// the driver has not accepted it, or the classic transport is missing, there is no connection.
pub proof fn law_success_means_the_data_was_accepted(
    s: ImpState,
    data: Seq<u8>,
    characteristic: Option<Uuid>,
    replies: Seq<ReplyView>,
)
    requires
        well_formed(s),
    ensures
        ({
            let begin = send_begin(s, data, characteristic);
            let due = send_run(s, begin, replies).1;
            let target = meant(characteristic, default_sent(s));
            &&& (due matches Sending::Finished(Ok(_))) <==> send_saw(
                s,
                begin,
                replies,
                handed_over(data, target, true),
            )
            &&& send_saw(s, begin, replies, handed_over(data, target, false)) || send_saw(
                s,
                begin,
                replies,
                send_without_transport(),
            ) ==> due == Sending::<Seq<u8>, Seq<BluestService>>::Finished(
                Err(SendError::Disconnected),
            )
            &&& due matches Sending::SppSend { data: handed } ==> handed == data && s.connect_type
                == ConnectType::SPP
            &&& due matches Sending::BleWrite { chara, data: handed } ==> handed == data && Some(
                chara.uuid,
            ) == target && s.connect_type == ConnectType::BLE
        }),
{
    lemma_send_history(s, data, characteristic, replies);
}

proof fn lemma_send_history(
    s: ImpState,
    data: Seq<u8>,
    characteristic: Option<Uuid>,
    replies: Seq<ReplyView>,
)
    requires
        well_formed(s),
    ensures
        ({
            let begin = send_begin(s, data, characteristic);
            let (after, due) = send_run(s, begin, replies);
            let target = meant(characteristic, default_sent(s));
            let yes = send_saw(s, begin, replies, handed_over(data, target, true));
            let no = send_saw(s, begin, replies, handed_over(data, target, false)) || send_saw(
                s,
                begin,
                replies,
                send_without_transport(),
            );
            match due {
                Sending::SppLookUpApp { data: handed } => handed == data && !yes && !no
                    && s.connect_type == ConnectType::SPP,
                Sending::SppSend { data: handed } => handed == data && !yes && !no && s.connect_type
                    == ConnectType::SPP,
                Sending::BleDiscover { data: handed, uuid, services: _, index: _ } => handed == data
                    && Some(uuid) == target && !yes && !no && s.connect_type == ConnectType::BLE,
                Sending::BleWrite { chara, data: handed } => handed == data && Some(chara.uuid)
                    == target && !yes && !no && s.connect_type == ConnectType::BLE,
                Sending::Finished(Ok(_)) => yes && !no,
                Sending::Finished(Err(error)) => !yes && (no ==> error == SendError::Disconnected),
            }
        }),
    decreases replies.len(),
{
    if replies.len() > 0 {
        lemma_send_history(s, data, characteristic, replies.drop_last());
        let due = send_run(s, send_begin(s, data, characteristic), replies.drop_last()).1;
        if let Sending::BleDiscover { data: _, uuid, services: _, index: _ } = due {
            if let ReplyView::Characteristics(Some(list)) = replies.last() {
                law_find_chara(list, uuid);
            }
        }
    }
}

/// How a low-energy sending begins: without a characteristic it fails as not found, without a
/// device as disconnected. A characteristic that is at hand is written to at once, with the
/// caller's data; one that is not is looked for on the services, from the first on.
pub proof fn law_sending_begins(s: ImpState, data: Seq<u8>, characteristic: Option<Uuid>)
    requires
        s.connect_type == ConnectType::BLE,
        s.platform != Platform::Android,
    ensures
        ({
            let begin = send_begin(s, data, characteristic);
            match meant(characteristic, default_sent(s)) {
                None => begin == Sending::<Seq<u8>, Seq<BluestService>>::Finished(
                    Err(SendError::BleCharaNotFound),
                ),
                Some(uuid) => {
                    let connected = s.device is Some;
                    let at_hand = s.cache.contains_key(uuid.0);
                    &&& !connected ==> begin == Sending::<Seq<u8>, Seq<BluestService>>::Finished(
                        Err(SendError::Disconnected),
                    )
                    &&& connected && at_hand ==> begin == (Sending::<
                        Seq<u8>,
                        Seq<BluestService>,
                    >::BleWrite { chara: s.cache[uuid.0], data })
                    &&& connected && !at_hand ==> match s.services {
                        None => begin == Sending::<Seq<u8>, Seq<BluestService>>::Finished(
                            Err(SendError::Disconnected),
                        ),
                        Some(services) => if services.len() == 0 {
                            begin == Sending::<Seq<u8>, Seq<BluestService>>::Finished(
                                Err(SendError::BleCharaNotFound),
                            )
                        } else {
                            begin == (Sending::<Seq<u8>, Seq<BluestService>>::BleDiscover {
                                data,
                                uuid,
                                services,
                                index: 0,
                            })
                        },
                    }
                },
            }
        }),
{
}

/// The driver has listed this characteristic.
pub open spec fn sending_listed(chara: Characteristic) -> spec_fn(SendView, ReplyView) -> bool {
    |due: SendView, reply: ReplyView|
        due is BleDiscover && (reply matches ReplyView::Characteristics(Some(list))
            && list.contains(chara))
}

/// What is written to is the very characteristic that was at hand, or one that a service has
/// listed meanwhile. What was remembered stays, and only what was looked for joins it.
pub proof fn law_what_is_written_to(
    s: ImpState,
    data: Seq<u8>,
    characteristic: Option<Uuid>,
    replies: Seq<ReplyView>,
)
    ensures
        ({
            let begin = send_begin(s, data, characteristic);
            let (after, due) = send_run(s, begin, replies);
            &&& due matches Sending::BleWrite { chara, data: _ } ==> {
                ||| s.cache.contains_value(chara)
                ||| send_saw(s, begin, replies, sending_listed(chara))
            }
            &&& forall|k: u128| #[trigger]
                s.cache.contains_key(k) ==> after.cache.contains_key(k) && after.cache[k]
                    == s.cache[k]
            &&& forall|k: u128| #[trigger]
                after.cache.contains_key(k) && !s.cache.contains_key(k) ==> meant(
                    characteristic,
                    default_sent(s),
                ) == Some(Uuid(k))
        }),
{
    lemma_what_is_written_to(s, data, characteristic, replies);
}

proof fn lemma_what_is_written_to(
    s: ImpState,
    data: Seq<u8>,
    characteristic: Option<Uuid>,
    replies: Seq<ReplyView>,
)
    ensures
        ({
            let begin = send_begin(s, data, characteristic);
            let (after, due) = send_run(s, begin, replies);
            let target = meant(characteristic, default_sent(s));
            &&& due matches Sending::BleWrite { chara, data: _ } ==> {
                ||| s.cache.contains_value(chara)
                ||| send_saw(s, begin, replies, sending_listed(chara))
            }
            &&& due matches Sending::BleDiscover { data: _, uuid, services: _, index: _ } ==> Some(
                uuid,
            ) == target && !s.cache.contains_key(uuid.0) && after.cache == s.cache
            &&& forall|k: u128| #[trigger]
                s.cache.contains_key(k) ==> after.cache.contains_key(k) && after.cache[k]
                    == s.cache[k]
            &&& forall|k: u128| #[trigger]
                after.cache.contains_key(k) && !s.cache.contains_key(k) ==> target == Some(Uuid(k))
        }),
    decreases replies.len(),
{
    if replies.len() > 0 {
        lemma_what_is_written_to(s, data, characteristic, replies.drop_last());
        let due = send_run(s, send_begin(s, data, characteristic), replies.drop_last()).1;
        if let Sending::BleDiscover { data: _, uuid, services: _, index: _ } = due {
            if let ReplyView::Characteristics(Some(list)) = replies.last() {
                law_find_chara(list, uuid);
                if let Some(found) = find_chara(list, uuid) {
                    assert(list.contains(found));
                }
            }
        }
    }
}

// ---- Subscribing ----

/// Whether a step was answered on the way in the manner of an event.
pub open spec fn subscribe_saw(
    s: ImpState,
    step: SubscribeView,
    replies: Seq<ReplyView>,
    event: spec_fn(SubscribeView, ReplyView) -> bool,
) -> bool
    decreases replies.len(),
{
    replies.len() > 0 && {
        ||| subscribe_saw(s, step, replies.drop_last(), event)
        ||| event(subscribe_run(s, step, replies.drop_last()).1, replies.last())
    }
}

/// The notifications of a characteristic with this identifier are passed on.
pub open spec fn notifications_begun(target: Option<Uuid>) -> spec_fn(
    SubscribeView,
    ReplyView,
) -> bool {
    |due: SubscribeView, reply: ReplyView|
        due matches Subscribe::BleNotify { chara } && Some(chara.uuid) == target
}

/// The classic transport was handed the listener.
pub open spec fn listener_handed() -> spec_fn(SubscribeView, ReplyView) -> bool {
    |due: SubscribeView, reply: ReplyView| due is SppSetListener && reply == ReplyView::Flag(true)
}

/// The classic transport passes data on.
pub open spec fn transport_started() -> spec_fn(SubscribeView, ReplyView) -> bool {
    |due: SubscribeView, reply: ReplyView| due is SppStart && reply == ReplyView::Flag(true)
}

/// The classic transport is missing, or does not do what it is asked for.
pub open spec fn transport_refused() -> spec_fn(SubscribeView, ReplyView) -> bool {
    |due: SubscribeView, reply: ReplyView|
        (due is SppLookUpApp || due is SppSetListener || due is SppStart) && reply
            == ReplyView::Flag(false)
}

/// Over the classic transport, subscribing succeeds exactly where the transport has taken the
/// listener and then begun to pass data on, and fails exactly where it is missing or refuses.
pub proof fn law_classic_subscription(
    s: ImpState,
    characteristic: Option<Uuid>,
    replies: Seq<ReplyView>,
)
    requires
        s.connect_type == ConnectType::SPP,
    ensures
        ({
            let begin = subscribe_begin(s, characteristic);
            let due = subscribe_run(s, begin, replies).1;
            &&& (due matches Subscribe::Finished(Ok(_))) <==> subscribe_saw(
                s,
                begin,
                replies,
                transport_started(),
            )
            &&& due matches Subscribe::Finished(Ok(_)) ==> subscribe_saw(
                s,
                begin,
                replies,
                listener_handed(),
            )
            &&& (due matches Subscribe::Finished(Err(_))) <==> subscribe_saw(
                s,
                begin,
                replies,
                transport_refused(),
            )
            &&& due matches Subscribe::Finished(Err(error)) ==> error
                == SubscribeError::Disconnected
        }),
{
    lemma_classic_subscription(s, characteristic, replies);
}

proof fn lemma_classic_subscription(
    s: ImpState,
    characteristic: Option<Uuid>,
    replies: Seq<ReplyView>,
)
    requires
        s.connect_type == ConnectType::SPP,
    ensures
        ({
            let begin = subscribe_begin(s, characteristic);
            let due = subscribe_run(s, begin, replies).1;
            let handed = subscribe_saw(s, begin, replies, listener_handed());
            let started = subscribe_saw(s, begin, replies, transport_started());
            let refused = subscribe_saw(s, begin, replies, transport_refused());
            match due {
                Subscribe::SppLookUpApp => !started && !refused,
                Subscribe::SppSetListener => !started && !refused,
                Subscribe::SppStart => handed && !started && !refused,
                Subscribe::Finished(Ok(_)) => handed && started && !refused,
                Subscribe::Finished(Err(error)) => !started && refused && error
                    == SubscribeError::Disconnected,
                _ => false,
            }
        }),
    decreases replies.len(),
{
    if replies.len() > 0 {
        lemma_classic_subscription(s, characteristic, replies.drop_last());
    }
}

/// How a low-energy subscribing begins: without a characteristic it fails as not found, without a
/// device as disconnected. A characteristic that is at hand is subscribed to at once; one that is
/// not is looked for on the services, from the first on.
pub proof fn law_subscribing_begins(s: ImpState, characteristic: Option<Uuid>)
    requires
        s.connect_type == ConnectType::BLE,
        s.platform != Platform::Android,
    ensures
        ({
            let begin = subscribe_begin(s, characteristic);
            match meant(characteristic, default_recv(s)) {
                None => begin == Subscribe::<Seq<BluestService>>::Finished(
                    Err(SubscribeError::BleCharaNotFound),
                ),
                Some(uuid) => {
                    let connected = s.device is Some;
                    let at_hand = s.cache.contains_key(uuid.0);
                    &&& !connected ==> begin == Subscribe::<Seq<BluestService>>::Finished(
                        Err(SubscribeError::Disconnected),
                    )
                    &&& connected && at_hand ==> begin == (Subscribe::<
                        Seq<BluestService>,
                    >::BleNotify { chara: s.cache[uuid.0] })
                    &&& connected && !at_hand ==> match s.services {
                        None => begin == Subscribe::<Seq<BluestService>>::Finished(
                            Err(SubscribeError::Disconnected),
                        ),
                        Some(services) => if services.len() == 0 {
                            begin == Subscribe::<Seq<BluestService>>::Finished(
                                Err(SubscribeError::BleCharaNotFound),
                            )
                        } else {
                            begin == (Subscribe::<Seq<BluestService>>::BleDiscover {
                                uuid,
                                services,
                                index: 0,
                            })
                        },
                    }
                },
            }
        }),
{
}

/// The characteristic with this identifier was read.
pub open spec fn service_read(uuid: Uuid) -> spec_fn(SubscribeView, ReplyView) -> bool {
    |due: SubscribeView, reply: ReplyView|
        due matches Subscribe::BleReadService { chara } && chara.uuid == uuid
}

/// A low-energy subscribing succeeds exactly where it gets to passing on the notifications of the
/// characteristic that the caller names or else of the default one, and is done with the service
/// characteristic. Where that one is at hand, it was read, and no other is ever read.
pub proof fn law_low_energy_subscription(
    s: ImpState,
    characteristic: Option<Uuid>,
    replies: Seq<ReplyView>,
)
    requires
        well_formed(s),
        s.connect_type == ConnectType::BLE,
    ensures
        ({
            let begin = subscribe_begin(s, characteristic);
            let due = subscribe_run(s, begin, replies).1;
            let target = meant(characteristic, default_recv(s));
            let begun = subscribe_saw(s, begin, replies, notifications_begun(target));
            &&& due matches Subscribe::Finished(Ok(_)) ==> begun
            &&& begun ==> !(due matches Subscribe::Finished(Err(_)))
            &&& due matches Subscribe::BleNotify { chara } ==> Some(chara.uuid) == target
            &&& due matches Subscribe::BleReadService { chara } ==> begun && default_service(s)
                == Some(chara.uuid)
            &&& due matches Subscribe::Finished(Ok(_)) ==> (default_service(s) matches Some(uuid)
                ==> (s.cache.contains_key(uuid.0) ==> subscribe_saw(
                s,
                begin,
                replies,
                service_read(uuid),
            )))
        }),
{
    lemma_low_energy_subscription(s, characteristic, replies);
}

proof fn lemma_low_energy_subscription(
    s: ImpState,
    characteristic: Option<Uuid>,
    replies: Seq<ReplyView>,
)
    requires
        well_formed(s),
        s.connect_type == ConnectType::BLE,
    ensures
        ({
            let begin = subscribe_begin(s, characteristic);
            let (after, due) = subscribe_run(s, begin, replies);
            let target = meant(characteristic, default_recv(s));
            let begun = subscribe_saw(s, begin, replies, notifications_begun(target));
            let service = default_service(s);
            &&& well_formed(after)
            &&& after.bundle == s.bundle
            &&& after.platform == s.platform
            &&& forall|k: u128| #[trigger]
                s.cache.contains_key(k) ==> after.cache.contains_key(k)
            &&& s.platform == Platform::Android ==> (due matches Subscribe::Finished(Err(_)))
            &&& match due {
                Subscribe::BleDiscover { uuid, services: _, index: _ } => Some(uuid) == target
                    && !begun,
                Subscribe::BleNotify { chara } => Some(chara.uuid) == target && !begun,
                Subscribe::BleDiscoverService { uuid, services: _, index: _ } => begun && service
                    == Some(uuid) && !s.cache.contains_key(uuid.0),
                Subscribe::BleReadService { chara } => begun && service == Some(chara.uuid),
                Subscribe::Finished(Ok(_)) => begun && (service matches Some(uuid) ==> (
                s.cache.contains_key(uuid.0) ==> subscribe_saw(
                    s,
                    begin,
                    replies,
                    service_read(uuid),
                ))),
                Subscribe::Finished(Err(_)) => !begun,
                _ => false,
            }
        }),
    decreases replies.len(),
{
    if replies.len() > 0 {
        lemma_low_energy_subscription(s, characteristic, replies.drop_last());
        let (before, due) = subscribe_run(
            s,
            subscribe_begin(s, characteristic),
            replies.drop_last(),
        );
        crate::stdimp::laws::law_subscribe_keeps_well_formed(before, due, replies.last());
        if let ReplyView::Characteristics(Some(list)) = replies.last() {
            if let Subscribe::BleDiscover { uuid, services: _, index: _ } = due {
                law_find_chara(list, uuid);
            }
            if let Subscribe::BleDiscoverService { uuid, services: _, index: _ } = due {
                law_find_chara(list, uuid);
            }
        }
    }
}

/// Once the notifications are passed on, the service characteristic is read where it is at hand,
/// and else looked for on the services, from the first on.
pub proof fn law_service_characteristic_is_read(
    s: ImpState,
    chara: Characteristic,
    reply: ReplyView,
)
    requires
        s.platform != Platform::Android,
    ensures
        ({
            let (after, due) = subscribe_next(s, Subscribe::BleNotify { chara }, reply);
            &&& after == s
            &&& due == match default_service(s) {
                None => Subscribe::<Seq<BluestService>>::Finished(Ok(())),
                Some(uuid) => if s.cache.contains_key(uuid.0) {
                    Subscribe::BleReadService { chara: s.cache[uuid.0] }
                } else {
                    match s.services {
                        None => Subscribe::Finished(Ok(())),
                        Some(services) => if services.len() == 0 {
                            Subscribe::Finished(Ok(()))
                        } else {
                            Subscribe::BleDiscoverService { uuid, services, index: 0 }
                        },
                    }
                },
            }
        }),
{
}

proof fn lemma_subscribe_front(
    s: ImpState,
    step: SubscribeView,
    first: ReplyView,
    rest: Seq<ReplyView>,
)
    ensures
        subscribe_run(s, step, seq![first] + rest) == subscribe_run(
            subscribe_next(s, step, first).0,
            subscribe_next(s, step, first).1,
            rest,
        ),
    decreases rest.len(),
{
    let all = seq![first] + rest;
    if rest.len() == 0 {
        assert(all.drop_last() =~= Seq::empty());
        reveal_with_fuel(subscribe_run, 2);
    } else {
        assert(all.drop_last() =~= seq![first] + rest.drop_last());
        assert(all.last() == rest.last());
        lemma_subscribe_front(s, step, first, rest.drop_last());
    }
}

/// Looking for the service characteristic goes through the services as every lookup does: it is
/// read where it is found, and else subscribing has succeeded without it.
pub proof fn law_service_characteristic_is_looked_for(
    s: ImpState,
    uuid: Uuid,
    services: Seq<BluestService>,
    index: usize,
    answers: spec_fn(BluestService) -> Option<Seq<Characteristic>>,
)
    requires
        index < services.len() <= usize::MAX,
    ensures
        ({
            let replies = lookup_listings(uuid, services, index as int, answers);
            let due = subscribe_run(
                s,
                Subscribe::BleDiscoverService { uuid, services, index },
                replies,
            ).1;
            due == match lookup_outcome(uuid, services, index as int, answers) {
                Ok(chara) => Subscribe::<Seq<BluestService>>::BleReadService { chara },
                Err(_) => Subscribe::Finished(Ok(())),
            }
        }),
    decreases services.len() - index,
{
    let step = Subscribe::BleDiscoverService { uuid, services, index };
    let answer = answers(services[index as int]);
    let goes_on = answer matches Some(list) && find_chara(list, uuid) is None;
    let rest = if goes_on {
        lookup_listings(uuid, services, index + 1, answers)
    } else {
        Seq::empty()
    };
    lemma_subscribe_front(s, step, ReplyView::Characteristics(answer), rest);
    reveal_with_fuel(lookup_outcome, 2);
    if goes_on && index + 1 < services.len() {
        law_service_characteristic_is_looked_for(
            s,
            uuid,
            services,
            (index + 1) as usize,
            answers,
        );
    }
}

/// What a lookup leaves behind: the characteristic that was found is remembered under its
/// identifier, and nothing else has changed; where none was found, nothing has.
pub proof fn law_lookup_remembers_what_it_finds(
    s: ImpState,
    uuid: Uuid,
    services: Seq<BluestService>,
    index: usize,
    answers: spec_fn(BluestService) -> Option<Seq<Characteristic>>,
)
    requires
        index < services.len() <= usize::MAX,
    ensures
        lookup_to_end(s, Lookup::Discover { uuid, services, index }, answers).0
            == match lookup_outcome(uuid, services, index as int, answers) {
            Ok(found) => ImpState { cache: s.cache.insert(uuid.0, found), ..s },
            Err(_) => s,
        },
    decreases services.len() - index,
{
    if index + 1 < services.len() {
        law_lookup_remembers_what_it_finds(s, uuid, services, (index + 1) as usize, answers);
    }
    reveal_with_fuel(lookup_outcome, 2);
    reveal_with_fuel(lookup_to_end, 2);
}

// ---- Disconnecting ----

/// Whether a step was answered on the way in the manner of an event.
pub open spec fn disconnect_saw(
    s: ImpState,
    step: DisconnectStep,
    replies: Seq<ReplyView>,
    event: spec_fn(DisconnectStep, ReplyView) -> bool,
) -> bool
    decreases replies.len(),
{
    replies.len() > 0 && {
        ||| disconnect_saw(s, step, replies.drop_last(), event)
        ||| event(disconnect_run(s, step, replies.drop_last()).1, replies.last())
    }
}

/// The driver was told to disconnect this device, and has done so or not.
pub open spec fn told_to_disconnect(device: BluestDevice, done: bool) -> spec_fn(
    DisconnectStep,
    ReplyView,
) -> bool {
    |due: DisconnectStep, reply: ReplyView|
        due == (DisconnectStep::BleDisconnectDevice { device }) && reply == ReplyView::Flag(done)
}

/// The radio is at hand: a lookup of it was answered by yes.
pub open spec fn disconnect_radio() -> spec_fn(DisconnectStep, ReplyView) -> bool {
    |due: DisconnectStep, reply: ReplyView|
        due matches DisconnectStep::BleAdapter { device: _, step } && (step is LookUp || step
            is LookUpAgain) && reply == ReplyView::Flag(true)
}

/// The device that a low-energy disconnecting deals with is the connected one and no other. Where
/// there is one, disconnecting succeeds exactly where the driver was told to disconnect that very
/// device and has done so, with the radio at hand.
pub proof fn law_the_connected_device_is_disconnected(s: ImpState, replies: Seq<ReplyView>)
    requires
        s.connect_type == ConnectType::BLE,
    ensures
        ({
            let (begun, first) = disconnect_begin(s);
            let due = disconnect_run(begun, first, replies).1;
            &&& due matches DisconnectStep::BleDisconnectDevice { device } ==> s.device == Some(
                device,
            ) && disconnect_saw(begun, first, replies, disconnect_radio())
            &&& due matches DisconnectStep::BleAdapter { device, step: _ } ==> s.device == Some(
                device,
            )
            &&& s.platform != Platform::Android ==> (s.device matches Some(device) ==> {
                &&& (due matches DisconnectStep::Finished(Ok(_))) <==> disconnect_saw(
                    begun,
                    first,
                    replies,
                    told_to_disconnect(device, true),
                )
                &&& disconnect_saw(begun, first, replies, told_to_disconnect(device, false)) ==> (
                due matches DisconnectStep::Finished(Err(_)))
            })
            &&& s.device is None ==> (first matches DisconnectStep::Finished(Ok(_)))
        }),
{
    lemma_disconnect_history(s, replies);
}

proof fn lemma_disconnect_history(s: ImpState, replies: Seq<ReplyView>)
    requires
        s.connect_type == ConnectType::BLE,
    ensures
        ({
            let (begun, first) = disconnect_begin(s);
            let due = disconnect_run(begun, first, replies).1;
            let tracked_device = s.device is Some && s.platform != Platform::Android;
            let yes = disconnect_saw(
                begun,
                first,
                replies,
                told_to_disconnect(s.device->0, true),
            );
            let no = disconnect_saw(
                begun,
                first,
                replies,
                told_to_disconnect(s.device->0, false),
            );
            match due {
                DisconnectStep::BleAdapter { device, step } => s.device == Some(device) && !yes
                    && !no && !(step is Finished),
                DisconnectStep::BleDisconnectDevice { device } => s.device == Some(device) && !yes
                    && !no && disconnect_saw(begun, first, replies, disconnect_radio()),
                DisconnectStep::Finished(Ok(_)) => tracked_device ==> yes && !no,
                DisconnectStep::Finished(Err(_)) => !yes,
                _ => false,
            }
        }),
    decreases replies.len(),
{
    if replies.len() > 0 {
        lemma_disconnect_history(s, replies.drop_last());
    }
}

/// The classic transport has closed its connection.
pub open spec fn classic_closed() -> spec_fn(DisconnectStep, ReplyView) -> bool {
    |due: DisconnectStep, reply: ReplyView| due is SppDisconnect && reply == ReplyView::Flag(true)
}

/// The classic transport is missing, or could not close its connection.
pub open spec fn classic_not_closed() -> spec_fn(DisconnectStep, ReplyView) -> bool {
    |due: DisconnectStep, reply: ReplyView|
        (due is SppLookUpApp || due is SppDisconnect) && reply == ReplyView::Flag(false)
}

/// Over the classic transport, disconnecting succeeds exactly where the transport has closed its
/// connection, and fails exactly where it is missing or could not.
pub proof fn law_classic_disconnect_result(s: ImpState, replies: Seq<ReplyView>)
    requires
        s.connect_type == ConnectType::SPP,
    ensures
        ({
            let (begun, first) = disconnect_begin(s);
            let due = disconnect_run(begun, first, replies).1;
            &&& (due matches DisconnectStep::Finished(Ok(_))) <==> disconnect_saw(
                begun,
                first,
                replies,
                classic_closed(),
            )
            &&& (due matches DisconnectStep::Finished(Err(_))) <==> disconnect_saw(
                begun,
                first,
                replies,
                classic_not_closed(),
            )
        }),
{
    lemma_classic_disconnect(s, replies);
}

proof fn lemma_classic_disconnect(s: ImpState, replies: Seq<ReplyView>)
    requires
        s.connect_type == ConnectType::SPP,
    ensures
        ({
            let (begun, first) = disconnect_begin(s);
            let due = disconnect_run(begun, first, replies).1;
            let yes = disconnect_saw(begun, first, replies, classic_closed());
            let no = disconnect_saw(begun, first, replies, classic_not_closed());
            match due {
                DisconnectStep::SppLookUpApp => !yes && !no,
                DisconnectStep::SppDisconnect => !yes && !no,
                DisconnectStep::Finished(Ok(_)) => yes && !no,
                DisconnectStep::Finished(Err(_)) => !yes && no,
                _ => false,
            }
        }),
    decreases replies.len(),
{
    if replies.len() > 0 {
        lemma_classic_disconnect(s, replies.drop_last());
    }
}

/// Forgetting the connection leaves no device, services, characteristics or defaults, and
/// everything else as it is.
pub proof fn law_cleared(s: ImpState)
    ensures
        cleared(s).device is None,
        cleared(s).services is None,
        forall|k: u128| !cleared(s).cache.contains_key(k),
        cleared(s).bundle is None,
        cleared(s).connect_type == s.connect_type,
        cleared(s).platform == s.platform,
        cleared(s).scanned == s.scanned,
        cleared(s).listener == s.listener,
        cleared(s).session == s.session,
        cleared(s).scan_seq == s.scan_seq,
        cleared(s).results == s.results,
{
}

// ---- The listener ----

/// Over the classic transport, the listener that is handed to the transport is the caller's, and
/// it is handed over whenever the transport is at hand.
pub proof fn law_classic_listener_is_registered(s: ImpState, listener: Listener, reply: ReplyView)
    requires
        s.connect_type == ConnectType::SPP,
    ensures
        listener_begin(s, listener).0 == s,
        listener_next(listener_begin(s, listener).1, ReplyView::Flag(true))
            == (ListenerStep::SppRegister { listener }),
        listener_next(listener_begin(s, listener).1, ReplyView::Flag(false)) is Finished,
        listener_next(ListenerStep::SppRegister { listener }, reply) is Finished,
{
}

// ---- What all operations share ----

/// On Android nothing can be done over low energy: every operation fails at once and changes
/// nothing, but for disconnecting, which succeeds.
pub proof fn law_android_has_no_low_energy(
    s: ImpState,
    addr: Seq<char>,
    data: Seq<u8>,
    characteristic: Option<Uuid>,
)
    requires
        s.connect_type == ConnectType::BLE,
        s.platform == Platform::Android,
    ensures
        start_scan_begin(s).0 == s,
        start_scan_begin(s).1 matches StartScan::Finished(Err(ScanError::AdapterNotFound)),
        connect_begin(s, addr) matches Connect::Finished(Err(ConnectError::DeviceNotFound)),
        send_begin(s, data, characteristic) matches Sending::Finished(Err(SendError::Disconnected)),
        subscribe_begin(s, characteristic) matches Subscribe::Finished(
            Err(SubscribeError::Disconnected),
        ),
        disconnect_begin(s).1 matches DisconnectStep::Finished(Ok(_)),
{
}

/// Every operation obtains the radio in the same way: an answer that does not end that leads to
/// the same step of it, and nothing else happens meanwhile.
pub proof fn law_radio_is_obtained_alike(
    s: ImpState,
    addr: Seq<char>,
    device: BluestDevice,
    step: AdapterStep,
    yes: bool,
)
    requires
        !(adapter_next(step, yes) is Finished),
    ensures
        start_scan_next(s, StartScan::BleAdapter { step }, ReplyView::Flag(yes)) == (
            s,
            StartScan::<Seq<crate::btinterface::DeviceEntry>>::BleAdapter {
                step: adapter_next(step, yes),
            },
        ),
        connect_next(s, Connect::BleAdapter { addr, step }, ReplyView::Flag(yes)) == (
            s,
            Connect::<Seq<char>, Seq<BluestService>>::BleAdapter {
                addr,
                step: adapter_next(step, yes),
            },
        ),
        disconnect_next(s, DisconnectStep::BleAdapter { device, step }, ReplyView::Flag(yes)) == (
            s,
            DisconnectStep::BleAdapter { device, step: adapter_next(step, yes) },
        ),
{
}

// ---- What is subscribed to ----

/// The driver has listed this characteristic.
pub open spec fn subscribing_listed(chara: Characteristic) -> spec_fn(
    SubscribeView,
    ReplyView,
) -> bool {
    |due: SubscribeView, reply: ReplyView|
        (due is BleDiscover || due is BleDiscoverService) && (reply
            matches ReplyView::Characteristics(Some(list)) && list.contains(chara))
}

/// What is subscribed to or read is the very characteristic that was at hand, or one that a
/// service has listed meanwhile. What was remembered stays.
pub proof fn law_what_is_subscribed_to(
    s: ImpState,
    characteristic: Option<Uuid>,
    replies: Seq<ReplyView>,
)
    ensures
        ({
            let begin = subscribe_begin(s, characteristic);
            let (after, due) = subscribe_run(s, begin, replies);
            let known = |chara: Characteristic|
                s.cache.contains_value(chara) || subscribe_saw(
                    s,
                    begin,
                    replies,
                    subscribing_listed(chara),
                );
            &&& due matches Subscribe::BleNotify { chara } ==> known(chara)
            &&& due matches Subscribe::BleReadService { chara } ==> known(chara)
            &&& forall|k: u128| #[trigger]
                s.cache.contains_key(k) ==> after.cache.contains_key(k) && after.cache[k]
                    == s.cache[k]
        }),
{
    lemma_what_is_subscribed_to(s, characteristic, replies);
}

proof fn lemma_what_is_subscribed_to(
    s: ImpState,
    characteristic: Option<Uuid>,
    replies: Seq<ReplyView>,
)
    ensures
        ({
            let begin = subscribe_begin(s, characteristic);
            let (after, due) = subscribe_run(s, begin, replies);
            &&& forall|k: u128| #[trigger]
                after.cache.contains_key(k) ==> s.cache.contains_value(after.cache[k])
                    || subscribe_saw(s, begin, replies, subscribing_listed(after.cache[k]))
            &&& forall|k: u128| #[trigger]
                s.cache.contains_key(k) ==> after.cache.contains_key(k) && after.cache[k]
                    == s.cache[k]
            &&& match due {
                Subscribe::BleNotify { chara } => s.cache.contains_value(chara) || subscribe_saw(
                    s,
                    begin,
                    replies,
                    subscribing_listed(chara),
                ),
                Subscribe::BleReadService { chara } => s.cache.contains_value(chara)
                    || subscribe_saw(s, begin, replies, subscribing_listed(chara)),
                Subscribe::BleDiscover { uuid, services: _, index: _ } => !after.cache.contains_key(
                    uuid.0,
                ),
                Subscribe::BleDiscoverService { uuid, services: _, index: _ } => {
                    !after.cache.contains_key(uuid.0)
                },
                _ => true,
            }
        }),
    decreases replies.len(),
{
    let begin = subscribe_begin(s, characteristic);
    if replies.len() == 0 {
        assert forall|k: u128| #[trigger]
            s.cache.contains_key(k) implies s.cache.contains_value(s.cache[k]) by {}
    } else {
        lemma_what_is_subscribed_to(s, characteristic, replies.drop_last());
        let due = subscribe_run(s, begin, replies.drop_last()).1;
        if let ReplyView::Characteristics(Some(list)) = replies.last() {
            if let Subscribe::BleDiscover { uuid, services: _, index: _ } = due {
                law_find_chara(list, uuid);
                if let Some(found) = find_chara(list, uuid) {
                    assert(list.contains(found));
                }
            }
            if let Subscribe::BleDiscoverService { uuid, services: _, index: _ } = due {
                law_find_chara(list, uuid);
                if let Some(found) = find_chara(list, uuid) {
                    assert(list.contains(found));
                }
            }
        }
    }
}

} // verus!
