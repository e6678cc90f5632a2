//! How characteristics are found on a connected peripheral.
use vstd::prelude::*;

use crate::ble::{uuid_contains, BluestService, Characteristic, Uuid};
#[allow(unused_imports)]
use crate::ble::uuid_has;
use crate::btinterface::{ConnectError, SubscribeError};
use crate::driver::Platform;
use crate::stdimp::{BleCharacteristicBundle, StdImp};
#[allow(unused_imports)]
use crate::stdimp::ImpState;

verus! {

/// What the identifier of the Xiaomi service contains.
pub const BLE_UUID_KEYWORD_XIAOMI: &'static str = "fe95";

pub const BLE_UUID_KEYWORD_XIAOMI_SERVICE: &'static str = "0050";

pub const BLE_UUID_KEYWORD_XIAOMI_SENT: &'static str = "005f";

pub const BLE_UUID_KEYWORD_XIAOMI_RECV: &'static str = "005e";

/// What a characteristic of the Xiaomi service is for.
#[derive(Debug, Clone, Copy, PartialEq, Eq, Structural)]
pub enum Role {
    Recv,
    Sent,
    Service,
    Other,
}

/// The role of a characteristic: the first of the three keywords that its identifier contains
/// decides.
pub open spec fn role_of(uuid: Uuid) -> Role {
    if uuid_has(uuid, BLE_UUID_KEYWORD_XIAOMI_RECV@) {
        Role::Recv
    } else if uuid_has(uuid, BLE_UUID_KEYWORD_XIAOMI_SENT@) {
        Role::Sent
    } else if uuid_has(uuid, BLE_UUID_KEYWORD_XIAOMI_SERVICE@) {
        Role::Service
    } else {
        Role::Other
    }
}

/// The last characteristic of a list that has a role, or `before` where none has it.
pub open spec fn last_in_role(chars: Seq<Characteristic>, role: Role, before: Option<Uuid>) -> Option<
    Uuid,
>
    decreases chars.len(),
{
    if chars.len() == 0 {
        before
    } else if role_of(chars.last().uuid) == role {
        Some(chars.last().uuid)
    } else {
        last_in_role(chars.drop_last(), role, before)
    }
}

/// The bundle once a list of characteristics has been gone through.
pub open spec fn bundle_with(
    bundle: BleCharacteristicBundle,
    chars: Seq<Characteristic>,
) -> BleCharacteristicBundle {
    BleCharacteristicBundle {
        service: last_in_role(chars, Role::Service, bundle.service),
        recv: last_in_role(chars, Role::Recv, bundle.recv),
        sent: last_in_role(chars, Role::Sent, bundle.sent),
    }
}

/// The cache once every characteristic of a list has been put into it.
pub open spec fn cache_with(
    cache: Map<u128, Characteristic>,
    chars: Seq<Characteristic>,
) -> Map<u128, Characteristic>
    decreases chars.len(),
{
    if chars.len() == 0 {
        cache
    } else {
        cache_with(cache, chars.drop_last()).insert(chars.last().uuid.0, chars.last())
    }
}

/// The bundle in which nothing has been found yet.
pub open spec fn empty_bundle() -> BleCharacteristicBundle {
    BleCharacteristicBundle { service: None, recv: None, sent: None }
}

/// Whether a service is the Xiaomi service.
pub open spec fn is_xiaomi(service: BluestService) -> bool {
    uuid_has(service.uuid, BLE_UUID_KEYWORD_XIAOMI@)
}

/// The position of the first Xiaomi service from `from` on; the length of the list where there
/// is none.
pub open spec fn next_xiaomi(services: Seq<BluestService>, from: int) -> int
    decreases services.len() - from,
{
    if from >= services.len() {
        services.len() as int
    } else if is_xiaomi(services[from]) {
        from
    } else {
        next_xiaomi(services, from + 1)
    }
}

/// Looking for the default characteristics on the services of a peripheral.
#[derive(Debug, Clone, Copy)]
pub enum ExtractStep {
    /// List the characteristics of the service at position `index`.
    Discover { index: usize, bundle: BleCharacteristicBundle },
    Finished(Result<(), ConnectError>),
}

/// Going on with the services from position `from`: the next Xiaomi service is asked for its
/// characteristics. Behind the last of them the bundle becomes the default, where it has a
/// characteristic for each direction; else the peripheral is not one to talk to.
pub open spec fn extract_from(
    s: ImpState,
    services: Seq<BluestService>,
    from: int,
    bundle: BleCharacteristicBundle,
) -> (ImpState, ExtractStep) {
    let index = next_xiaomi(services, from);
    if index < services.len() {
        (s, ExtractStep::Discover { index: index as usize, bundle })
    } else if bundle.recv is None || bundle.sent is None {
        (s, ExtractStep::Finished(Err(ConnectError::TargetRejected)))
    } else {
        (ImpState { bundle: Some(bundle), ..s }, ExtractStep::Finished(Ok(())))
    }
}

/// What follows the list of the characteristics of the service at position `index`; `None` says
/// that they could not be listed.
pub open spec fn extract_next(
    s: ImpState,
    services: Seq<BluestService>,
    index: int,
    bundle: BleCharacteristicBundle,
    chars: Option<Seq<Characteristic>>,
) -> (ImpState, ExtractStep) {
    match chars {
        None => (s, ExtractStep::Finished(Err(ConnectError::TargetRejected))),
        Some(list) => extract_from(
            ImpState { cache: cache_with(s.cache, list), ..s },
            services,
            index + 1,
            bundle_with(bundle, list),
        ),
    }
}

/// The role of a characteristic.
pub fn role(uuid: &Uuid) -> (r: Role)
    ensures
        r == role_of(*uuid),
{
    if uuid_contains(uuid, BLE_UUID_KEYWORD_XIAOMI_RECV) {
        Role::Recv
    } else if uuid_contains(uuid, BLE_UUID_KEYWORD_XIAOMI_SENT) {
        Role::Sent
    } else if uuid_contains(uuid, BLE_UUID_KEYWORD_XIAOMI_SERVICE) {
        Role::Service
    } else {
        Role::Other
    }
}

/// The first characteristic of a list that has an identifier.
pub open spec fn find_chara(chars: Seq<Characteristic>, uuid: Uuid) -> Option<Characteristic>
    decreases chars.len(),
{
    if chars.len() == 0 {
        None
    } else if chars.first().uuid == uuid {
        Some(chars.first())
    } else {
        find_chara(chars.drop_first(), uuid)
    }
}

/// Looking for one characteristic. `L` is a list of services.
#[derive(Debug)]
pub enum Lookup<L> {
    /// List the characteristics of the service at position `index`.
    Discover { uuid: Uuid, services: L, index: usize },
    Finished(Result<Characteristic, SubscribeError>),
}

pub type LookupStep = Lookup<Vec<BluestService>>;

pub type LookupView = Lookup<Seq<BluestService>>;

impl View for Lookup<Vec<BluestService>> {
    type V = Lookup<Seq<BluestService>>;

    open spec fn view(&self) -> Lookup<Seq<BluestService>> {
        match *self {
            Lookup::Discover { uuid, services, index } => Lookup::Discover {
                uuid,
                services: services@,
                index,
            },
            Lookup::Finished(result) => Lookup::Finished(result),
        }
    }
}

/// Going on with the service at position `index`. Behind the last one the characteristic is not
/// found.
pub open spec fn lookup_at(uuid: Uuid, services: Seq<BluestService>, index: int) -> LookupView {
    if index < services.len() {
        Lookup::Discover { uuid, services, index: index as usize }
    } else {
        Lookup::Finished(Err(SubscribeError::BleCharaNotFound))
    }
}

/// The first step of looking for a characteristic: one that was seen before is at hand, else
/// the services of the connected peripheral are gone through.
pub open spec fn lookup_begin(s: ImpState, uuid: Uuid) -> LookupView {
    if s.platform == Platform::Android {
        Lookup::Finished(Err(SubscribeError::BleCharaNotFound))
    } else if s.cache.contains_key(uuid.0) {
        Lookup::Finished(Ok(s.cache[uuid.0]))
    } else {
        match s.services {
            None => Lookup::Finished(Err(SubscribeError::Disconnected)),
            Some(services) => lookup_at(uuid, services, 0),
        }
    }
}

/// What follows the list of characteristics that was asked for; `None` says that they could not
/// be listed. A characteristic that is found is remembered.
pub open spec fn lookup_next(
    s: ImpState,
    step: LookupView,
    chars: Option<Seq<Characteristic>>,
) -> (ImpState, LookupView) {
    match step {
        Lookup::Discover { uuid, services, index } => match chars {
            None => (s, Lookup::Finished(Err(SubscribeError::Disconnected))),
            Some(list) => match find_chara(list, uuid) {
                Some(found) => (
                    ImpState { cache: s.cache.insert(uuid.0, found), ..s },
                    Lookup::Finished(Ok(found)),
                ),
                None => (s, lookup_at(uuid, services, index + 1)),
            },
        },
        Lookup::Finished(result) => (s, Lookup::Finished(result)),
    }
}

/// The first characteristic of a list that has an identifier.
fn first_with(chars: &Vec<Characteristic>, uuid: Uuid) -> (r: Option<Characteristic>)
    ensures
        r == find_chara(chars@, uuid),
{
    assert(chars@.skip(0) == chars@);
    for i in 0..chars.len()
        invariant
            find_chara(chars@, uuid) == find_chara(chars@.skip(i as int), uuid),
    {
        if chars[i].uuid == uuid {
            return Some(chars[i]);
        }
        assert(chars@.skip(i as int).drop_first() == chars@.skip(i + 1));
    }
    None
}

/// A copy of a list of services.
fn copy_services(list: &Vec<BluestService>) -> (r: Vec<BluestService>)
    ensures
        r@ == list@,
{
    let mut out: Vec<BluestService> = Vec::new();
    for i in 0..list.len()
        invariant
            out@ == list@.take(i as int),
    {
        out.push(list[i]);
        assert(list@.take(i + 1) == list@.take(i as int).push(list@[i as int]));
    }
    assert(list@.take(list@.len() as int) == list@);
    out
}

impl StdImp {
    /// The first step of looking for a characteristic on the connected peripheral.
    pub fn ble_get_or_discover_chara(&self, uuid: Uuid) -> (r: LookupStep)
        ensures
            r@ == lookup_begin(self@, uuid),
    {
        broadcast use vstd::std_specs::hash::group_hash_axioms;

        if self.platform == Platform::Android {
            return Lookup::Finished(Err(SubscribeError::BleCharaNotFound));
        }
        if let Some(found) = self.ble_chara_cache.get(&uuid.0) {
            return Lookup::Finished(Ok(*found));
        }
        match &self.ble_services {
            None => Lookup::Finished(Err(SubscribeError::Disconnected)),
            Some(list) => {
                let services = copy_services(list);
                if services.len() > 0 {
                    Lookup::Discover { uuid, services, index: 0 }
                } else {
                    Lookup::Finished(Err(SubscribeError::BleCharaNotFound))
                }
            },
        }
    }

    /// The step that follows when the driver has listed the characteristics of a service, or
    /// has failed to (`None`).
    pub fn ble_lookup_step(&mut self, step: LookupStep, chars: Option<Vec<Characteristic>>) -> (r:
        LookupStep)
        ensures
            (final(self)@, r@) == lookup_next(
                old(self)@,
                step@,
                match chars {
                    Some(list) => Some(list@),
                    None => None,
                },
            ),
    {
        broadcast use vstd::std_specs::hash::group_hash_axioms;

        match step {
            Lookup::Finished(result) => Lookup::Finished(result),
            Lookup::Discover { uuid, services, index } => match chars {
                None => Lookup::Finished(Err(SubscribeError::Disconnected)),
                Some(list) => match first_with(&list, uuid) {
                    Some(found) => {
                        self.ble_chara_cache.insert(uuid.0, found);
                        Lookup::Finished(Ok(found))
                    },
                    None => {
                        if index < services.len() && index + 1 < services.len() {
                            Lookup::Discover { uuid, services, index: index + 1 }
                        } else {
                            Lookup::Finished(Err(SubscribeError::BleCharaNotFound))
                        }
                    },
                },
            },
        }
    }

    /// Goes on with the services from position `from`.
    pub fn ble_extract_xiaomi_characteristics(
        &mut self,
        services: &Vec<BluestService>,
        from: usize,
        bundle: BleCharacteristicBundle,
    ) -> (r: ExtractStep)
        ensures
            (final(self)@, r) == extract_from(old(self)@, services@, from as int, bundle),
    {
        let mut index: usize = from;
        while index < services.len()
            invariant
                next_xiaomi(services@, from as int) == next_xiaomi(services@, index as int),
                self@ == old(self)@,
            decreases services@.len() - index,
        {
            if uuid_contains(&services[index].uuid, BLE_UUID_KEYWORD_XIAOMI) {
                return ExtractStep::Discover { index, bundle };
            }
            index = index + 1;
        }
        if bundle.recv.is_none() || bundle.sent.is_none() {
            return ExtractStep::Finished(Err(ConnectError::TargetRejected));
        }
        self.ble_char_bundle = Some(bundle);
        ExtractStep::Finished(Ok(()))
    }

    /// The step that follows when the driver has listed the characteristics of the service at
    /// position `index`, or has failed to (`None`).
    pub fn ble_extract_step(
        &mut self,
        services: &Vec<BluestService>,
        index: usize,
        bundle: BleCharacteristicBundle,
        chars: Option<Vec<Characteristic>>,
    ) -> (r: ExtractStep)
        ensures
            (final(self)@, r) == extract_next(
                old(self)@,
                services@,
                index as int,
                bundle,
                match chars {
                    Some(list) => Some(list@),
                    None => None,
                },
            ),
    {
        match chars {
            None => ExtractStep::Finished(Err(ConnectError::TargetRejected)),
            Some(list) => {
                let found = self.ble_note_characteristics(&list, bundle);
                let next: usize = if index < services.len() {
                    index + 1
                } else {
                    index
                };
                self.ble_extract_xiaomi_characteristics(services, next, found)
            },
        }
    }

    /// Remembers the characteristics of a service, and puts those with a role into the bundle.
    fn ble_note_characteristics(
        &mut self,
        chars: &Vec<Characteristic>,
        bundle: BleCharacteristicBundle,
    ) -> (r: BleCharacteristicBundle)
        ensures
            final(self)@ == (ImpState { cache: cache_with(old(self)@.cache, chars@), ..old(self)@ }),
            r == bundle_with(bundle, chars@),
    {
        broadcast use vstd::std_specs::hash::group_hash_axioms;

        let mut found = bundle;
        for i in 0..chars.len()
            invariant
                self@ == (ImpState {
                    cache: cache_with(old(self)@.cache, chars@.take(i as int)),
                    ..old(self)@
                }),
                found == bundle_with(bundle, chars@.take(i as int)),
        {
            let c: Characteristic = chars[i];
            assert(chars@.take(i + 1).drop_last() == chars@.take(i as int));
            match role(&c.uuid) {
                Role::Recv => {
                    found.recv = Some(c.uuid);
                },
                Role::Sent => {
                    found.sent = Some(c.uuid);
                },
                Role::Service => {
                    found.service = Some(c.uuid);
                },
                Role::Other => {},
            }
            self.ble_chara_cache.insert(c.uuid.0, c);
        }
        assert(chars@.take(chars@.len() as int) == chars@);
        found
    }
}

/// A characteristic is for receiving exactly where its identifier has `005e`; else for sending
/// exactly where it has `005f`; else it is the service characteristic exactly where it has `0050`.
pub proof fn law_role_of(uuid: Uuid)
    ensures
        role_of(uuid) == Role::Recv <==> uuid_has(uuid, "005e"@),
        role_of(uuid) == Role::Sent <==> uuid_has(uuid, "005f"@) && !uuid_has(uuid, "005e"@),
        role_of(uuid) == Role::Service <==> uuid_has(uuid, "0050"@) && !uuid_has(uuid, "005f"@)
            && !uuid_has(uuid, "005e"@),
{
}

/// A service is a Xiaomi service exactly where its identifier has `fe95`.
pub proof fn law_is_xiaomi(service: BluestService)
    ensures
        is_xiaomi(service) <==> uuid_has(service.uuid, "fe95"@),
{
}

/// The characteristic at position `i` is the last of a list that has a role.
pub open spec fn is_last_in_role(chars: Seq<Characteristic>, role: Role, i: int) -> bool {
    &&& 0 <= i < chars.len()
    &&& role_of(chars[i].uuid) == role
    &&& forall|j: int| i < j < chars.len() ==> role_of((#[trigger] chars[j]).uuid) != role
}

/// What is put down for a role is the last characteristic of the list that has it; where none
/// has, what was put down before.
pub proof fn law_last_in_role(chars: Seq<Characteristic>, role: Role, before: Option<Uuid>)
    ensures
        (exists|i: int| #[trigger]
            is_last_in_role(chars, role, i) && last_in_role(chars, role, before) == Some(
                chars[i].uuid,
            )) || (last_in_role(chars, role, before) == before && forall|i: int|
            0 <= i < chars.len() ==> role_of((#[trigger] chars[i]).uuid) != role),
    decreases chars.len(),
{
    if chars.len() > 0 {
        let rest = chars.drop_last();
        let last = chars.len() - 1;
        assert(chars[last] == chars.last());
        if role_of(chars.last().uuid) == role {
            assert(is_last_in_role(chars, role, last));
        } else {
            law_last_in_role(rest, role, before);
            if exists|i: int| #[trigger] is_last_in_role(rest, role, i) {
                let i = choose|i: int| #[trigger]
                    is_last_in_role(rest, role, i) && last_in_role(rest, role, before) == Some(
                        rest[i].uuid,
                    );
                assert(rest[i] == chars[i]);
                assert forall|j: int| i < j < chars.len() implies role_of(
                    (#[trigger] chars[j]).uuid,
                ) != role by {
                    if j < last {
                        assert(rest[j] == chars[j]);
                    }
                }
                assert(is_last_in_role(chars, role, i));
            } else {
                assert forall|i: int| 0 <= i < chars.len() implies role_of(
                    (#[trigger] chars[i]).uuid,
                ) != role by {
                    if i < last {
                        assert(rest[i] == chars[i]);
                    }
                }
            }
        }
    }
}

/// Each role of a bundle is found by itself.
pub proof fn law_bundle_with(bundle: BleCharacteristicBundle, chars: Seq<Characteristic>)
    ensures
        bundle_with(bundle, chars).recv == last_in_role(chars, Role::Recv, bundle.recv),
        bundle_with(bundle, chars).sent == last_in_role(chars, Role::Sent, bundle.sent),
        bundle_with(bundle, chars).service == last_in_role(chars, Role::Service, bundle.service),
{
}

/// The characteristic at position `i` is the last of a list with an identifier.
pub open spec fn is_last_with(chars: Seq<Characteristic>, key: u128, i: int) -> bool {
    &&& 0 <= i < chars.len()
    &&& chars[i].uuid.0 == key
    &&& forall|j: int| i < j < chars.len() ==> (#[trigger] chars[j]).uuid.0 != key
}

/// What is remembered under an identifier is the last characteristic of the list that has it;
/// where none has, what was remembered before.
pub proof fn law_cache_with(
    cache: Map<u128, Characteristic>,
    chars: Seq<Characteristic>,
    key: u128,
)
    ensures
        (exists|i: int| #[trigger]
            is_last_with(chars, key, i) && cache_with(cache, chars).contains_key(key)
                && cache_with(cache, chars)[key] == chars[i]) || (cache_with(
            cache,
            chars,
        ).contains_key(key) == cache.contains_key(key) && cache_with(cache, chars)[key]
            == cache[key] && forall|i: int|
            0 <= i < chars.len() ==> (#[trigger] chars[i]).uuid.0 != key),
    decreases chars.len(),
{
    if chars.len() > 0 {
        let rest = chars.drop_last();
        let last = chars.len() - 1;
        assert(chars[last] == chars.last());
        if chars.last().uuid.0 == key {
            assert(is_last_with(chars, key, last));
        } else {
            law_cache_with(cache, rest, key);
            if exists|i: int| #[trigger] is_last_with(rest, key, i) {
                let i = choose|i: int| #[trigger]
                    is_last_with(rest, key, i) && cache_with(cache, rest).contains_key(key)
                        && cache_with(cache, rest)[key] == rest[i];
                assert(rest[i] == chars[i]);
                assert forall|j: int| i < j < chars.len() implies (#[trigger] chars[j]).uuid.0
                    != key by {
                    if j < last {
                        assert(rest[j] == chars[j]);
                    }
                }
                assert(is_last_with(chars, key, i));
            } else {
                assert forall|i: int| 0 <= i < chars.len() implies (#[trigger] chars[i]).uuid.0
                    != key by {
                    if i < last {
                        assert(rest[i] == chars[i]);
                    }
                }
            }
        }
    }
}

/// The next Xiaomi service is the first one from a position on: none before it is one, and where
/// it lies behind the list there is none.
pub proof fn law_next_xiaomi(services: Seq<BluestService>, from: int)
    requires
        0 <= from <= services.len(),
    ensures
        from <= next_xiaomi(services, from) <= services.len(),
        next_xiaomi(services, from) < services.len() ==> is_xiaomi(
            services[next_xiaomi(services, from)],
        ),
        forall|i: int|
            from <= i < next_xiaomi(services, from) ==> !is_xiaomi(#[trigger] services[i]),
    decreases services.len() - from,
{
    if from < services.len() && !is_xiaomi(services[from]) {
        law_next_xiaomi(services, from + 1);
    }
}

/// The characteristic at position `i` is the first of a list with an identifier.
pub open spec fn is_first_with(chars: Seq<Characteristic>, uuid: Uuid, i: int) -> bool {
    &&& 0 <= i < chars.len()
    &&& chars[i].uuid == uuid
    &&& forall|j: int| 0 <= j < i ==> (#[trigger] chars[j]).uuid != uuid
}

/// The characteristic that is found is the first of the list with the identifier that is looked
/// for; none is found exactly where none has it.
pub proof fn law_find_chara(chars: Seq<Characteristic>, uuid: Uuid)
    ensures
        match find_chara(chars, uuid) {
            Some(found) => exists|i: int| #[trigger]
                is_first_with(chars, uuid, i) && chars[i] == found,
            None => forall|i: int| 0 <= i < chars.len() ==> (#[trigger] chars[i]).uuid != uuid,
        },
    decreases chars.len(),
{
    if chars.len() > 0 {
        assert(chars[0] == chars.first());
        if chars.first().uuid == uuid {
            assert(is_first_with(chars, uuid, 0));
        } else {
            let rest = chars.drop_first();
            law_find_chara(rest, uuid);
            match find_chara(rest, uuid) {
                Some(found) => {
                    let i = choose|i: int| #[trigger]
                        is_first_with(rest, uuid, i) && rest[i] == found;
                    assert(chars[i + 1] == found);
                    assert forall|j: int| 0 <= j < i + 1 implies (#[trigger] chars[j]).uuid
                        != uuid by {
                        if j > 0 {
                            assert(chars[j] == rest[j - 1]);
                        }
                    }
                    assert(is_first_with(chars, uuid, i + 1));
                },
                None => {
                    assert forall|i: int| 0 <= i < chars.len() implies (#[trigger] chars[i]).uuid
                        != uuid by {
                        if i > 0 {
                            assert(chars[i] == rest[i - 1]);
                        }
                    }
                },
            }
        }
    }
}

} // verus!
