//! Subscribing to the data that the connected device sends.
use vstd::prelude::*;

use crate::ble::{BluestService, Characteristic, Uuid};
use crate::btinterface::{ConnectType, SubscribeError};
use crate::driver::{Platform, Reply};
#[allow(unused_imports)]
use crate::driver::ReplyView;
use crate::stdimp::discovery::Lookup;
use crate::stdimp::discovery::LookupStep;
#[allow(unused_imports)]
use crate::stdimp::discovery::{lookup_begin, lookup_next, LookupView};
use crate::stdimp::StdImp;
#[allow(unused_imports)]
use crate::stdimp::ImpState;

verus! {

/// Subscribing. `L` is a list of services.
#[derive(Debug)]
pub enum Subscribe<L> {
    /// Is the classic transport at hand?
    SppLookUpApp,
    /// Hand the caller's listener to the classic transport.
    SppSetListener,
    /// Let the classic transport begin to pass data on.
    SppStart,
    /// List the characteristics of the service at position `index`, in search of the one that
    /// sends the data.
    BleDiscover { uuid: Uuid, services: L, index: usize },
    /// Pass the notifications of this characteristic on to the caller's listener, beside this
    /// operation (see [`Notifying`](crate::stdimp::notify::Notifying)).
    BleNotify { chara: Characteristic },
    /// List the characteristics of the service at position `index`, in search of the one that is
    /// read once.
    BleDiscoverService { uuid: Uuid, services: L, index: usize },
    /// Read this characteristic; what it holds does not matter.
    BleReadService { chara: Characteristic },
    Finished(Result<(), SubscribeError>),
}

pub type SubscribeStep = Subscribe<Vec<BluestService>>;

pub type SubscribeView = Subscribe<Seq<BluestService>>;

impl View for Subscribe<Vec<BluestService>> {
    type V = Subscribe<Seq<BluestService>>;

    open spec fn view(&self) -> Subscribe<Seq<BluestService>> {
        match *self {
            Subscribe::SppLookUpApp => Subscribe::SppLookUpApp,
            Subscribe::SppSetListener => Subscribe::SppSetListener,
            Subscribe::SppStart => Subscribe::SppStart,
            Subscribe::BleDiscover { uuid, services, index } => Subscribe::BleDiscover {
                uuid,
                services: services@,
                index,
            },
            Subscribe::BleNotify { chara } => Subscribe::BleNotify { chara },
            Subscribe::BleDiscoverService { uuid, services, index } => {
                Subscribe::BleDiscoverService { uuid, services: services@, index }
            },
            Subscribe::BleReadService { chara } => Subscribe::BleReadService { chara },
            Subscribe::Finished(result) => Subscribe::Finished(result),
        }
    }
}

/// The looking for the characteristic that sends the data goes on, or it is subscribed to, or it
/// is not found.
pub open spec fn subscribe_to(lookup: LookupView) -> SubscribeView {
    match lookup {
        Lookup::Discover { uuid, services, index } => Subscribe::BleDiscover {
            uuid,
            services,
            index,
        },
        Lookup::Finished(Ok(chara)) => Subscribe::BleNotify { chara },
        Lookup::Finished(Err(error)) => Subscribe::Finished(Err(error)),
    }
}

/// The looking for the characteristic that is read once goes on, or it is read. That it is not
/// found does no harm.
pub open spec fn read_service(lookup: LookupView) -> SubscribeView {
    match lookup {
        Lookup::Discover { uuid, services, index } => Subscribe::BleDiscoverService {
            uuid,
            services,
            index,
        },
        Lookup::Finished(Ok(chara)) => Subscribe::BleReadService { chara },
        Lookup::Finished(Err(_)) => Subscribe::Finished(Ok(())),
    }
}

/// The characteristic that is subscribed to: the one that the caller names, or the default one.
pub open spec fn subscribe_target(s: ImpState, characteristic: Option<Uuid>) -> Option<Uuid> {
    match (characteristic, s.bundle) {
        (Some(uuid), _) => Some(uuid),
        (None, Some(bundle)) => bundle.recv,
        (None, None) => None,
    }
}

/// The first step of subscribing.
pub open spec fn subscribe_begin(s: ImpState, characteristic: Option<Uuid>) -> SubscribeView {
    match s.connect_type {
        ConnectType::SPP => Subscribe::SppLookUpApp,
        ConnectType::BLE => if s.platform == Platform::Android {
            Subscribe::Finished(Err(SubscribeError::Disconnected))
        } else {
            match subscribe_target(s, characteristic) {
                None => Subscribe::Finished(Err(SubscribeError::BleCharaNotFound)),
                Some(uuid) => if s.device is None {
                    Subscribe::Finished(Err(SubscribeError::Disconnected))
                } else {
                    subscribe_to(lookup_begin(s, uuid))
                },
            }
        },
    }
}

/// The state and the step that follow a step and the driver's answer to it. An answer that does
/// not belong to the step leaves it due.
pub open spec fn subscribe_next(s: ImpState, step: SubscribeView, reply: ReplyView) -> (
    ImpState,
    SubscribeView,
) {
    match (step, reply) {
        (Subscribe::SppLookUpApp, ReplyView::Flag(yes)) => if yes {
            (s, Subscribe::SppSetListener)
        } else {
            (s, Subscribe::Finished(Err(SubscribeError::Disconnected)))
        },
        (Subscribe::SppSetListener, ReplyView::Flag(yes)) => if yes {
            (s, Subscribe::SppStart)
        } else {
            (s, Subscribe::Finished(Err(SubscribeError::Disconnected)))
        },
        (Subscribe::SppStart, ReplyView::Flag(yes)) => if yes {
            (s, Subscribe::Finished(Ok(())))
        } else {
            (s, Subscribe::Finished(Err(SubscribeError::Disconnected)))
        },
        (
            Subscribe::BleDiscover { uuid, services, index },
            ReplyView::Characteristics(chars),
        ) => {
            let (after, lookup) = lookup_next(s, Lookup::Discover { uuid, services, index }, chars);
            (after, subscribe_to(lookup))
        },
        (Subscribe::BleNotify { chara: _ }, _) => match s.bundle {
            Some(bundle) => match bundle.service {
                Some(uuid) => (s, read_service(lookup_begin(s, uuid))),
                None => (s, Subscribe::Finished(Ok(()))),
            },
            None => (s, Subscribe::Finished(Ok(()))),
        },
        (
            Subscribe::BleDiscoverService { uuid, services, index },
            ReplyView::Characteristics(chars),
        ) => {
            let (after, lookup) = lookup_next(s, Lookup::Discover { uuid, services, index }, chars);
            (after, read_service(lookup))
        },
        (Subscribe::BleReadService { chara: _ }, _) => (s, Subscribe::Finished(Ok(()))),
        (step, _) => (s, step),
    }
}

/// The looking for the characteristic that sends the data goes on, or it is subscribed to, or it
/// is not found.
fn subscribe_over(lookup: LookupStep) -> (r: SubscribeStep)
    ensures
        r@ == subscribe_to(lookup@),
{
    match lookup {
        Lookup::Discover { uuid, services, index } => Subscribe::BleDiscover {
            uuid,
            services,
            index,
        },
        Lookup::Finished(Ok(chara)) => Subscribe::BleNotify { chara },
        Lookup::Finished(Err(error)) => Subscribe::Finished(Err(error)),
    }
}

/// The looking for the characteristic that is read once goes on, or it is read.
fn read_over(lookup: LookupStep) -> (r: SubscribeStep)
    ensures
        r@ == read_service(lookup@),
{
    match lookup {
        Lookup::Discover { uuid, services, index } => Subscribe::BleDiscoverService {
            uuid,
            services,
            index,
        },
        Lookup::Finished(Ok(chara)) => Subscribe::BleReadService { chara },
        Lookup::Finished(Err(_)) => Subscribe::Finished(Ok(())),
    }
}

impl StdImp {
    /// The first step of subscribing to the given characteristic or to the default one.
    pub fn subscribe(&self, characteristic: Option<Uuid>) -> (r: SubscribeStep)
        ensures
            r@ == subscribe_begin(self@, characteristic),
    {
        match self.connect_type {
            ConnectType::SPP => Subscribe::SppLookUpApp,
            ConnectType::BLE => {
                if self.platform == Platform::Android {
                    return Subscribe::Finished(Err(SubscribeError::Disconnected));
                }
                let target = match characteristic {
                    Some(uuid) => Some(uuid),
                    None => self.ble_default_recv_uuid(),
                };
                match target {
                    None => Subscribe::Finished(Err(SubscribeError::BleCharaNotFound)),
                    Some(uuid) => {
                        if self.ble_device.is_none() {
                            Subscribe::Finished(Err(SubscribeError::Disconnected))
                        } else {
                            subscribe_over(self.ble_get_or_discover_chara(uuid))
                        }
                    },
                }
            },
        }
    }

    /// The step that follows when the driver has answered a step of subscribing.
    pub fn subscribe_step(&mut self, step: SubscribeStep, reply: Reply) -> (r: SubscribeStep)
        ensures
            (final(self)@, r@) == subscribe_next(old(self)@, step@, reply@),
    {
        match (step, reply) {
            (Subscribe::SppLookUpApp, Reply::Flag(yes)) => {
                if yes {
                    Subscribe::SppSetListener
                } else {
                    Subscribe::Finished(Err(SubscribeError::Disconnected))
                }
            },
            (Subscribe::SppSetListener, Reply::Flag(yes)) => {
                if yes {
                    Subscribe::SppStart
                } else {
                    Subscribe::Finished(Err(SubscribeError::Disconnected))
                }
            },
            (Subscribe::SppStart, Reply::Flag(yes)) => {
                if yes {
                    Subscribe::Finished(Ok(()))
                } else {
                    Subscribe::Finished(Err(SubscribeError::Disconnected))
                }
            },
            (
                Subscribe::BleDiscover { uuid, services, index },
                Reply::Characteristics(chars),
            ) => {
                let lookup = self.ble_lookup_step(
                    Lookup::Discover { uuid, services, index },
                    chars,
                );
                subscribe_over(lookup)
            },
            (Subscribe::BleNotify { chara: _ }, _) => match self.ble_default_service_uuid() {
                Some(uuid) => read_over(self.ble_get_or_discover_chara(uuid)),
                None => Subscribe::Finished(Ok(())),
            },
            (
                Subscribe::BleDiscoverService { uuid, services, index },
                Reply::Characteristics(chars),
            ) => {
                let lookup = self.ble_lookup_step(
                    Lookup::Discover { uuid, services, index },
                    chars,
                );
                read_over(lookup)
            },
            (Subscribe::BleReadService { chara: _ }, _) => Subscribe::Finished(Ok(())),
            (step, _) => step,
        }
    }
}

} // verus!
