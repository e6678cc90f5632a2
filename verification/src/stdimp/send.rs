//! Sending data to the connected device.
use vstd::prelude::*;

use crate::ble::{BluestService, Characteristic, Uuid};
use crate::btinterface::{ConnectType, SendError, SubscribeError};
use crate::driver::{Platform, Reply};
#[allow(unused_imports)]
use crate::driver::ReplyView;
use crate::stdimp::discovery::Lookup;
use crate::stdimp::discovery::LookupStep;
#[allow(unused_imports)]
use crate::stdimp::discovery::{lookup_begin, lookup_next, LookupView};
use crate::stdimp::StdImp;
#[allow(unused_imports)]
use crate::stdimp::ImpState;

verus! {

/// Sending data. `B` is a sequence of bytes, `L` a list of services.
#[derive(Debug)]
pub enum Sending<B, L> {
    /// Is the classic transport at hand?
    SppLookUpApp { data: B },
    /// Send the data over the classic transport.
    SppSend { data: B },
    /// List the characteristics of the service at position `index`.
    BleDiscover { data: B, uuid: Uuid, services: L, index: usize },
    /// Write the data to a characteristic, and wait for no answer.
    BleWrite { chara: Characteristic, data: B },
    Finished(Result<(), SendError>),
}

pub type SendStep = Sending<Vec<u8>, Vec<BluestService>>;

pub type SendView = Sending<Seq<u8>, Seq<BluestService>>;

impl View for Sending<Vec<u8>, Vec<BluestService>> {
    type V = Sending<Seq<u8>, Seq<BluestService>>;

    open spec fn view(&self) -> Sending<Seq<u8>, Seq<BluestService>> {
        match *self {
            Sending::SppLookUpApp { data } => Sending::SppLookUpApp { data: data@ },
            Sending::SppSend { data } => Sending::SppSend { data: data@ },
            Sending::BleDiscover { data, uuid, services, index } => Sending::BleDiscover {
                data: data@,
                uuid,
                services: services@,
                index,
            },
            Sending::BleWrite { chara, data } => Sending::BleWrite { chara, data: data@ },
            Sending::Finished(result) => Sending::Finished(result),
        }
    }
}

/// The looking for the characteristic goes on, or the data is written to it, or it is not found.
pub open spec fn send_to(data: Seq<u8>, lookup: LookupView) -> SendView {
    match lookup {
        Lookup::Discover { uuid, services, index } => Sending::BleDiscover {
            data,
            uuid,
            services,
            index,
        },
        Lookup::Finished(Ok(chara)) => Sending::BleWrite { chara, data },
        Lookup::Finished(Err(SubscribeError::BleCharaNotFound)) => {
            Sending::Finished(Err(SendError::BleCharaNotFound))
        },
        Lookup::Finished(Err(SubscribeError::Disconnected)) => {
            Sending::Finished(Err(SendError::Disconnected))
        },
    }
}

/// The characteristic that is written to: the one that the caller names, or the default one.
pub open spec fn send_target(s: ImpState, characteristic: Option<Uuid>) -> Option<Uuid> {
    match (characteristic, s.bundle) {
        (Some(uuid), _) => Some(uuid),
        (None, Some(bundle)) => bundle.sent,
        (None, None) => None,
    }
}

/// The first step of sending.
pub open spec fn send_begin(s: ImpState, data: Seq<u8>, characteristic: Option<Uuid>) -> SendView {
    match s.connect_type {
        ConnectType::SPP => Sending::SppLookUpApp { data },
        ConnectType::BLE => if s.platform == Platform::Android {
            Sending::Finished(Err(SendError::Disconnected))
        } else {
            match send_target(s, characteristic) {
                None => Sending::Finished(Err(SendError::BleCharaNotFound)),
                Some(uuid) => if s.device is None {
                    Sending::Finished(Err(SendError::Disconnected))
                } else {
                    send_to(data, lookup_begin(s, uuid))
                },
            }
        },
    }
}

/// The state and the step that follow a step and the driver's answer to it. An answer that does
/// not belong to the step leaves it due.
pub open spec fn send_next(s: ImpState, step: SendView, reply: ReplyView) -> (ImpState, SendView) {
    match (step, reply) {
        (Sending::SppLookUpApp { data }, ReplyView::Flag(yes)) => if yes {
            (s, Sending::SppSend { data })
        } else {
            (s, Sending::Finished(Err(SendError::Disconnected)))
        },
        (Sending::SppSend { data: _ }, ReplyView::Flag(yes)) => if yes {
            (s, Sending::Finished(Ok(())))
        } else {
            (s, Sending::Finished(Err(SendError::Disconnected)))
        },
        (
            Sending::BleDiscover { data, uuid, services, index },
            ReplyView::Characteristics(chars),
        ) => {
            let (after, lookup) = lookup_next(s, Lookup::Discover { uuid, services, index }, chars);
            (after, send_to(data, lookup))
        },
        (Sending::BleWrite { chara: _, data: _ }, ReplyView::Flag(yes)) => if yes {
            (s, Sending::Finished(Ok(())))
        } else {
            (s, Sending::Finished(Err(SendError::Disconnected)))
        },
        (step, _) => (s, step),
    }
}

/// The looking for the characteristic goes on, or the data is written to it, or it is not found.
fn send_over(data: Vec<u8>, lookup: LookupStep) -> (r: SendStep)
    ensures
        r@ == send_to(data@, lookup@),
{
    match lookup {
        Lookup::Discover { uuid, services, index } => Sending::BleDiscover {
            data,
            uuid,
            services,
            index,
        },
        Lookup::Finished(Ok(chara)) => Sending::BleWrite { chara, data },
        Lookup::Finished(Err(SubscribeError::BleCharaNotFound)) => {
            Sending::Finished(Err(SendError::BleCharaNotFound))
        },
        Lookup::Finished(Err(SubscribeError::Disconnected)) => {
            Sending::Finished(Err(SendError::Disconnected))
        },
    }
}

impl StdImp {
    /// The first step of sending data, to the given characteristic or to the default one.
    pub fn send(&self, data: Vec<u8>, characteristic: Option<Uuid>) -> (r: SendStep)
        ensures
            r@ == send_begin(self@, data@, characteristic),
    {
        match self.connect_type {
            ConnectType::SPP => Sending::SppLookUpApp { data },
            ConnectType::BLE => {
                if self.platform == Platform::Android {
                    return Sending::Finished(Err(SendError::Disconnected));
                }
                let target = match characteristic {
                    Some(uuid) => Some(uuid),
                    None => self.ble_default_sent_uuid(),
                };
                match target {
                    None => Sending::Finished(Err(SendError::BleCharaNotFound)),
                    Some(uuid) => {
                        if self.ble_device.is_none() {
                            Sending::Finished(Err(SendError::Disconnected))
                        } else {
                            send_over(data, self.ble_get_or_discover_chara(uuid))
                        }
                    },
                }
            },
        }
    }

    /// The step that follows when the driver has answered a step of sending.
    pub fn send_step(&mut self, step: SendStep, reply: Reply) -> (r: SendStep)
        ensures
            (final(self)@, r@) == send_next(old(self)@, step@, reply@),
    {
        match (step, reply) {
            (Sending::SppLookUpApp { data }, Reply::Flag(yes)) => {
                if yes {
                    Sending::SppSend { data }
                } else {
                    Sending::Finished(Err(SendError::Disconnected))
                }
            },
            (Sending::SppSend { data: _ }, Reply::Flag(yes)) => {
                if yes {
                    Sending::Finished(Ok(()))
                } else {
                    Sending::Finished(Err(SendError::Disconnected))
                }
            },
            (
                Sending::BleDiscover { data, uuid, services, index },
                Reply::Characteristics(chars),
            ) => {
                let lookup = self.ble_lookup_step(
                    Lookup::Discover { uuid, services, index },
                    chars,
                );
                send_over(data, lookup)
            },
            (Sending::BleWrite { chara: _, data: _ }, Reply::Flag(yes)) => {
                if yes {
                    Sending::Finished(Ok(()))
                } else {
                    Sending::Finished(Err(SendError::Disconnected))
                }
            },
            (step, _) => step,
        }
    }
}

} // verus!
