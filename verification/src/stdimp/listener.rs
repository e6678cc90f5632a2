//! The listener that is told of a connection.
use vstd::prelude::*;

use crate::btinterface::ConnectType;
use crate::driver::{Listener, Reply};
#[allow(unused_imports)]
use crate::driver::ReplyView;
use crate::stdimp::StdImp;
#[allow(unused_imports)]
use crate::stdimp::ImpState;

verus! {

/// Setting the listener that is told of a connection.
#[derive(Debug, Clone, Copy)]
pub enum ListenerStep {
    /// Is the classic transport at hand?
    SppLookUpApp { listener: Listener },
    /// Hand the listener to the classic transport.
    SppRegister { listener: Listener },
    Finished,
}

/// The first step of setting the listener. The low-energy transport keeps it itself, in place of
/// an earlier one.
pub open spec fn listener_begin(s: ImpState, listener: Listener) -> (ImpState, ListenerStep) {
    match s.connect_type {
        ConnectType::SPP => (s, ListenerStep::SppLookUpApp { listener }),
        ConnectType::BLE => (
            ImpState { listener: Some(listener), ..s },
            ListenerStep::Finished,
        ),
    }
}

/// The step that follows a step and the driver's answer to it. Without the classic transport the
/// listener is dropped. An answer that does not belong to the step leaves it due.
pub open spec fn listener_next(step: ListenerStep, reply: ReplyView) -> ListenerStep {
    match (step, reply) {
        (ListenerStep::SppLookUpApp { listener }, ReplyView::Flag(yes)) => if yes {
            ListenerStep::SppRegister { listener }
        } else {
            ListenerStep::Finished
        },
        (ListenerStep::SppRegister { listener: _ }, _) => ListenerStep::Finished,
        (step, _) => step,
    }
}

impl ListenerStep {
    /// The step that follows when the driver has answered a step of setting the listener.
    pub fn advance(self, reply: Reply) -> (r: ListenerStep)
        ensures
            r == listener_next(self, reply@),
    {
        match (self, reply) {
            (ListenerStep::SppLookUpApp { listener }, Reply::Flag(yes)) => {
                if yes {
                    ListenerStep::SppRegister { listener }
                } else {
                    ListenerStep::Finished
                }
            },
            (ListenerStep::SppRegister { listener: _ }, _) => ListenerStep::Finished,
            (step, _) => step,
        }
    }
}

impl StdImp {
    /// The first step of setting the listener that is told of a connection.
    pub fn set_on_connected_listener(&mut self, listener: Listener) -> (r: ListenerStep)
        ensures
            (final(self)@, r) == listener_begin(old(self)@, listener),
    {
        match self.connect_type {
            ConnectType::SPP => ListenerStep::SppLookUpApp { listener },
            ConnectType::BLE => {
                self.ble_on_connected = Some(listener);
                ListenerStep::Finished
            },
        }
    }
}

} // verus!
