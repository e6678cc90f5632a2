//! Closing the connection.
use vstd::prelude::*;

use crate::ble::BluestDevice;
use crate::btinterface::{ConnectType, DisconnectError};
use crate::driver::{Platform, Reply};
#[allow(unused_imports)]
use crate::driver::ReplyView;
use crate::stdimp::adapter::AdapterStep;
#[allow(unused_imports)]
use crate::stdimp::adapter::adapter_next;
use crate::stdimp::StdImp;
#[allow(unused_imports)]
use crate::stdimp::{cleared, ImpState};

verus! {

/// Closing the connection.
#[derive(Debug, Clone, Copy)]
pub enum DisconnectStep {
    /// Is the classic transport at hand?
    SppLookUpApp,
    /// Close the connection of the classic transport.
    SppDisconnect,
    /// Obtain the radio.
    BleAdapter { device: BluestDevice, step: AdapterStep },
    /// Disconnect the device.
    BleDisconnectDevice { device: BluestDevice },
    Finished(Result<(), DisconnectError>),
}

/// The first step of closing the connection. Where there is no low-energy device to disconnect,
/// what may be left of a connection is forgotten at once.
pub open spec fn disconnect_begin(s: ImpState) -> (ImpState, DisconnectStep) {
    match s.connect_type {
        ConnectType::SPP => (s, DisconnectStep::SppLookUpApp),
        ConnectType::BLE => match s.device {
            Some(device) if s.platform != Platform::Android => (
                s,
                DisconnectStep::BleAdapter { device, step: AdapterStep::LookUp },
            ),
            _ => (cleared(s), DisconnectStep::Finished(Ok(()))),
        },
    }
}

/// The state and the step that follow a step and the driver's answer to it. The low-energy
/// connection is forgotten whether or not the device could be disconnected. An answer that does
/// not belong to the step leaves it due.
pub open spec fn disconnect_next(s: ImpState, step: DisconnectStep, reply: ReplyView) -> (
    ImpState,
    DisconnectStep,
) {
    match (step, reply) {
        (DisconnectStep::SppLookUpApp, ReplyView::Flag(yes)) => if yes {
            (s, DisconnectStep::SppDisconnect)
        } else {
            (s, DisconnectStep::Finished(Err(DisconnectError::DeviceNotFound)))
        },
        (DisconnectStep::SppDisconnect, ReplyView::Flag(yes)) => if yes {
            (s, DisconnectStep::Finished(Ok(())))
        } else {
            (s, DisconnectStep::Finished(Err(DisconnectError::DeviceNotFound)))
        },
        (DisconnectStep::BleAdapter { device, step: at }, ReplyView::Flag(yes)) => {
            match adapter_next(at, yes) {
                AdapterStep::Finished(Ok(_)) => (s, DisconnectStep::BleDisconnectDevice { device }),
                AdapterStep::Finished(Err(_)) => (
                    cleared(s),
                    DisconnectStep::Finished(Err(DisconnectError::DeviceNotFound)),
                ),
                due => (s, DisconnectStep::BleAdapter { device, step: due }),
            }
        },
        (DisconnectStep::BleDisconnectDevice { device: _ }, ReplyView::Flag(yes)) => (
            cleared(s),
            if yes {
                DisconnectStep::Finished(Ok(()))
            } else {
                DisconnectStep::Finished(Err(DisconnectError::DeviceNotFound))
            },
        ),
        (step, _) => (s, step),
    }
}

impl StdImp {
    /// The first step of closing the connection.
    pub fn disconnect(&mut self) -> (r: DisconnectStep)
        ensures
            (final(self)@, r) == disconnect_begin(old(self)@),
    {
        match self.connect_type {
            ConnectType::SPP => DisconnectStep::SppLookUpApp,
            ConnectType::BLE => {
                if self.platform != Platform::Android {
                    if let Some(device) = self.ble_device {
                        return DisconnectStep::BleAdapter {
                            device,
                            step: AdapterStep::ble_adapter(),
                        };
                    }
                }
                self.ble_clear_cache();
                DisconnectStep::Finished(Ok(()))
            },
        }
    }

    /// The step that follows when the driver has answered a step of closing the connection.
    pub fn disconnect_step(&mut self, step: DisconnectStep, reply: Reply) -> (r: DisconnectStep)
        ensures
            (final(self)@, r) == disconnect_next(old(self)@, step, reply@),
    {
        match (step, reply) {
            (DisconnectStep::SppLookUpApp, Reply::Flag(yes)) => {
                if yes {
                    DisconnectStep::SppDisconnect
                } else {
                    DisconnectStep::Finished(Err(DisconnectError::DeviceNotFound))
                }
            },
            (DisconnectStep::SppDisconnect, Reply::Flag(yes)) => {
                if yes {
                    DisconnectStep::Finished(Ok(()))
                } else {
                    DisconnectStep::Finished(Err(DisconnectError::DeviceNotFound))
                }
            },
            (DisconnectStep::BleAdapter { device, step: at }, Reply::Flag(yes)) => {
                match at.advance(yes) {
                    AdapterStep::Finished(Ok(_)) => DisconnectStep::BleDisconnectDevice { device },
                    AdapterStep::Finished(Err(_)) => {
                        self.ble_clear_cache();
                        DisconnectStep::Finished(Err(DisconnectError::DeviceNotFound))
                    },
                    due => DisconnectStep::BleAdapter { device, step: due },
                }
            },
            (DisconnectStep::BleDisconnectDevice { device: _ }, Reply::Flag(yes)) => {
                self.ble_clear_cache();
                if yes {
                    DisconnectStep::Finished(Ok(()))
                } else {
                    DisconnectStep::Finished(Err(DisconnectError::DeviceNotFound))
                }
            },
            (step, _) => step,
        }
    }
}

} // verus!
