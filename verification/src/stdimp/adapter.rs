//! How the radio is obtained.
use vstd::prelude::*;

use crate::ble::Adapter;
use crate::btinterface::ConnectError;

verus! {

/// Obtaining the radio. One that was obtained before is used again.
#[derive(Debug, Clone, Copy)]
pub enum AdapterStep {
    /// Is the radio stored already?
    LookUp,
    /// Ask the system for its radio. Is there one?
    Open,
    /// Wait until that radio is available. Did it become so?
    AwaitAvailable,
    /// Store the radio, unless another task has stored one meanwhile.
    Store,
    /// Is the radio stored now?
    LookUpAgain,
    Finished(Result<Adapter, ConnectError>),
}

/// The step that follows a step answered by yes or no.
pub open spec fn adapter_next(step: AdapterStep, yes: bool) -> AdapterStep {
    match step {
        AdapterStep::LookUp => if yes {
            AdapterStep::Finished(Ok(Adapter))
        } else {
            AdapterStep::Open
        },
        AdapterStep::Open => if yes {
            AdapterStep::AwaitAvailable
        } else {
            AdapterStep::Finished(Err(ConnectError::DeviceNotFound))
        },
        AdapterStep::AwaitAvailable => if yes {
            AdapterStep::Store
        } else {
            AdapterStep::Finished(Err(ConnectError::DeviceNotFound))
        },
        AdapterStep::Store => AdapterStep::LookUpAgain,
        AdapterStep::LookUpAgain => if yes {
            AdapterStep::Finished(Ok(Adapter))
        } else {
            AdapterStep::Finished(Err(ConnectError::DeviceNotFound))
        },
        AdapterStep::Finished(result) => AdapterStep::Finished(result),
    }
}

impl AdapterStep {
    /// The first step of obtaining the radio.
    pub fn ble_adapter() -> (r: AdapterStep)
        ensures
            r == AdapterStep::LookUp,
    {
        AdapterStep::LookUp
    }

    /// The step that follows when the driver has answered `yes`.
    pub fn advance(self, yes: bool) -> (r: AdapterStep)
        ensures
            r == adapter_next(self, yes),
    {
        match self {
            AdapterStep::LookUp => {
                if yes {
                    AdapterStep::Finished(Ok(Adapter))
                } else {
                    AdapterStep::Open
                }
            },
            AdapterStep::Open => {
                if yes {
                    AdapterStep::AwaitAvailable
                } else {
                    AdapterStep::Finished(Err(ConnectError::DeviceNotFound))
                }
            },
            AdapterStep::AwaitAvailable => {
                if yes {
                    AdapterStep::Store
                } else {
                    AdapterStep::Finished(Err(ConnectError::DeviceNotFound))
                }
            },
            AdapterStep::Store => AdapterStep::LookUpAgain,
            AdapterStep::LookUpAgain => {
                if yes {
                    AdapterStep::Finished(Ok(Adapter))
                } else {
                    AdapterStep::Finished(Err(ConnectError::DeviceNotFound))
                }
            },
            AdapterStep::Finished(result) => AdapterStep::Finished(result),
        }
    }
}

} // verus!
