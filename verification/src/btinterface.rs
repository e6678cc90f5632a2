//! What callers of a Bluetooth transport see: its errors, its kinds and the devices it reports.
use vstd::prelude::*;

verus! {

/// Why a scan could not be started or stopped.
#[derive(Debug, Clone, Copy, PartialEq, Eq, Structural)]
pub enum ScanError {
    MissingPermission,
    AdapterNotFound,
}

/// Why a connection could not be made.
#[derive(Debug, Clone, Copy, PartialEq, Eq, Structural)]
pub enum ConnectError {
    DeviceNotFound,
    TargetRejected,
}

/// Why data could not be sent.
#[derive(Debug, Clone, Copy, PartialEq, Eq, Structural)]
pub enum SendError {
    Disconnected,
    BleCharaNotFound,
    TooLong,
}

/// Why incoming data could not be subscribed to.
#[derive(Debug, Clone, Copy, PartialEq, Eq, Structural)]
pub enum SubscribeError {
    Disconnected,
    BleCharaNotFound,
}

/// Why a connection could not be closed.
#[derive(Debug, Clone, Copy, PartialEq, Eq, Structural)]
pub enum DisconnectError {
    DeviceNotFound,
}

/// The two transports: the classic serial port profile and Bluetooth low energy.
#[derive(Debug, Clone, Copy, PartialEq, Eq, Structural)]
pub enum ConnectType {
    SPP,
    BLE,
}

/// A device as it is reported to the caller of a scan.
#[derive(Debug)]
pub struct BluetoothDevice {
    pub name: String,
    pub addr: String,
}

/// The name and the address of a reported device, as texts.
pub struct DeviceEntry {
    pub name: Seq<char>,
    pub addr: Seq<char>,
}

impl View for BluetoothDevice {
    type V = DeviceEntry;

    open spec fn view(&self) -> DeviceEntry {
        DeviceEntry { name: self.name@, addr: self.addr@ }
    }
}

/// The entries of a list of reported devices.
pub open spec fn entries(devices: Seq<BluetoothDevice>) -> Seq<DeviceEntry> {
    devices.map_values(|d: BluetoothDevice| d@)
}

impl ScanError {
    pub open spec fn text(self) -> Seq<char> {
        match self {
            ScanError::MissingPermission => "missing permission"@,
            ScanError::AdapterNotFound => "adapter not found"@,
        }
    }

    /// What the error says to a reader.
    pub fn message(&self) -> (r: String)
        ensures
            r@ == self.text(),
    {
        match self {
            ScanError::MissingPermission => "missing permission".to_string(),
            ScanError::AdapterNotFound => "adapter not found".to_string(),
        }
    }
}

impl ConnectError {
    pub open spec fn text(self) -> Seq<char> {
        match self {
            ConnectError::DeviceNotFound => "device not found"@,
            ConnectError::TargetRejected => "target rejected"@,
        }
    }

    /// What the error says to a reader.
    pub fn message(&self) -> (r: String)
        ensures
            r@ == self.text(),
    {
        match self {
            ConnectError::DeviceNotFound => "device not found".to_string(),
            ConnectError::TargetRejected => "target rejected".to_string(),
        }
    }
}

impl SendError {
    pub open spec fn text(self) -> Seq<char> {
        match self {
            SendError::Disconnected => "disconnected"@,
            SendError::BleCharaNotFound => "ble characteristic not found"@,
            SendError::TooLong => "data too long"@,
        }
    }

    /// What the error says to a reader.
    pub fn message(&self) -> (r: String)
        ensures
            r@ == self.text(),
    {
        match self {
            SendError::Disconnected => "disconnected".to_string(),
            SendError::BleCharaNotFound => "ble characteristic not found".to_string(),
            SendError::TooLong => "data too long".to_string(),
        }
    }
}

impl SubscribeError {
    pub open spec fn text(self) -> Seq<char> {
        match self {
            SubscribeError::Disconnected => "disconnected"@,
            SubscribeError::BleCharaNotFound => "ble characteristic not found"@,
        }
    }

    /// What the error says to a reader.
    pub fn message(&self) -> (r: String)
        ensures
            r@ == self.text(),
    {
        match self {
            SubscribeError::Disconnected => "disconnected".to_string(),
            SubscribeError::BleCharaNotFound => "ble characteristic not found".to_string(),
        }
    }
}

impl DisconnectError {
    pub open spec fn text(self) -> Seq<char> {
        match self {
            DisconnectError::DeviceNotFound => "device not found"@,
        }
    }

    /// What the error says to a reader.
    pub fn message(&self) -> (r: String)
        ensures
            r@ == self.text(),
    {
        match self {
            DisconnectError::DeviceNotFound => "device not found".to_string(),
        }
    }
}

/// The entries of a list of reported devices are their names and addresses, one for one.
pub proof fn law_entries(devices: Seq<BluetoothDevice>)
    ensures
        entries(devices).len() == devices.len(),
        forall|i: int|
            0 <= i < devices.len() ==> (#[trigger] entries(devices)[i]).name == devices[i].name@
                && entries(devices)[i].addr == devices[i].addr@,
{
}

} // verus!
