//! Bluetooth transports: scanning for devices, connecting to one and talking to it, over the
//! classic serial port profile or over low energy.
//!
//! The library decides; it does not touch the radio. Each operation is a machine whose state is
//! the step that is due: a driver performs the step and hands back the answer (see [`driver`]).
pub mod address;
pub mod ble;
pub mod btinterface;
pub mod device_table;
pub mod driver;
pub mod espimp;
pub mod stdimp;
pub mod text;
