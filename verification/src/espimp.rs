//! The place of a transport over an ESP32 board.
use vstd::prelude::*;

verus! {

/// A transport over an ESP32 board. No operation of it is available.
#[derive(Debug)]
pub struct Esp32Imp;

} // verus!
