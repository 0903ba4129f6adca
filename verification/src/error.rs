//! Errors reported by the controller.

use vstd::prelude::*;

verus! {

/// Why an operation on the controller failed.
#[derive(Debug, Clone, Copy, PartialEq, Eq, Structural)]
pub enum Error {
    /// The transport to the device failed.
    Transport,
    /// An input report holds fewer bytes than its kind requires.
    InvalidReport,
    /// The device reported a control that is not known.
    UnknownControl,
    /// There is no display with this index.
    InvalidDisplay(u8),
    /// There is no LED with this index.
    InvalidLed(u8),
    /// No compatible device was found.
    NoDevices,
}

} // verus!
