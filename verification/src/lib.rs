//! Driver logic for a grid controller with pads, encoders, LEDs and two
//! small monochrome displays: decoding of input reports into events, LED and
//! display state with dirty tracking, and drawing on the displays.

pub mod devices;
mod error;
mod events;
pub mod gfx;

pub use devices::MaschineMk2;
pub use error::Error;
pub use events::{Button, Event, EventContext, EventHandler};
