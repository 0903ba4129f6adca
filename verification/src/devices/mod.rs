//! The supported controllers.

pub mod laws;
pub mod maschine_mk2;
pub mod model;

pub use maschine_mk2::{MaschineMk2, Target};
pub use model::{Action, Mk2View};
