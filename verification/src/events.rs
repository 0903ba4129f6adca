//! Input events and the queue that collects them.

use std::collections::VecDeque;
use vstd::prelude::*;

verus! {

/// Something that happened on the controller.
#[derive(Debug, Copy, Clone, PartialEq, Eq, Structural)]
pub enum Event {
    /// A button changed: which button, whether it is now pressed, and
    /// whether shift was held.
    Button(Button, bool, bool),
    /// An encoder was turned: its number, its new raw value, the signed
    /// distance from its previous value, and whether shift was held.
    Encoder(u8, u16, i16, bool),
    /// A pad is pressed or was just released: its number, its velocity
    /// (zero on release), and whether shift was held.
    Pad(u8, u8, bool),
}

/// The buttons of the controller.
#[derive(Debug, Copy, Clone, PartialEq, Eq, Structural)]
pub enum Button {
    Display1,
    Display2,
    Display3,
    Display4,
    Display5,
    Display6,
    Display7,
    Display8,
    Erase,
    Rec,
    Play,
    Grid,
    TransportRight,
    TransportLeft,
    Restart,
    MainEncoder,
    NoteRepeat,
    Sampling,
    Browse,
    All,
    Autowrite,
    Volume,
    Swing,
    Tempo,
    Enter,
    Group,
    GroupA,
    GroupB,
    GroupC,
    GroupD,
    GroupE,
    GroupF,
    GroupG,
    GroupH,
    Main,
    BrowseRight,
    BrowseLeft,
    MainRight,
    MainLeft,
    Nav,
    Control,
    Step,
    F3,
    F2,
    F1,
    Mute,
    Solo,
    Select,
    Duplicate,
    View,
    PadMode,
    Pattern,
    Scene,
    Unknown,
}

/// The queue into which decoding puts events, oldest first.
pub struct EventContext {
    pub events: VecDeque<Event>,
}

impl EventContext {
    /// An empty queue.
    pub fn new() -> (context: Self)
        ensures
            context.events@ == Seq::<Event>::empty(),
    {
        EventContext { events: VecDeque::new() }
    }

    /// Appends `event` behind all events that are already queued.
    pub fn add_event(&mut self, event: Event)
        ensures
            final(self).events@ == old(self).events@.push(event),
    {
        self.events.push_back(event);
    }
}

impl Default for EventContext {
    fn default() -> (context: Self)
        ensures
            context.events@ == Seq::<Event>::empty(),
    {
        EventContext::new()
    }
}

/// A consumer of events.
pub trait EventHandler {
    /// Handles `event` and tells whether it was consumed.
    fn handle(&mut self, event: &Event) -> bool;
}

} // verus!
