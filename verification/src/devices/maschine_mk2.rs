//! The Maschine Mk2 controller: its input reports, LEDs and displays.
//!
//! The state kept here never touches the device. Whoever owns the
//! transport asks `next_action` what to do, does it, and reports back with
//! `acknowledge`, `receive`, `fail` or `finish`.

use vstd::prelude::*;

use crate::error::Error;
use crate::events::{Button, Event, EventContext};
use crate::gfx::canvas::Canvas;
use crate::gfx::color::Color;
use crate::gfx::model::{bit_at, packs};
use crate::gfx::monochrome_canvas::MonochromeCanvas;
use super::model::{
    button_bit, byte_of, circular_delta, display_ready, encoder_range, encoder_reading, first_set,
    led_report, led_segment, pad_index, pad_pressure, Action, Mk2View,
};

verus! {

// LED registers
pub const LED_CONTROL: u8 = 0;
pub const LED_STEP: u8 = 1;
pub const LED_BROWSE: u8 = 2;
pub const LED_SAMPLING: u8 = 3;
pub const LED_BROWSE_LEFT: u8 = 4;
pub const LED_BROWSE_RIGHT: u8 = 5;
pub const LED_ALL: u8 = 6;
pub const LED_AUTOWRITE: u8 = 7;
pub const LED_DISPLAY1: u8 = 8;
pub const LED_DISPLAY2: u8 = 9;
pub const LED_DISPLAY3: u8 = 10;
pub const LED_DISPLAY4: u8 = 11;
pub const LED_DISPLAY5: u8 = 12;
pub const LED_DISPLAY6: u8 = 13;
pub const LED_DISPLAY7: u8 = 14;
pub const LED_DISPLAY8: u8 = 15;
pub const LED_SCENE: u8 = 16;
pub const LED_PATTERN: u8 = 17;
pub const LED_PADMODE: u8 = 18;
pub const LED_NAVIGATE: u8 = 19;
pub const LED_DUPLICATE: u8 = 20;
pub const LED_SELECT: u8 = 21;
pub const LED_SOLO: u8 = 22;
pub const LED_MUTE: u8 = 23;
pub const LED_VOLUME: u8 = 24;
pub const LED_SWING: u8 = 25;
pub const LED_TEMPO: u8 = 26;
pub const LED_MAIN_LEFT: u8 = 27;
pub const LED_MAIN_RIGHT: u8 = 28;
pub const LED_ENTER: u8 = 29;
pub const LED_NOTE_REPEAT: u8 = 30;
pub const LED_RESTART: u8 = 48;
pub const LED_TRANSPORT_LEFT: u8 = 49;
pub const LED_TRANSPORT_RIGHT: u8 = 50;
pub const LED_GRID: u8 = 51;
pub const LED_PLAY: u8 = 52;
pub const LED_REC: u8 = 53;
pub const LED_ERASE: u8 = 54;
pub const LED_SHIFT: u8 = 55;
pub const LED_PAD13: u8 = 56;
pub const LED_PAD14: u8 = 59;
pub const LED_PAD15: u8 = 62;
pub const LED_PAD16: u8 = 65;
pub const LED_PAD09: u8 = 68;
pub const LED_PAD10: u8 = 71;
pub const LED_PAD11: u8 = 74;
pub const LED_PAD12: u8 = 77;
pub const LED_PAD05: u8 = 80;
pub const LED_PAD06: u8 = 83;
pub const LED_PAD07: u8 = 86;
pub const LED_PAD08: u8 = 89;
pub const LED_PAD01: u8 = 92;
pub const LED_PAD02: u8 = 95;
pub const LED_PAD03: u8 = 98;
pub const LED_PAD04: u8 = 101;
pub const LED_GROUPA: u8 = 104;
pub const LED_GROUPB: u8 = 110;
pub const LED_GROUPC: u8 = 116;
pub const LED_GROUPD: u8 = 122;
pub const LED_GROUPE: u8 = 128;
pub const LED_GROUPF: u8 = 134;
pub const LED_GROUPG: u8 = 140;
pub const LED_GROUPH: u8 = 146;

// Button numbers in input reports
pub const BUTTON_DISPLAY1: u8 = 0;
pub const BUTTON_DISPLAY2: u8 = 1;
pub const BUTTON_DISPLAY3: u8 = 2;
pub const BUTTON_DISPLAY4: u8 = 3;
pub const BUTTON_DISPLAY5: u8 = 4;
pub const BUTTON_DISPLAY6: u8 = 5;
pub const BUTTON_DISPLAY7: u8 = 6;
pub const BUTTON_DISPLAY8: u8 = 7;
pub const BUTTON_CONTROL: u8 = 8;
pub const BUTTON_STEP: u8 = 9;
pub const BUTTON_BROWSE: u8 = 10;
pub const BUTTON_SAMPLING: u8 = 11;
pub const BUTTON_BROWSELEFT: u8 = 12;
pub const BUTTON_BROWSERIGHT: u8 = 13;
pub const BUTTON_ALL: u8 = 14;
pub const BUTTON_AUTOWRITE: u8 = 15;
pub const BUTTON_VOLUME: u8 = 16;
pub const BUTTON_SWING: u8 = 17;
pub const BUTTON_TEMPO: u8 = 18;
pub const BUTTON_MAIN_LEFT: u8 = 19;
pub const BUTTON_MAIN_RIGHT: u8 = 20;
pub const BUTTON_ENTER: u8 = 21;
pub const BUTTON_NOTEREPEAT: u8 = 22;
pub const BUTTON_MAIN_ENCODER: u8 = 23;
pub const BUTTON_GROUPA: u8 = 24;
pub const BUTTON_GROUPB: u8 = 25;
pub const BUTTON_GROUPC: u8 = 26;
pub const BUTTON_GROUPD: u8 = 27;
pub const BUTTON_GROUPE: u8 = 28;
pub const BUTTON_GROUPF: u8 = 29;
pub const BUTTON_GROUPG: u8 = 30;
pub const BUTTON_GROUPH: u8 = 31;
pub const BUTTON_RESTART: u8 = 32;
pub const BUTTON_TRANSPORTLEFT: u8 = 33;
pub const BUTTON_TRANSPORTRIGHT: u8 = 34;
pub const BUTTON_GRID: u8 = 35;
pub const BUTTON_PLAY: u8 = 36;
pub const BUTTON_REC: u8 = 37;
pub const BUTTON_ERASE: u8 = 38;
pub const BUTTON_SHIFT: u8 = 39;
pub const BUTTON_SCENE: u8 = 40;
pub const BUTTON_PATTERN: u8 = 41;
pub const BUTTON_PADMODE: u8 = 42;
pub const BUTTON_NAVIGATE: u8 = 43;
pub const BUTTON_DUPLICATE: u8 = 44;
pub const BUTTON_SELECT: u8 = 45;
pub const BUTTON_SOLO: u8 = 46;
pub const BUTTON_MUTE: u8 = 47;

/// Number of buttons in an input report.
pub const BUTTON_COUNT: usize = 48;

/// Number of pads.
pub const PAD_COUNT: usize = 16;

/// Number of encoders; encoder 0 is the main encoder.
pub const ENCODER_COUNT: usize = 9;

/// Number of displays.
pub const DISPLAY_COUNT: u8 = 2;

/// Width of a display in pixels.
pub const DISPLAY_WIDTH: u32 = 256;

/// Height of a display in pixels.
pub const DISPLAY_HEIGHT: u32 = 64;

/// Number of chunks in which a display is sent.
pub const DISPLAY_CHUNKS: u32 = 8;

/// Bytes of pixel data in one display write.
pub const CHUNK_BYTES: usize = 256;

/// Address of the first display; the display index is or-ed into it.
pub const DISPLAY_ADDR: u8 = 0xE0;

/// Address of the button LED segment.
pub const BUTTON_LED_ADDR: u8 = 0x82;

/// Address of the group LED segment.
pub const GROUP_LED_ADDR: u8 = 0x81;

/// Address of the pad LED segment.
pub const PAD_LED_ADDR: u8 = 0x80;

/// Bytes in the button LED segment.
pub const BUTTON_LED_COUNT: usize = 32;

/// Bytes in the group LED segment.
pub const GROUP_LED_COUNT: usize = 57;

/// Bytes in the pad LED segment.
pub const PAD_LED_COUNT: usize = 49;

/// Kind byte of a report that carries buttons and encoders.
pub const REPORT_BUTTONS: u8 = 0x01;

/// Kind byte of a report that carries pad pressures.
pub const REPORT_PADS: u8 = 0x20;

/// Least number of payload bytes in a button report.
pub const BUTTON_REPORT_LEN: usize = 24;

/// Least number of payload bytes in a pad report.
pub const PAD_REPORT_LEN: usize = 64;

/// A pad counts as pressed when its pressure is above this.
pub const PAD_THRESHOLD: u16 = 512;

/// Number of reads in one polling phase.
pub const POLL_LIMIT: u8 = 32;

/// Pad reports are decoded on every read whose number is a multiple of this.
pub const PAD_CADENCE: u8 = 7;

/// The button that a report number stands for. Shift, which is handled
/// inside the driver, and numbers without a button give `Unknown`.
pub open spec fn spec_device_button(button: u8) -> Button {
    if button == BUTTON_DISPLAY1 {
        Button::Display1
    } else if button == BUTTON_DISPLAY2 {
        Button::Display2
    } else if button == BUTTON_DISPLAY3 {
        Button::Display3
    } else if button == BUTTON_DISPLAY4 {
        Button::Display4
    } else if button == BUTTON_DISPLAY5 {
        Button::Display5
    } else if button == BUTTON_DISPLAY6 {
        Button::Display6
    } else if button == BUTTON_DISPLAY7 {
        Button::Display7
    } else if button == BUTTON_DISPLAY8 {
        Button::Display8
    } else if button == BUTTON_CONTROL {
        Button::Control
    } else if button == BUTTON_STEP {
        Button::Step
    } else if button == BUTTON_BROWSE {
        Button::Browse
    } else if button == BUTTON_SAMPLING {
        Button::Sampling
    } else if button == BUTTON_BROWSELEFT {
        Button::BrowseLeft
    } else if button == BUTTON_BROWSERIGHT {
        Button::BrowseRight
    } else if button == BUTTON_ALL {
        Button::All
    } else if button == BUTTON_AUTOWRITE {
        Button::Autowrite
    } else if button == BUTTON_VOLUME {
        Button::Volume
    } else if button == BUTTON_SWING {
        Button::Swing
    } else if button == BUTTON_TEMPO {
        Button::Tempo
    } else if button == BUTTON_MAIN_LEFT {
        Button::MainLeft
    } else if button == BUTTON_MAIN_RIGHT {
        Button::MainRight
    } else if button == BUTTON_ENTER {
        Button::Enter
    } else if button == BUTTON_NOTEREPEAT {
        Button::NoteRepeat
    } else if button == BUTTON_MAIN_ENCODER {
        Button::MainEncoder
    } else if button == BUTTON_GROUPA {
        Button::GroupA
    } else if button == BUTTON_GROUPB {
        Button::GroupB
    } else if button == BUTTON_GROUPC {
        Button::GroupC
    } else if button == BUTTON_GROUPD {
        Button::GroupD
    } else if button == BUTTON_GROUPE {
        Button::GroupE
    } else if button == BUTTON_GROUPF {
        Button::GroupF
    } else if button == BUTTON_GROUPG {
        Button::GroupG
    } else if button == BUTTON_GROUPH {
        Button::GroupH
    } else if button == BUTTON_RESTART {
        Button::Restart
    } else if button == BUTTON_TRANSPORTLEFT {
        Button::TransportLeft
    } else if button == BUTTON_TRANSPORTRIGHT {
        Button::TransportRight
    } else if button == BUTTON_GRID {
        Button::Grid
    } else if button == BUTTON_PLAY {
        Button::Play
    } else if button == BUTTON_REC {
        Button::Rec
    } else if button == BUTTON_ERASE {
        Button::Erase
    } else if button == BUTTON_SCENE {
        Button::Scene
    } else if button == BUTTON_PATTERN {
        Button::Pattern
    } else if button == BUTTON_PADMODE {
        Button::PadMode
    } else if button == BUTTON_NAVIGATE {
        Button::Nav
    } else if button == BUTTON_DUPLICATE {
        Button::Duplicate
    } else if button == BUTTON_SELECT {
        Button::Select
    } else if button == BUTTON_SOLO {
        Button::Solo
    } else if button == BUTTON_MUTE {
        Button::Mute
    } else {
        Button::Unknown
    }
}

/// The LED register of a button, for buttons that have an LED.
pub open spec fn spec_button_led(button: Button) -> Option<u8> {
    match button {
        Button::Erase => Some(LED_ERASE),
        Button::Rec => Some(LED_REC),
        Button::Play => Some(LED_PLAY),
        Button::Grid => Some(LED_GRID),
        Button::TransportRight => Some(LED_TRANSPORT_RIGHT),
        Button::TransportLeft => Some(LED_TRANSPORT_LEFT),
        Button::Restart => Some(LED_RESTART),
        Button::NoteRepeat => Some(LED_NOTE_REPEAT),
        Button::Sampling => Some(LED_SAMPLING),
        Button::Browse => Some(LED_BROWSE),
        Button::GroupA => Some(LED_GROUPA),
        Button::GroupB => Some(LED_GROUPB),
        Button::GroupC => Some(LED_GROUPC),
        Button::GroupD => Some(LED_GROUPD),
        Button::GroupE => Some(LED_GROUPE),
        Button::GroupF => Some(LED_GROUPF),
        Button::GroupG => Some(LED_GROUPG),
        Button::GroupH => Some(LED_GROUPH),
        Button::BrowseRight => Some(LED_BROWSE_RIGHT),
        Button::BrowseLeft => Some(LED_BROWSE_LEFT),
        Button::Nav => Some(LED_NAVIGATE),
        Button::Control => Some(LED_CONTROL),
        Button::Display1 => Some(LED_DISPLAY1),
        Button::Display2 => Some(LED_DISPLAY2),
        Button::Display3 => Some(LED_DISPLAY3),
        Button::Display4 => Some(LED_DISPLAY4),
        Button::Display5 => Some(LED_DISPLAY5),
        Button::Display6 => Some(LED_DISPLAY6),
        Button::Display7 => Some(LED_DISPLAY7),
        Button::Display8 => Some(LED_DISPLAY8),
        Button::Mute => Some(LED_MUTE),
        Button::Solo => Some(LED_SOLO),
        Button::Select => Some(LED_SELECT),
        Button::Duplicate => Some(LED_DUPLICATE),
        Button::PadMode => Some(LED_PADMODE),
        Button::Pattern => Some(LED_PATTERN),
        Button::Scene => Some(LED_SCENE),
        Button::All => Some(LED_ALL),
        Button::Autowrite => Some(LED_AUTOWRITE),
        Button::Volume => Some(LED_VOLUME),
        Button::Swing => Some(LED_SWING),
        Button::Tempo => Some(LED_TEMPO),
        Button::Enter => Some(LED_ENTER),
        Button::Step => Some(LED_STEP),
        Button::MainLeft => Some(LED_MAIN_LEFT),
        Button::MainRight => Some(LED_MAIN_RIGHT),
        _ => None,
    }
}

/// The first LED register of a pad: pads are numbered row by row from the
/// top left, and each takes three registers.
pub open spec fn spec_pad_led(pad: u8) -> Option<u8> {
    if pad < 16 {
        Some((LED_PAD13 + 3 * pad) as u8)
    } else {
        None
    }
}

/// Something that is written to the device as a whole and has a dirty
/// flag of its own.
#[derive(Debug, Clone, Copy, PartialEq, Eq, Structural)]
pub enum Target {
    /// The button LED segment.
    ButtonLeds,
    /// The group LED segment.
    GroupLeds,
    /// The pad LED segment.
    PadLeds,
    /// One chunk of one display.
    Display { display: u8, chunk: u8 },
}

/// The state of a Maschine Mk2: what was last seen of its buttons, pads
/// and encoders, what its LEDs and displays should show, and what of that
/// has not reached the device yet.
pub struct MaschineMk2 {
    phase: Phase,
    displays: [MonochromeCanvas; 2],
    button_leds: [u8; 32],
    button_leds_dirty: bool,
    group_leds: [u8; 57],
    group_leds_dirty: bool,
    pad_leds: [u8; 49],
    pad_leds_dirty: bool,
    button_states: [bool; 48],
    shift_pressed: bool,
    pads_data: [u16; 16],
    pads_status: [bool; 16],
    dials: Dials,
}

/// Where the round of phases stands: which phase is due, and how many
/// reads the polling phase has made.
struct Phase {
    tick_state: u8,
    polls: u8,
}

impl Phase {
    #[verifier::type_invariant]
    spec fn inv(self) -> bool {
        self.tick_state < 3 && self.polls <= 32
    }
}

/// The last raw value of each encoder, each within its encoder's domain.
struct Dials {
    values: [u16; 9],
}

impl Dials {
    #[verifier::type_invariant]
    spec fn inv(self) -> bool {
        forall|i: int| 0 <= i < 9 ==> (#[trigger] self.values[i]) < encoder_range(i)
    }
}

/// A byte is the sum of the weights of its set bits.
proof fn lemma_byte_is_sum_of_bits(b: u8)
    by (bit_vector)
    ensures
        b == (if b & (0x80u8 >> 0u8) != 0 { 128u8 } else { 0u8 })
            + (if b & (0x80u8 >> 1u8) != 0 { 64u8 } else { 0u8 })
            + (if b & (0x80u8 >> 2u8) != 0 { 32u8 } else { 0u8 })
            + (if b & (0x80u8 >> 3u8) != 0 { 16u8 } else { 0u8 })
            + (if b & (0x80u8 >> 4u8) != 0 { 8u8 } else { 0u8 })
            + (if b & (0x80u8 >> 5u8) != 0 { 4u8 } else { 0u8 })
            + (if b & (0x80u8 >> 6u8) != 0 { 2u8 } else { 0u8 })
            + (if b & (0x80u8 >> 7u8) != 0 { 1u8 } else { 0u8 }),
{
}

/// Byte `k` of a packed buffer has the value that its eight pixels give.
proof fn lemma_packed_byte(bytes: Seq<u8>, pixels: Seq<bool>, k: int)
    requires
        packs(bytes, pixels),
        0 <= k,
        8 * k + 7 < pixels.len(),
    ensures
        bytes[k] == byte_of(pixels, k),
{
    let b = bytes[k];
    lemma_byte_is_sum_of_bits(b);
    assert(pixels[8 * k] == bit_at(bytes, 8 * k));
    assert(pixels[8 * k + 1] == bit_at(bytes, 8 * k + 1));
    assert(pixels[8 * k + 2] == bit_at(bytes, 8 * k + 2));
    assert(pixels[8 * k + 3] == bit_at(bytes, 8 * k + 3));
    assert(pixels[8 * k + 4] == bit_at(bytes, 8 * k + 4));
    assert(pixels[8 * k + 5] == bit_at(bytes, 8 * k + 5));
    assert(pixels[8 * k + 6] == bit_at(bytes, 8 * k + 6));
    assert(pixels[8 * k + 7] == bit_at(bytes, 8 * k + 7));
}

/// A flag that is not set does not change which flag is the first set one.
proof fn lemma_first_set_skips(flags: Seq<bool>, from: int)
    requires
        0 <= from < flags.len(),
        !flags[from],
    ensures
        first_set(flags, from) == first_set(flags, from + 1),
{
}

/// The signed shortest way round a dial of `range` positions from
/// `previous` to `current`; the forward way where both are equally long.
pub fn encoder_delta(range: u16, previous: u16, current: u16) -> (delta: i16)
    requires
        0 < range <= 0x4000,
        previous < range,
        current < range,
    ensures
        delta == circular_delta(range as int, previous as int, current as int),
{
    let forward: u16 = (range + current - previous) % range;
    let backward: u16 = (range - current + previous) % range;
    if forward < backward {
        forward as i16
    } else {
        -(backward as i16)
    }
}

/// The bytes of the write that brings an LED segment to the device.
fn segment_report(address: u8, segment: &[u8]) -> (report: Vec<u8>)
    ensures
        report@ == led_report(address, segment@),
{
    let mut report: Vec<u8> = Vec::new();
    report.push(address);
    let n: usize = segment.len();
    let mut at: usize = 0;
    while at < n
        invariant
            at <= n,
            n == segment@.len(),
            report@ == seq![address] + segment@.take(at as int),
        decreases n - at,
    {
        report.push(segment[at]);
        at = at + 1;
        assert(report@ =~= seq![address] + segment@.take(at as int));
    }
    assert(segment@.take(n as int) =~= segment@);
    report
}

impl View for MaschineMk2 {
    type V = Mk2View;

    closed spec fn view(&self) -> Mk2View {
        Mk2View {
            tick_state: self.phase.tick_state as int,
            polls: self.phase.polls as int,
            displays: Seq::new(2, |d: int| self.displays[d]@),
            button_leds: self.button_leds@,
            button_leds_dirty: self.button_leds_dirty,
            group_leds: self.group_leds@,
            group_leds_dirty: self.group_leds_dirty,
            pad_leds: self.pad_leds@,
            pad_leds_dirty: self.pad_leds_dirty,
            button_states: self.button_states@,
            shift_pressed: self.shift_pressed,
            pads_data: self.pads_data@,
            pads_status: self.pads_status@,
            encoder_values: self.dials.values@,
        }
    }
}

impl MaschineMk2 {
    /// USB vendor id of the controller.
    pub const VENDOR_ID: u16 = 0x17cc;

    /// USB product id of the controller.
    pub const PRODUCT_ID: u16 = 0x1140;

    /// The state for a controller that was just opened: nothing pressed,
    /// everything dark, everything dirty.
    pub fn new() -> (device: Self)
        ensures
            device@ == Mk2View::initial(),
            device@.wf(),
    {
        let device = MaschineMk2 {
            phase: Phase { tick_state: 0, polls: 0 },
            displays: [
                MonochromeCanvas::new(DISPLAY_WIDTH, DISPLAY_HEIGHT, DISPLAY_CHUNKS),
                MonochromeCanvas::new(DISPLAY_WIDTH, DISPLAY_HEIGHT, DISPLAY_CHUNKS),
            ],
            button_leds: [0u8; 32],
            button_leds_dirty: true,
            group_leds: [0u8; 57],
            group_leds_dirty: true,
            pad_leds: [0u8; 49],
            pad_leds_dirty: true,
            button_states: [false; 48],
            shift_pressed: false,
            pads_data: [0u16; 16],
            pads_status: [false; 16],
            dials: Dials { values: [0u16; 9] },
        };
        proof {
            let v = device@;
            let i = Mk2View::initial();
            assert(v.displays =~= i.displays);
            assert(v.button_leds =~= i.button_leds);
            assert(v.group_leds =~= i.group_leds);
            assert(v.pad_leds =~= i.pad_leds);
            assert(v.button_states =~= i.button_states);
            assert(v.pads_data =~= i.pads_data);
            assert(v.pads_status =~= i.pads_status);
            assert(v.encoder_values =~= i.encoder_values);
        }
        device
    }

    /// Converts a button number of an input report into a button.
    pub fn as_device_button(button: u8) -> (b: Button)
        ensures
            b == spec_device_button(button),
    {
        match button {
            BUTTON_DISPLAY1 => Button::Display1,
            BUTTON_DISPLAY2 => Button::Display2,
            BUTTON_DISPLAY3 => Button::Display3,
            BUTTON_DISPLAY4 => Button::Display4,
            BUTTON_DISPLAY5 => Button::Display5,
            BUTTON_DISPLAY6 => Button::Display6,
            BUTTON_DISPLAY7 => Button::Display7,
            BUTTON_DISPLAY8 => Button::Display8,
            BUTTON_CONTROL => Button::Control,
            BUTTON_STEP => Button::Step,
            BUTTON_BROWSE => Button::Browse,
            BUTTON_SAMPLING => Button::Sampling,
            BUTTON_BROWSELEFT => Button::BrowseLeft,
            BUTTON_BROWSERIGHT => Button::BrowseRight,
            BUTTON_ALL => Button::All,
            BUTTON_AUTOWRITE => Button::Autowrite,
            BUTTON_VOLUME => Button::Volume,
            BUTTON_SWING => Button::Swing,
            BUTTON_TEMPO => Button::Tempo,
            BUTTON_MAIN_LEFT => Button::MainLeft,
            BUTTON_MAIN_RIGHT => Button::MainRight,
            BUTTON_ENTER => Button::Enter,
            BUTTON_NOTEREPEAT => Button::NoteRepeat,
            BUTTON_MAIN_ENCODER => Button::MainEncoder,
            BUTTON_GROUPA => Button::GroupA,
            BUTTON_GROUPB => Button::GroupB,
            BUTTON_GROUPC => Button::GroupC,
            BUTTON_GROUPD => Button::GroupD,
            BUTTON_GROUPE => Button::GroupE,
            BUTTON_GROUPF => Button::GroupF,
            BUTTON_GROUPG => Button::GroupG,
            BUTTON_GROUPH => Button::GroupH,
            BUTTON_RESTART => Button::Restart,
            BUTTON_TRANSPORTLEFT => Button::TransportLeft,
            BUTTON_TRANSPORTRIGHT => Button::TransportRight,
            BUTTON_GRID => Button::Grid,
            BUTTON_PLAY => Button::Play,
            BUTTON_REC => Button::Rec,
            BUTTON_ERASE => Button::Erase,
            BUTTON_SCENE => Button::Scene,
            BUTTON_PATTERN => Button::Pattern,
            BUTTON_PADMODE => Button::PadMode,
            BUTTON_NAVIGATE => Button::Nav,
            BUTTON_DUPLICATE => Button::Duplicate,
            BUTTON_SELECT => Button::Select,
            BUTTON_SOLO => Button::Solo,
            BUTTON_MUTE => Button::Mute,
            _ => Button::Unknown,
        }
    }

    /// Finds the LED register of a button; `None` for buttons without an LED.
    pub fn button_to_led(button: Button) -> (led: Option<u8>)
        ensures
            led == spec_button_led(button),
    {
        match button {
            Button::Erase => Some(LED_ERASE),
            Button::Rec => Some(LED_REC),
            Button::Play => Some(LED_PLAY),
            Button::Grid => Some(LED_GRID),
            Button::TransportRight => Some(LED_TRANSPORT_RIGHT),
            Button::TransportLeft => Some(LED_TRANSPORT_LEFT),
            Button::Restart => Some(LED_RESTART),
            Button::NoteRepeat => Some(LED_NOTE_REPEAT),
            Button::Sampling => Some(LED_SAMPLING),
            Button::Browse => Some(LED_BROWSE),
            Button::GroupA => Some(LED_GROUPA),
            Button::GroupB => Some(LED_GROUPB),
            Button::GroupC => Some(LED_GROUPC),
            Button::GroupD => Some(LED_GROUPD),
            Button::GroupE => Some(LED_GROUPE),
            Button::GroupF => Some(LED_GROUPF),
            Button::GroupG => Some(LED_GROUPG),
            Button::GroupH => Some(LED_GROUPH),
            Button::BrowseRight => Some(LED_BROWSE_RIGHT),
            Button::BrowseLeft => Some(LED_BROWSE_LEFT),
            Button::Nav => Some(LED_NAVIGATE),
            Button::Control => Some(LED_CONTROL),
            Button::Display1 => Some(LED_DISPLAY1),
            Button::Display2 => Some(LED_DISPLAY2),
            Button::Display3 => Some(LED_DISPLAY3),
            Button::Display4 => Some(LED_DISPLAY4),
            Button::Display5 => Some(LED_DISPLAY5),
            Button::Display6 => Some(LED_DISPLAY6),
            Button::Display7 => Some(LED_DISPLAY7),
            Button::Display8 => Some(LED_DISPLAY8),
            Button::Mute => Some(LED_MUTE),
            Button::Solo => Some(LED_SOLO),
            Button::Select => Some(LED_SELECT),
            Button::Duplicate => Some(LED_DUPLICATE),
            Button::PadMode => Some(LED_PADMODE),
            Button::Pattern => Some(LED_PATTERN),
            Button::Scene => Some(LED_SCENE),
            Button::All => Some(LED_ALL),
            Button::Autowrite => Some(LED_AUTOWRITE),
            Button::Volume => Some(LED_VOLUME),
            Button::Swing => Some(LED_SWING),
            Button::Tempo => Some(LED_TEMPO),
            Button::Enter => Some(LED_ENTER),
            Button::Step => Some(LED_STEP),
            Button::MainLeft => Some(LED_MAIN_LEFT),
            Button::MainRight => Some(LED_MAIN_RIGHT),
            _ => None,
        }
    }

    /// Finds the first LED register of a pad; `None` if there is no such pad.
    pub fn pad_to_led(pad: u8) -> (led: Option<u8>)
        ensures
            led == spec_pad_led(pad),
    {
        match pad {
            0x0 => Some(LED_PAD13),
            0x1 => Some(LED_PAD14),
            0x2 => Some(LED_PAD15),
            0x3 => Some(LED_PAD16),
            0x4 => Some(LED_PAD09),
            0x5 => Some(LED_PAD10),
            0x6 => Some(LED_PAD11),
            0x7 => Some(LED_PAD12),
            0x8 => Some(LED_PAD05),
            0x9 => Some(LED_PAD06),
            0xA => Some(LED_PAD07),
            0xB => Some(LED_PAD08),
            0xC => Some(LED_PAD01),
            0xD => Some(LED_PAD02),
            0xE => Some(LED_PAD03),
            0xF => Some(LED_PAD04),
            _ => None,
        }
    }

    /// Whether an LED register takes a red, green and blue byte.
    pub fn is_rgb_led(led: u8) -> (rgb: bool)
        ensures
            rgb == (56 <= led <= 101 || 104 <= led <= 146),
    {
        (LED_GROUPA <= led && led <= LED_GROUPH) || (LED_PAD13 <= led && led <= LED_PAD04)
    }

    /// Writes `color` to LED register `led` and marks its segment dirty.
    ///
    /// Fails, changing nothing, if there is no such register.
    pub fn set_led(&mut self, led: u8, color: Color) -> (res: Result<(), Error>)
        ensures
            led_segment(led) is Some ==> res == Ok::<(), Error>(()),
            led_segment(led) is None ==> res == Err::<(), Error>(Error::InvalidLed(led)),
            final(self)@ == old(self)@.set_led(led, color),
            final(self)@.wf(),
    {
        proof {
            use_type_invariant(&self.phase);
            use_type_invariant(&self.dials);
        }
        let base: usize = led as usize;
        if Self::is_rgb_led(led) {
            let r: u8 = color.red();
            let g: u8 = color.green();
            let b: u8 = color.blue();
            if led <= LED_PAD04 {
                let at: usize = base - LED_PAD13 as usize;
                self.pad_leds[at] = r;
                self.pad_leds[at + 1] = g;
                self.pad_leds[at + 2] = b;
                self.pad_leds_dirty = true;
            } else {
                let at: usize = base - LED_GROUPA as usize;
                self.group_leds[at] = r;
                self.group_leds[at + 1] = g;
                self.group_leds[at + 2] = b;
                self.group_leds[at + 3] = r;
                self.group_leds[at + 4] = g;
                self.group_leds[at + 5] = b;
                self.group_leds_dirty = true;
            }
            Ok(())
        } else {
            let m: u8 = if color.is_active() { 0xFF } else { 0x00 };
            if led >= LED_RESTART && led <= LED_SHIFT {
                self.group_leds[base] = m;
                self.group_leds_dirty = true;
                Ok(())
            } else if base < BUTTON_LED_COUNT {
                self.button_leds[base] = m;
                self.button_leds_dirty = true;
                Ok(())
            } else {
                Err(Error::InvalidLed(led))
            }
        }
    }

    /// Sets the LED of a button; does nothing for a button without an LED.
    pub fn set_button_led(&mut self, button: Button, color: Color)
        ensures
            final(self)@ == match spec_button_led(button) {
                Some(led) => old(self)@.set_led(led, color),
                None => old(self)@,
            },
            final(self)@.wf(),
    {
        proof {
            use_type_invariant(&self.phase);
            use_type_invariant(&self.dials);
        }
        if let Some(led) = Self::button_to_led(button) {
            let _ = self.set_led(led, color);
        }
    }

    /// Sets the LED of a pad; does nothing if there is no such pad.
    pub fn set_pad_led(&mut self, pad: u8, color: Color)
        ensures
            final(self)@ == match spec_pad_led(pad) {
                Some(led) => old(self)@.set_led(led, color),
                None => old(self)@,
            },
            final(self)@.wf(),
    {
        proof {
            use_type_invariant(&self.phase);
            use_type_invariant(&self.dials);
        }
        if let Some(led) = Self::pad_to_led(pad) {
            let _ = self.set_led(led, color);
        }
    }

    /// Hands out display `display_idx` for drawing.
    ///
    /// Fails if there is no such display.
    pub fn get_display(&mut self, display_idx: u8) -> (res: Result<&mut MonochromeCanvas, Error>)
        ensures
            display_idx >= 2 ==> res == Err::<&mut MonochromeCanvas, Error>(
                Error::InvalidDisplay(display_idx),
            ) && final(self)@ == old(self)@,
            display_idx < 2 ==> res is Ok && res->Ok_0@ == old(self)@.displays[display_idx as int],
            display_idx < 2 ==> final(self)@.displays == old(self)@.displays.update(
                display_idx as int,
                final(res->Ok_0)@,
            ),
            (Mk2View { displays: old(self)@.displays, ..final(self)@ }) == old(self)@,
    {
        proof {
            use_type_invariant(&self.phase);
            use_type_invariant(&self.dials);
        }
        if display_idx >= DISPLAY_COUNT {
            Err(Error::InvalidDisplay(display_idx))
        } else {
            Ok(&mut self.displays[display_idx as usize])
        }
    }

    /// Decodes the payload of a button report: 48 button bits, then the
    /// nine encoders.
    ///
    /// Buttons are looked at in ascending order, then encoders in
    /// ascending order, and the events are queued in that order. Fails
    /// with `InvalidReport`, changing nothing, if the payload has fewer
    /// than 24 bytes.
    ///
    /// A state that was just made remembers zero for every encoder, not
    /// where the encoders stand. The first report of an encoder that does
    /// not stand at zero therefore gives an event whose distance is
    /// measured from zero.
    pub fn process_buttons(&mut self, buffer: &[u8], context: &mut EventContext) -> (res: Result<
        (),
        Error,
    >)
        ensures
            buffer@.len() < 24 ==> res == Err::<(), Error>(Error::InvalidReport) && final(self)@
                == old(self)@ && final(context).events@ == old(context).events@,
            buffer@.len() >= 24 ==> res == Ok::<(), Error>(()) && final(self)@ == old(
                self,
            )@.decode_buttons(buffer@).0 && final(context).events@ == old(context).events@ + old(
                self,
            )@.decode_buttons(buffer@).1,
            final(self)@.wf(),
    {
        proof {
            use_type_invariant(&self.phase);
            use_type_invariant(&self.dials);
        }
        if buffer.len() < BUTTON_REPORT_LEN {
            return Err(Error::InvalidReport);
        }
        let mut btn: u8 = 0;
        while btn < 48
            invariant
                btn <= 48,
                buffer@.len() >= 24,
                self.phase.inv(),
                self.dials.inv(),
                self@ == old(self)@.scan_buttons(buffer@, btn as nat).0,
                context.events@ == old(context).events@ + old(self)@.scan_buttons(
                    buffer@,
                    btn as nat,
                ).1,
            decreases 48 - btn,
        {
            let ghost before = self@;
            let ghost queued = context.events@;
            let pressed: bool = buffer[(btn / 8) as usize] & (1u8 << (btn % 8)) != 0;
            assert(pressed == button_bit(buffer@, btn as int));
            if pressed != self.button_states[btn as usize] {
                self.button_states[btn as usize] = pressed;
                if btn == BUTTON_SHIFT {
                    self.shift_pressed = pressed;
                    let lamp = if pressed { Color::white() } else { Color::black() };
                    let _ = self.set_led(LED_SHIFT, lamp);
                } else {
                    let button = Self::as_device_button(btn);
                    context.add_event(Event::Button(button, pressed, self.shift_pressed));
                }
            }
            proof {
                let step = before.scan_button(buffer@, btn as int);
                assert(self@ == step.0);
                assert(context.events@ =~= queued + step.1);
                assert(context.events@ =~= old(context).events@ + (old(self)@.scan_buttons(
                    buffer@,
                    btn as nat,
                ).1 + step.1));
            }
            btn = btn + 1;
        }
        let ghost scanned = self@;
        let ghost button_events = old(self)@.scan_buttons(buffer@, 48).1;
        let mut i: usize = 0;
        while i < 9
            invariant
                i <= 9,
                buffer@.len() >= 24,
                self.phase.inv(),
                self.dials.inv(),
                self@ == scanned.scan_encoders(buffer@, i as nat).0,
                context.events@ == old(context).events@ + button_events + scanned.scan_encoders(
                    buffer@,
                    i as nat,
                ).1,
            decreases 9 - i,
        {
            let ghost before = self@;
            let ghost queued = context.events@;
            let range: u16 = if i == 0 { 16 } else { 1024 };
            let value: u16 = if i == 0 {
                (buffer[7] % 16) as u16
            } else {
                ((buffer[7 + 2 * i] % 4) as u16) * 256 + buffer[6 + 2 * i] as u16
            };
            assert(value == encoder_reading(buffer@, i as int));
            let previous: u16 = self.dials.values[i];
            if previous != value {
                let delta: i16 = encoder_delta(range, previous, value);
                context.add_event(Event::Encoder(i as u8, value, delta, self.shift_pressed));
                self.dials.values[i] = value;
            }
            proof {
                let step = before.scan_encoder(buffer@, i as int);
                assert(self@ == step.0);
                assert(context.events@ =~= queued + step.1);
                assert(context.events@ =~= old(context).events@ + button_events + (
                scanned.scan_encoders(buffer@, i as nat).1 + step.1));
            }
            i = i + 1;
        }
        proof {
            assert(context.events@ =~= old(context).events@ + (button_events
                + scanned.scan_encoders(buffer@, 9).1));
        }
        Ok(())
    }

    /// Decodes the payload of a pad report: 16 entries of two bytes, each
    /// naming its pad.
    ///
    /// Fails with `InvalidReport`, changing nothing, if the payload has
    /// fewer than 64 bytes.
    pub fn process_pads(&mut self, buffer: &[u8], context: &mut EventContext) -> (res: Result<
        (),
        Error,
    >)
        ensures
            buffer@.len() < 64 ==> res == Err::<(), Error>(Error::InvalidReport) && final(self)@
                == old(self)@ && final(context).events@ == old(context).events@,
            buffer@.len() >= 64 ==> res == Ok::<(), Error>(()) && final(self)@ == old(
                self,
            )@.decode_pads(buffer@).0 && final(context).events@ == old(context).events@ + old(
                self,
            )@.decode_pads(buffer@).1,
            final(self)@.wf(),
    {
        proof {
            use_type_invariant(&self.phase);
            use_type_invariant(&self.dials);
        }
        if buffer.len() < PAD_REPORT_LEN {
            return Err(Error::InvalidReport);
        }
        let mut n: usize = 0;
        while n < 16
            invariant
                n <= 16,
                buffer@.len() >= 64,
                self.phase.inv(),
                self.dials.inv(),
                self@ == old(self)@.scan_pads(buffer@, n as nat).0,
                context.events@ == old(context).events@ + old(self)@.scan_pads(buffer@, n as nat).1,
            decreases 16 - n,
        {
            let ghost before = self@;
            let ghost queued = context.events@;
            let low: u8 = buffer[2 * n];
            let high: u8 = buffer[2 * n + 1];
            let pad: usize = (high / 16) as usize;
            let pressure: u16 = ((high % 16) as u16) * 256 + low as u16;
            let pressed: bool = pressure > PAD_THRESHOLD;
            assert(pad == pad_index(buffer@, n as int));
            assert(pressure == pad_pressure(buffer@, n as int));
            self.pads_data[pad] = pressure;
            if pressed || self.pads_status[pad] {
                self.pads_status[pad] = pressed;
                let velocity: u8 = if pressed { (pressure / 16) as u8 } else { 0 };
                context.add_event(Event::Pad(pad as u8, velocity, self.shift_pressed));
            }
            proof {
                let step = before.scan_pad(buffer@, n as int);
                assert(self@ == step.0);
                assert(context.events@ =~= queued + step.1);
                assert(context.events@ =~= old(context).events@ + (old(self)@.scan_pads(
                    buffer@,
                    n as nat,
                ).1 + step.1));
            }
            n = n + 1;
        }
        Ok(())
    }

    /// The first LED segment that is dirty, in the order button, group, pad.
    pub fn pending_leds(&self) -> (target: Option<Target>)
        ensures
            target == self@.pending_leds(),
    {
        if self.button_leds_dirty {
            Some(Target::ButtonLeds)
        } else if self.group_leds_dirty {
            Some(Target::GroupLeds)
        } else if self.pad_leds_dirty {
            Some(Target::PadLeds)
        } else {
            None
        }
    }

    /// The first dirty chunk of display `display_idx`, if it has one.
    ///
    /// Fails if there is no such display, or if its canvas was replaced
    /// by one that does not have a display's geometry.
    pub fn pending_frame(&self, display_idx: u8) -> (res: Result<Option<Target>, Error>)
        ensures
            res == self@.pending_frame(display_idx),
    {
        if display_idx >= DISPLAY_COUNT {
            return Err(Error::InvalidDisplay(display_idx));
        }
        let canvas = &self.displays[display_idx as usize];
        let size = canvas.size();
        if size.x != DISPLAY_WIDTH || size.y != DISPLAY_HEIGHT || canvas.number_of_chunks()
            != DISPLAY_CHUNKS {
            return Err(Error::InvalidDisplay(display_idx));
        }
        let mut chunk: u8 = 0;
        while chunk < 8
            invariant
                chunk <= 8,
                display_idx < 2,
                display_ready(canvas@),
                canvas@ == self@.displays[display_idx as int],
                first_set(canvas@.dirty, 0) == first_set(canvas@.dirty, chunk as int),
            decreases 8 - chunk,
        {
            if canvas.is_chunk_dirty(chunk as u32) {
                return Ok(Some(Target::Display { display: display_idx, chunk }));
            }
            proof {
                lemma_first_set_skips(canvas@.dirty, chunk as int);
            }
            chunk = chunk + 1;
        }
        Ok(None)
    }

    /// The first dirty chunk of the first display that has one.
    pub fn pending_frames(&self) -> (res: Result<Option<Target>, Error>)
        ensures
            res == self@.pending_frames(),
    {
        match self.pending_frame(0) {
            Ok(None) => self.pending_frame(1),
            other => other,
        }
    }

    /// The first thing that has to be written to bring the device in
    /// line with this state: LED segments come before display chunks.
    /// `None` when nothing is dirty.
    pub fn pending(&self) -> (res: Result<Option<Target>, Error>)
        ensures
            res == self@.pending(),
    {
        match self.pending_leds() {
            Some(target) => Ok(Some(target)),
            None => self.pending_frames(),
        }
    }

    /// The bytes of the write that brings `target` to the device.
    ///
    /// An LED segment is sent as its address followed by all its bytes. A
    /// display chunk is sent as the display's address, eight header bytes
    /// and the chunk's 256 bytes of pixels. Fails with `InvalidDisplay` if
    /// the target is a chunk that does not exist, or one of a canvas that
    /// does not have a display's geometry.
    pub fn report(&self, target: Target) -> (res: Result<Vec<u8>, Error>)
        ensures
            self@.writable(target) ==> res is Ok && res->Ok_0@ == self@.report(target),
            !self@.writable(target) ==> target is Display && res == Err::<Vec<u8>, Error>(
                Error::InvalidDisplay(target->display),
            ),
    {
        match target {
            Target::ButtonLeds => Ok(segment_report(BUTTON_LED_ADDR, &self.button_leds)),
            Target::GroupLeds => Ok(segment_report(GROUP_LED_ADDR, &self.group_leds)),
            Target::PadLeds => Ok(segment_report(PAD_LED_ADDR, &self.pad_leds)),
            Target::Display { display, chunk } => {
                if display >= DISPLAY_COUNT || chunk >= 8 {
                    return Err(Error::InvalidDisplay(display));
                }
                let canvas = &self.displays[display as usize];
                let size = canvas.size();
                if size.x != DISPLAY_WIDTH || size.y != DISPLAY_HEIGHT || canvas.number_of_chunks()
                    != DISPLAY_CHUNKS {
                    return Err(Error::InvalidDisplay(display));
                }
                let bytes = canvas.buffer();
                let mut frame: Vec<u8> = Vec::new();
                frame.push(DISPLAY_ADDR | display);
                frame.push(0x00);
                frame.push(0x00);
                frame.push(chunk * 8);
                frame.push(0x00);
                frame.push(0x20);
                frame.push(0x00);
                frame.push(0x08);
                frame.push(0x00);
                let ghost header = frame@;
                let first: usize = chunk as usize * CHUNK_BYTES;
                let mut k: usize = 0;
                while k < 256
                    invariant
                        k <= 256,
                        first == chunk * 256,
                        chunk < 8,
                        bytes@.len() == 2048,
                        canvas@.pixels.len() == 256 * 64,
                        packs(bytes@, canvas@.pixels),
                        frame@ == header + Seq::new(
                            k as nat,
                            |j: int| byte_of(canvas@.pixels, chunk * 256 + j),
                        ),
                    decreases 256 - k,
                {
                    proof {
                        lemma_packed_byte(bytes@, canvas@.pixels, first + k);
                    }
                    frame.push(bytes[first + k]);
                    k = k + 1;
                    assert(frame@ =~= header + Seq::new(
                        k as nat,
                        |j: int| byte_of(canvas@.pixels, chunk * 256 + j),
                    ));
                }
                assert(header =~= seq![
                    0xE0u8 | display,
                    0x00u8,
                    0x00u8,
                    (chunk * 8) as u8,
                    0x00u8,
                    0x20u8,
                    0x00u8,
                    0x08u8,
                    0x00u8,
                ]);
                Ok(frame)
            },
        }
    }

    /// Notes that the write for `target` has reached the device: its
    /// dirty flag is cleared. Until this is called the target stays
    /// dirty, so a write that failed is made again.
    pub fn acknowledge(&mut self, target: Target)
        ensures
            final(self)@ == old(self)@.acknowledge(target),
            final(self)@.wf(),
    {
        proof {
            use_type_invariant(&self.phase);
            use_type_invariant(&self.dials);
        }
        match target {
            Target::ButtonLeds => {
                self.button_leds_dirty = false;
            },
            Target::GroupLeds => {
                self.group_leds_dirty = false;
            },
            Target::PadLeds => {
                self.pad_leds_dirty = false;
            },
            Target::Display { display, chunk } => {
                if display < DISPLAY_COUNT {
                    self.displays[display as usize].clear_chunk_dirty(chunk as u32);
                    assert(self@.displays =~= old(self)@.displays.update(
                        display as int,
                        old(self)@.displays[display as int].clean_chunk(chunk as int),
                    ));
                }
            },
        }
    }

    /// What the current phase asks for next.
    pub fn next_action(&self) -> (res: Result<Action, Error>)
        ensures
            res == self@.next_action(),
    {
        if self.phase.tick_state == 0 {
            match self.pending_frames() {
                Err(e) => Err(e),
                Ok(Some(target)) => Ok(Action::Write(target)),
                Ok(None) => Ok(Action::Done),
            }
        } else if self.phase.tick_state == 1 {
            match self.pending_leds() {
                Some(target) => Ok(Action::Write(target)),
                None => Ok(Action::Done),
            }
        } else if self.phase.polls < POLL_LIMIT {
            Ok(Action::Read)
        } else {
            Ok(Action::Done)
        }
    }

    /// Takes the bytes that a read returned, decodes them if they are a
    /// report, and counts the read.
    pub fn receive(&mut self, data: &[u8], context: &mut EventContext) -> (res: Result<(), Error>)
        ensures
            final(self)@ == old(self)@.receive(data@).0,
            final(context).events@ == old(context).events@ + old(self)@.receive(data@).1,
            res == old(self)@.receive(data@).2,
            final(self)@.wf(),
    {
        proof {
            use_type_invariant(&self.phase);
            use_type_invariant(&self.dials);
        }
        let n: usize = data.len();
        if n > 0 && data[0] == REPORT_BUTTONS {
            if n < 25 {
                self.phase.polls = 0;
                assert(context.events@ =~= old(context).events@ + Seq::<Event>::empty());
                return Err(Error::InvalidReport);
            }
            let payload = vstd::slice::slice_subrange(data, 1, 25);
            self.process_buttons(payload, context)?;
        } else if n > 0 && data[0] == REPORT_PADS && self.phase.polls % PAD_CADENCE == 0 {
            if n < 65 {
                self.phase.polls = 0;
                assert(context.events@ =~= old(context).events@ + Seq::<Event>::empty());
                return Err(Error::InvalidReport);
            }
            let payload = vstd::slice::slice_subrange(data, 1, n);
            self.process_pads(payload, context)?;
        } else {
            assert(context.events@ =~= old(context).events@ + Seq::<Event>::empty());
        }
        proof {
            use_type_invariant(&self.phase);
            use_type_invariant(&self.dials);
        }
        if self.phase.polls < POLL_LIMIT {
            self.phase.polls = self.phase.polls + 1;
        }
        Ok(())
    }

    /// Gives the current phase up after the transport failed: the next
    /// tick starts the same phase from its beginning. What was dirty
    /// stays dirty.
    pub fn fail(&mut self)
        ensures
            final(self)@ == old(self)@.failed(),
            final(self)@.wf(),
    {
        proof {
            use_type_invariant(&self.phase);
            use_type_invariant(&self.dials);
        }
        self.phase.polls = 0;
    }

    /// Completes the current phase and moves on to the next of the three.
    pub fn finish(&mut self)
        ensures
            final(self)@ == old(self)@.finished(),
            final(self)@.wf(),
    {
        proof {
            use_type_invariant(&self.phase);
            use_type_invariant(&self.dials);
        }
        self.phase.tick_state = (self.phase.tick_state + 1) % 3;
        self.phase.polls = 0;
    }
}

} // verus!
