//! The mathematical model of the controller: what it remembers of the
//! device, and what reports, LED writes and acknowledgements do to that.

use vstd::prelude::*;
use crate::error::Error;
use crate::events::{Button, Event};
use crate::gfx::color::Color;
use crate::gfx::model::CanvasView;
use super::maschine_mk2::{spec_device_button, Target};

verus! {

/// What the driver remembers of the controller, as plain mathematical values.
pub struct Mk2View {
    /// The phase of the next tick: 0 sends displays, 1 sends LEDs, 2 polls input.
    pub tick_state: int,
    /// How many reads the current polling phase has made.
    pub polls: int,
    /// The two displays.
    pub displays: Seq<CanvasView>,
    /// The button LED segment: one byte per LED.
    pub button_leds: Seq<u8>,
    pub button_leds_dirty: bool,
    /// The group LED segment: six bytes per group button, then one byte
    /// per transport LED.
    pub group_leds: Seq<u8>,
    pub group_leds_dirty: bool,
    /// The pad LED segment: three bytes per pad.
    pub pad_leds: Seq<u8>,
    pub pad_leds_dirty: bool,
    /// Whether each button was pressed in the last button report.
    pub button_states: Seq<bool>,
    /// Whether shift is held.
    pub shift_pressed: bool,
    /// The last pressure of each pad.
    pub pads_data: Seq<u16>,
    /// Whether each pad was pressed in the last pad report.
    pub pads_status: Seq<bool>,
    /// The last raw value of each encoder.
    pub encoder_values: Seq<u16>,
}

/// The number of values an encoder can take: 16 for the main encoder,
/// 1024 for the others.
pub open spec fn encoder_range(encoder: int) -> int {
    if encoder == 0 {
        16
    } else {
        1024
    }
}

/// The signed shortest way round a dial of `range` positions from
/// `previous` to `current`. Where both ways are equally long the
/// forward one is taken.
pub open spec fn circular_delta(range: int, previous: int, current: int) -> int {
    let forward = (range + current - previous) % range;
    let backward = (range - current + previous) % range;
    if forward < backward {
        forward
    } else {
        -backward
    }
}

/// Whether the button with the given number is down in a button report:
/// one bit per button, eight buttons per byte, lowest bit first.
pub open spec fn button_bit(report: Seq<u8>, button: int) -> bool {
    report[button / 8] & (1u8 << ((button % 8) as u8)) != 0
}

/// The raw value of an encoder in a button report. The main encoder is
/// the low four bits of byte 7; encoder `i` is the ten-bit little-endian
/// number in bytes `6 + 2 * i` and `7 + 2 * i`.
pub open spec fn encoder_reading(report: Seq<u8>, encoder: int) -> u16 {
    if encoder == 0 {
        (report[7] % 16) as u16
    } else {
        ((report[7 + 2 * encoder] % 4) * 256 + report[6 + 2 * encoder]) as u16
    }
}

/// The pad that entry `n` of a pad report is about: the high four bits of
/// its second byte.
pub open spec fn pad_index(report: Seq<u8>, n: int) -> int {
    report[2 * n + 1] as int / 16
}

/// The pressure in entry `n` of a pad report: twelve bits, the low four
/// bits of the second byte above the first byte.
pub open spec fn pad_pressure(report: Seq<u8>, n: int) -> u16 {
    ((report[2 * n + 1] % 16) * 256 + report[2 * n]) as u16
}

/// The byte that a one-byte LED shows for a color: all ones if the color
/// is lit, zero if not.
pub open spec fn mono_byte(color: Color) -> u8 {
    if color.spec_is_active() {
        0xFF
    } else {
        0x00
    }
}

/// The segment that an LED register belongs to, for registers that exist.
pub open spec fn led_segment(led: u8) -> Option<Target> {
    if led < 32 {
        Some(Target::ButtonLeds)
    } else if 48 <= led <= 55 {
        Some(Target::GroupLeds)
    } else if 56 <= led <= 101 {
        Some(Target::PadLeds)
    } else if 104 <= led <= 146 {
        Some(Target::GroupLeds)
    } else {
        None
    }
}

/// What a pixel adds to the value of its byte: the weight of its bit if
/// it is lit, nothing if it is dark.
pub open spec fn weight(lit: bool, bit: int) -> int {
    if lit {
        bit
    } else {
        0
    }
}

/// The value of the byte that packs pixels `8 * k` to `8 * k + 7`, the
/// first of them in the most significant bit.
pub open spec fn byte_of(pixels: Seq<bool>, k: int) -> u8 {
    (weight(pixels[8 * k], 128) + weight(pixels[8 * k + 1], 64) + weight(pixels[8 * k + 2], 32)
        + weight(pixels[8 * k + 3], 16) + weight(pixels[8 * k + 4], 8) + weight(
        pixels[8 * k + 5],
        4,
    ) + weight(pixels[8 * k + 6], 2) + weight(pixels[8 * k + 7], 1)) as u8
}

/// The index of the first flag that is set, from `from` on.
pub open spec fn first_set(flags: Seq<bool>, from: int) -> Option<int>
    decreases flags.len() - from,
{
    if from < 0 || from >= flags.len() {
        None
    } else if flags[from] {
        Some(from)
    } else {
        first_set(flags, from + 1)
    }
}

/// Whether a canvas has the geometry of a display of this controller.
pub open spec fn display_ready(canvas: CanvasView) -> bool {
    &&& canvas.width == 256
    &&& canvas.height == 64
    &&& canvas.dirty.len() == 8
    &&& canvas.pixels.len() == 256 * 64
}

/// The write that brings an LED segment to the device: the segment's
/// address, then all its bytes.
pub open spec fn led_report(address: u8, segment: Seq<u8>) -> Seq<u8> {
    seq![address] + segment
}

/// The write that brings chunk `chunk` of display `display` to the
/// device: the display's address, a header that gives the first row (in
/// pixels), the bytes per row and the number of rows, then the chunk's 256
/// bytes of packed pixels.
pub open spec fn frame_report(display: u8, chunk: u8, canvas: CanvasView) -> Seq<u8> {
    seq![
        0xE0u8 | display,
        0x00u8,
        0x00u8,
        (chunk * 8) as u8,
        0x00u8,
        0x20u8,
        0x00u8,
        0x08u8,
        0x00u8,
    ] + Seq::new(256, |k: int| byte_of(canvas.pixels, chunk * 256 + k))
}

/// What the owner of the transport has to do next.
#[derive(Debug, Clone, Copy, PartialEq, Eq, Structural)]
pub enum Action {
    /// Write the report of this target to the device, then acknowledge it.
    Write(Target),
    /// Read a report from the device and hand it over.
    Read,
    /// The phase is complete: finish it.
    Done,
}

impl Mk2View {
    /// The state of a controller that was just opened: nothing pressed,
    /// all LEDs and pixels dark, and everything marked dirty so that the
    /// first writes bring the device in line.
    pub open spec fn initial() -> Mk2View {
        Mk2View {
            tick_state: 0,
            polls: 0,
            displays: Seq::new(2, |d: int| CanvasView::blank(256, 64, 8)),
            button_leds: Seq::new(32, |i: int| 0u8),
            button_leds_dirty: true,
            group_leds: Seq::new(57, |i: int| 0u8),
            group_leds_dirty: true,
            pad_leds: Seq::new(49, |i: int| 0u8),
            pad_leds_dirty: true,
            button_states: Seq::new(48, |i: int| false),
            shift_pressed: false,
            pads_data: Seq::new(16, |i: int| 0u16),
            pads_status: Seq::new(16, |i: int| false),
            encoder_values: Seq::new(9, |i: int| 0u16),
        }
    }

    /// The sizes are those of the device, the phase and the read count
    /// are in range, and every encoder value lies in its encoder's domain.
    pub open spec fn wf(self) -> bool {
        &&& 0 <= self.tick_state < 3
        &&& 0 <= self.polls <= 32
        &&& self.displays.len() == 2
        &&& self.button_leds.len() == 32
        &&& self.group_leds.len() == 57
        &&& self.pad_leds.len() == 49
        &&& self.button_states.len() == 48
        &&& self.pads_data.len() == 16
        &&& self.pads_status.len() == 16
        &&& self.encoder_values.len() == 9
        &&& forall|i: int| 0 <= i < 9 ==> (#[trigger] self.encoder_values[i]) < encoder_range(i)
    }

    /// Whether the given segment or chunk is marked dirty.
    pub open spec fn is_dirty(self, target: Target) -> bool {
        match target {
            Target::ButtonLeds => self.button_leds_dirty,
            Target::GroupLeds => self.group_leds_dirty,
            Target::PadLeds => self.pad_leds_dirty,
            Target::Display { display, chunk } => display < self.displays.len() && chunk
                < self.displays[display as int].dirty.len()
                && self.displays[display as int].dirty[chunk as int],
        }
    }

    /// The state after `color` was written to LED register `led`.
    ///
    /// Registers 0 to 31 are one-byte LEDs of the button segment and 48 to
    /// 55 one-byte LEDs of the group segment. Registers 56 to 101 take red,
    /// green and blue in three bytes of the pad segment. Registers 104 to
    /// 146 take them twice, in six bytes of the group segment, for the two
    /// lamps of a group button. The segment written to becomes dirty
    /// whether or not its bytes change. Other registers do not exist and
    /// leave the state as it is.
    pub open spec fn set_led(self, led: u8, color: Color) -> Mk2View {
        if led < 32 {
            Mk2View {
                button_leds: self.button_leds.update(led as int, mono_byte(color)),
                button_leds_dirty: true,
                ..self
            }
        } else if 48 <= led <= 55 {
            Mk2View {
                group_leds: self.group_leds.update(led as int, mono_byte(color)),
                group_leds_dirty: true,
                ..self
            }
        } else if 56 <= led <= 101 {
            let base = led - 56;
            Mk2View {
                pad_leds: self.pad_leds.update(base, color.spec_red()).update(
                    base + 1,
                    color.spec_green(),
                ).update(base + 2, color.spec_blue()),
                pad_leds_dirty: true,
                ..self
            }
        } else if 104 <= led <= 146 {
            let base = led - 104;
            Mk2View {
                group_leds: self.group_leds.update(base, color.spec_red()).update(
                    base + 1,
                    color.spec_green(),
                ).update(base + 2, color.spec_blue()).update(base + 3, color.spec_red()).update(
                    base + 4,
                    color.spec_green(),
                ).update(base + 5, color.spec_blue()),
                group_leds_dirty: true,
                ..self
            }
        } else {
            self
        }
    }

    /// The state and the event, if any, after button `button` of a button
    /// report was looked at.
    ///
    /// A button whose bit is as it was gives nothing. A change of shift
    /// is remembered and shown on the shift LED, lit while shift is held,
    /// and gives no event. A change of any other button gives an event
    /// that carries the shift state of that moment.
    pub open spec fn scan_button(self, report: Seq<u8>, button: int) -> (Mk2View, Seq<Event>) {
        let pressed = button_bit(report, button);
        if pressed == self.button_states[button] {
            (self, Seq::empty())
        } else {
            let noted = Mk2View {
                button_states: self.button_states.update(button, pressed),
                ..self
            };
            if button == 39 {
                (
                    Mk2View { shift_pressed: pressed, ..noted }.set_led(
                        55,
                        if pressed {
                            Color::spec_white()
                        } else {
                            Color::spec_black()
                        },
                    ),
                    Seq::empty(),
                )
            } else {
                (
                    noted,
                    seq![
                        Event::Button(
                            spec_device_button(button as u8),
                            pressed,
                            self.shift_pressed,
                        ),
                    ],
                )
            }
        }
    }

    /// The state and the events after the first `n` buttons of a button
    /// report were looked at, in ascending order.
    pub open spec fn scan_buttons(self, report: Seq<u8>, n: nat) -> (Mk2View, Seq<Event>)
        decreases n,
    {
        if n == 0 {
            (self, Seq::empty())
        } else {
            let (before, events) = self.scan_buttons(report, (n - 1) as nat);
            let (after, event) = before.scan_button(report, n - 1);
            (after, events + event)
        }
    }

    /// The state and the event, if any, after encoder `encoder` of a
    /// button report was looked at: a value that differs from the
    /// remembered one replaces it and gives an event with the signed
    /// shortest distance between the two.
    pub open spec fn scan_encoder(self, report: Seq<u8>, encoder: int) -> (Mk2View, Seq<Event>) {
        let value = encoder_reading(report, encoder);
        let previous = self.encoder_values[encoder];
        if value == previous {
            (self, Seq::empty())
        } else {
            (
                Mk2View { encoder_values: self.encoder_values.update(encoder, value), ..self },
                seq![
                    Event::Encoder(
                        encoder as u8,
                        value,
                        circular_delta(
                            encoder_range(encoder),
                            previous as int,
                            value as int,
                        ) as i16,
                        self.shift_pressed,
                    ),
                ],
            )
        }
    }

    /// The state and the events after the first `n` encoders of a button
    /// report were looked at, in ascending order.
    pub open spec fn scan_encoders(self, report: Seq<u8>, n: nat) -> (Mk2View, Seq<Event>)
        decreases n,
    {
        if n == 0 {
            (self, Seq::empty())
        } else {
            let (before, events) = self.scan_encoders(report, (n - 1) as nat);
            let (after, event) = before.scan_encoder(report, n - 1);
            (after, events + event)
        }
    }

    /// The state and the events after a whole button report: all 48
    /// buttons, then all 9 encoders.
    pub open spec fn decode_buttons(self, report: Seq<u8>) -> (Mk2View, Seq<Event>) {
        let (scanned, button_events) = self.scan_buttons(report, 48);
        let (decoded, encoder_events) = scanned.scan_encoders(report, 9);
        (decoded, button_events + encoder_events)
    }

    /// The state and the event, if any, after entry `n` of a pad report.
    ///
    /// The pressure is remembered. A pad that is pressed now, or was
    /// pressed in the report before, gives an event: with the top eight
    /// bits of the pressure while it is pressed, and with zero, once, when
    /// it has been let go.
    pub open spec fn scan_pad(self, report: Seq<u8>, n: int) -> (Mk2View, Seq<Event>) {
        let pad = pad_index(report, n);
        let pressure = pad_pressure(report, n);
        let pressed = pressure > 512;
        let noted = Mk2View { pads_data: self.pads_data.update(pad, pressure), ..self };
        if pressed || self.pads_status[pad] {
            (
                Mk2View { pads_status: self.pads_status.update(pad, pressed), ..noted },
                seq![
                    Event::Pad(
                        pad as u8,
                        if pressed {
                            (pressure / 16) as u8
                        } else {
                            0u8
                        },
                        self.shift_pressed,
                    ),
                ],
            )
        } else {
            (noted, Seq::empty())
        }
    }

    /// The state and the events after the first `n` entries of a pad report.
    pub open spec fn scan_pads(self, report: Seq<u8>, n: nat) -> (Mk2View, Seq<Event>)
        decreases n,
    {
        if n == 0 {
            (self, Seq::empty())
        } else {
            let (before, events) = self.scan_pads(report, (n - 1) as nat);
            let (after, event) = before.scan_pad(report, n - 1);
            (after, events + event)
        }
    }

    /// The state and the events after a whole pad report of 16 entries.
    pub open spec fn decode_pads(self, report: Seq<u8>) -> (Mk2View, Seq<Event>) {
        self.scan_pads(report, 16)
    }

    /// The first LED segment that is dirty, in the order button, group, pad.
    pub open spec fn pending_leds(self) -> Option<Target> {
        if self.button_leds_dirty {
            Some(Target::ButtonLeds)
        } else if self.group_leds_dirty {
            Some(Target::GroupLeds)
        } else if self.pad_leds_dirty {
            Some(Target::PadLeds)
        } else {
            None
        }
    }

    /// The first dirty chunk of a display, or the error for a display
    /// that does not exist or whose canvas does not have a display's geometry.
    pub open spec fn pending_frame(self, display: u8) -> Result<Option<Target>, Error> {
        if display >= 2 || display >= self.displays.len() || !display_ready(
            self.displays[display as int],
        ) {
            Err(Error::InvalidDisplay(display))
        } else {
            match first_set(self.displays[display as int].dirty, 0) {
                Some(chunk) => Ok(Some(Target::Display { display, chunk: chunk as u8 })),
                None => Ok(None),
            }
        }
    }

    /// The first dirty chunk of the first display that has one.
    pub open spec fn pending_frames(self) -> Result<Option<Target>, Error> {
        match self.pending_frame(0) {
            Ok(None) => self.pending_frame(1),
            other => other,
        }
    }

    /// The first thing that has to be written to bring the device in
    /// line: LED segments come before display chunks.
    pub open spec fn pending(self) -> Result<Option<Target>, Error> {
        match self.pending_leds() {
            Some(target) => Ok(Some(target)),
            None => self.pending_frames(),
        }
    }

    /// The bytes of the write that brings `target` to the device.
    pub open spec fn report(self, target: Target) -> Seq<u8> {
        match target {
            Target::ButtonLeds => led_report(0x82, self.button_leds),
            Target::GroupLeds => led_report(0x81, self.group_leds),
            Target::PadLeds => led_report(0x80, self.pad_leds),
            Target::Display { display, chunk } => frame_report(
                display,
                chunk,
                self.displays[display as int],
            ),
        }
    }

    /// The state after the write for `target` has reached the device: its
    /// dirty flag is cleared. A target that does not exist changes nothing.
    pub open spec fn acknowledge(self, target: Target) -> Mk2View {
        match target {
            Target::ButtonLeds => Mk2View { button_leds_dirty: false, ..self },
            Target::GroupLeds => Mk2View { group_leds_dirty: false, ..self },
            Target::PadLeds => Mk2View { pad_leds_dirty: false, ..self },
            Target::Display { display, chunk } => if display < self.displays.len() {
                Mk2View {
                    displays: self.displays.update(
                        display as int,
                        self.displays[display as int].clean_chunk(chunk as int),
                    ),
                    ..self
                }
            } else {
                self
            },
        }
    }

    /// The state with the read count raised by one, up to the limit.
    pub open spec fn polled(self) -> Mk2View {
        Mk2View {
            polls: if self.polls < 32 {
                self.polls + 1
            } else {
                self.polls
            },
            ..self
        }
    }

    /// The state after the current phase was given up: the next tick
    /// starts the same phase from its beginning.
    pub open spec fn failed(self) -> Mk2View {
        Mk2View { polls: 0, ..self }
    }

    /// The state after the current phase is complete: the next of the
    /// three phases is due.
    pub open spec fn finished(self) -> Mk2View {
        Mk2View { tick_state: (self.tick_state + 1) % 3, polls: 0, ..self }
    }

    /// What the current phase asks for next.
    ///
    /// The display phase writes the dirty chunks of display 0, then those
    /// of display 1; the LED phase writes the dirty segments; the polling
    /// phase reads until the limit of reads is reached. A phase with
    /// nothing left to do is done. A display whose canvas does not have a
    /// display's geometry stops the display phase with an error.
    pub open spec fn next_action(self) -> Result<Action, Error> {
        if self.tick_state == 0 {
            match self.pending_frames() {
                Err(e) => Err(e),
                Ok(Some(target)) => Ok(Action::Write(target)),
                Ok(None) => Ok(Action::Done),
            }
        } else if self.tick_state == 1 {
            match self.pending_leds() {
                Some(target) => Ok(Action::Write(target)),
                None => Ok(Action::Done),
            }
        } else if self.polls < 32 {
            Ok(Action::Read)
        } else {
            Ok(Action::Done)
        }
    }

    /// Whether `target` names something that can be written: an LED
    /// segment, or a chunk of a display that has a display's geometry.
    pub open spec fn writable(self, target: Target) -> bool {
        match target {
            Target::Display { display, chunk } => display < 2 && display < self.displays.len()
                && chunk < 8 && display_ready(self.displays[display as int]),
            _ => true,
        }
    }

    /// The state, the events and the outcome after a read returned
    /// `data`.
    ///
    /// A report whose first byte is `0x01` is a button report: its
    /// payload is the up to 24 bytes that follow. A report whose first byte
    /// is `0x20` is a pad report, with all bytes that follow as payload; it
    /// is decoded only if the number of reads made before it in this phase
    /// is a multiple of seven, and passed over otherwise. A payload that is
    /// too short gives `InvalidReport`, no events, and gives the phase up.
    /// Anything else, an empty read included, only counts as a read.
    pub open spec fn receive(self, data: Seq<u8>) -> (Mk2View, Seq<Event>, Result<(), Error>) {
        if data.len() > 0 && data[0] == 0x01 {
            if data.len() < 25 {
                (self.failed(), Seq::empty(), Err(Error::InvalidReport))
            } else {
                let (decoded, events) = self.decode_buttons(data.subrange(1, 25));
                (decoded.polled(), events, Ok(()))
            }
        } else if data.len() > 0 && data[0] == 0x20 && self.polls % 7 == 0 {
            if data.len() < 65 {
                (self.failed(), Seq::empty(), Err(Error::InvalidReport))
            } else {
                let (decoded, events) = self.decode_pads(data.subrange(1, data.len() as int));
                (decoded.polled(), events, Ok(()))
            }
        } else {
            (self.polled(), Seq::empty(), Ok(()))
        }
    }
}

} // verus!
