//! Laws of the controller's model.

use vstd::prelude::*;
use vstd::arithmetic::div_mod::{lemma_mod_add_multiples_vanish, lemma_mod_self_0, lemma_small_mod};
use crate::events::Event;
use crate::gfx::color::Color;
use super::maschine_mk2::Target;
use super::model::{
    circular_delta, display_ready, first_set, led_segment, pad_index, pad_pressure, Action,
    Mk2View,
};

verus! {

/// Encoder delta law: going the reported distance from the previous value
/// round the dial arrives at the current value, and the distance is never
/// more than half the dial.
pub proof fn lemma_circular_delta(range: int, previous: int, current: int)
    requires
        0 < range,
        0 <= previous < range,
        0 <= current < range,
    ensures
        (previous + circular_delta(range, previous, current)) % range == current,
        -(range / 2) <= circular_delta(range, previous, current) <= range / 2,
{
    let forward = (range + current - previous) % range;
    let backward = (range - current + previous) % range;
    lemma_small_mod(current as nat, range as nat);
    if current == previous {
        lemma_mod_self_0(range);
    } else if current > previous {
        lemma_mod_add_multiples_vanish(current - previous, range);
        lemma_small_mod((current - previous) as nat, range as nat);
        lemma_small_mod((range - current + previous) as nat, range as nat);
        assert(forward == current - previous);
        assert(backward == range - (current - previous));
        lemma_mod_add_multiples_vanish(current - range, range);
    } else {
        lemma_mod_add_multiples_vanish(previous - current, range);
        lemma_small_mod((previous - current) as nat, range as nat);
        lemma_small_mod((range + current - previous) as nat, range as nat);
        assert(backward == previous - current);
        assert(forward == range - (previous - current));
        lemma_mod_add_multiples_vanish(current, range);
    }
}

/// Segment dirty law: once the write for an LED segment is acknowledged
/// the segment is clean, and any later write to one of its LEDs makes it
/// dirty again, whether or not the bytes written differ from those
/// already there.
pub proof fn lemma_segment_dirty(v: Mk2View, led: u8, color: Color)
    requires
        led_segment(led) is Some,
    ensures
        !v.acknowledge(led_segment(led)->Some_0).is_dirty(led_segment(led)->Some_0),
        v.set_led(led, color).is_dirty(led_segment(led)->Some_0),
        v.acknowledge(led_segment(led)->Some_0).set_led(led, color).is_dirty(
            led_segment(led)->Some_0,
        ),
{
}

/// A write to an LED leaves the dirty flags of the other segments, and
/// the displays, as they were.
pub proof fn lemma_set_led_keeps_others(v: Mk2View, led: u8, color: Color, other: Target)
    requires
        led_segment(led) != Some(other),
    ensures
        v.set_led(led, color).is_dirty(other) == v.is_dirty(other),
        v.set_led(led, color).displays == v.displays,
{
}

/// Acknowledging a display chunk clears that chunk's flag and no other.
pub proof fn lemma_acknowledge_chunk(v: Mk2View, display: u8, chunk: u8, other: Target)
    requires
        v.wf(),
        display < 2,
        chunk < v.displays[display as int].dirty.len(),
        other != (Target::Display { display, chunk }),
    ensures
        !v.acknowledge(Target::Display { display, chunk }).is_dirty(
            Target::Display { display, chunk },
        ),
        v.acknowledge(Target::Display { display, chunk }).is_dirty(other) == v.is_dirty(other),
{
}

/// What is pending is dirty, and nothing is pending only when no LED
/// segment is dirty and no chunk of either display is.
pub proof fn lemma_pending(v: Mk2View)
    requires
        v.wf(),
        display_ready(v.displays[0]),
        display_ready(v.displays[1]),
    ensures
        v.pending() is Ok,
        v.pending()->Ok_0 matches Some(target) ==> v.is_dirty(target) && v.writable(target),
        v.pending()->Ok_0 is None ==> !v.button_leds_dirty && !v.group_leds_dirty
            && !v.pad_leds_dirty && !v.displays[0].any_dirty() && !v.displays[1].any_dirty(),
{
    lemma_first_set(v.displays[0].dirty, 0);
    lemma_first_set(v.displays[1].dirty, 0);
}

/// The first set flag is set, lies in range, and has no set flag before it.
pub proof fn lemma_first_set(flags: Seq<bool>, from: int)
    requires
        0 <= from,
    ensures
        match first_set(flags, from) {
            Some(c) => from <= c < flags.len() && flags[c] && forall|j: int|
                from <= j < c ==> !flags[j],
            None => forall|j: int| from <= j < flags.len() ==> !flags[j],
        },
    decreases flags.len() - from,
{
    if from < flags.len() && !flags[from] {
        lemma_first_set(flags, from + 1);
    }
}

/// One for a flag that is set, zero for one that is not.
pub open spec fn one_if(flag: bool) -> nat {
    if flag {
        1
    } else {
        0
    }
}

/// How many of the flags are set.
pub open spec fn count_set(flags: Seq<bool>) -> nat
    decreases flags.len(),
{
    if flags.len() == 0 {
        0
    } else {
        count_set(flags.drop_last()) + one_if(flags.last())
    }
}

/// How many writes it takes to bring the device in line: one for each
/// dirty LED segment and one for each dirty chunk of each display.
pub open spec fn dirty_count(v: Mk2View) -> nat {
    one_if(v.button_leds_dirty) + one_if(v.group_leds_dirty) + one_if(v.pad_leds_dirty)
        + count_set(v.displays[0].dirty) + count_set(v.displays[1].dirty)
}

/// Clearing a flag that is set leaves one set flag fewer.
pub proof fn lemma_count_set_clear(flags: Seq<bool>, c: int)
    requires
        0 <= c < flags.len(),
        flags[c],
    ensures
        count_set(flags.update(c, false)) + 1 == count_set(flags),
    decreases flags.len(),
{
    let cleared = flags.update(c, false);
    if c == flags.len() - 1 {
        assert(cleared.drop_last() =~= flags.drop_last());
    } else {
        lemma_count_set_clear(flags.drop_last(), c);
        assert(cleared.drop_last() =~= flags.drop_last().update(c, false));
    }
}

/// No flag is set exactly if the count of set flags is zero.
pub proof fn lemma_count_set_zero(flags: Seq<bool>)
    ensures
        count_set(flags) == 0 <==> forall|j: int| 0 <= j < flags.len() ==> !flags[j],
    decreases flags.len(),
{
    if flags.len() > 0 {
        lemma_count_set_zero(flags.drop_last());
        if count_set(flags) == 0 {
            assert forall|j: int| 0 <= j < flags.len() implies !flags[j] by {
                if j < flags.len() - 1 {
                    assert(flags.drop_last()[j] == flags[j]);
                }
            }
        } else if !flags.last() {
            let j = choose|j: int| 0 <= j < flags.len() - 1 && flags.drop_last()[j];
            assert(flags[j]);
        }
    }
}

/// Flushing makes progress: each acknowledged write leaves one dirty
/// segment or chunk fewer, and nothing is pending exactly when none is
/// left. A controller that was just opened needs 19 writes, three LED
/// segments and twice eight chunks, and after them none.
pub proof fn lemma_flush_progress(v: Mk2View)
    requires
        v.wf(),
        display_ready(v.displays[0]),
        display_ready(v.displays[1]),
    ensures
        v.pending() is Ok,
        v.pending()->Ok_0 matches Some(target) ==> dirty_count(v.acknowledge(target)) + 1
            == dirty_count(v) && v.acknowledge(target).wf() && display_ready(
            v.acknowledge(target).displays[0],
        ) && display_ready(v.acknowledge(target).displays[1]),
        v.pending()->Ok_0 is None <==> dirty_count(v) == 0,
        dirty_count(Mk2View::initial()) == 19,
{
    lemma_first_set(v.displays[0].dirty, 0);
    lemma_first_set(v.displays[1].dirty, 0);
    lemma_count_set_zero(v.displays[0].dirty);
    lemma_count_set_zero(v.displays[1].dirty);
    match v.pending()->Ok_0 {
        Some(Target::Display { display, chunk }) => {
            lemma_count_set_clear(v.displays[display as int].dirty, chunk as int);
            let after = v.acknowledge(Target::Display { display, chunk });
            assert(after.displays[display as int].dirty =~= v.displays[display as int].dirty.update(
                chunk as int,
                false,
            ));
        },
        _ => {},
    }
    let flags = Seq::new(8, |c: int| true);
    assert(count_set(flags) == 8) by {
        reveal_with_fuel(count_set, 9);
        assert(flags.drop_last() =~= Seq::new(7, |c: int| true));
        assert(Seq::new(7, |c: int| true).drop_last() =~= Seq::new(6, |c: int| true));
        assert(Seq::new(6, |c: int| true).drop_last() =~= Seq::new(5, |c: int| true));
        assert(Seq::new(5, |c: int| true).drop_last() =~= Seq::new(4, |c: int| true));
        assert(Seq::new(4, |c: int| true).drop_last() =~= Seq::new(3, |c: int| true));
        assert(Seq::new(3, |c: int| true).drop_last() =~= Seq::new(2, |c: int| true));
        assert(Seq::new(2, |c: int| true).drop_last() =~= Seq::new(1, |c: int| true));
        assert(Seq::new(1, |c: int| true).drop_last() =~= Seq::new(0, |c: int| true));
    }
}

/// Acknowledging something that exists and is dirty leaves one dirty
/// segment or chunk fewer, and changes neither a pixel nor an LED.
pub proof fn lemma_acknowledge_dirty(v: Mk2View, target: Target)
    requires
        v.wf(),
        v.is_dirty(target),
    ensures
        dirty_count(v.acknowledge(target)) + 1 == dirty_count(v),
        !v.acknowledge(target).is_dirty(target),
        v.acknowledge(target).wf(),
        v.acknowledge(target).tick_state == v.tick_state,
        forall|d: int|
            0 <= d < 2 ==> (#[trigger] v.acknowledge(target).displays[d]).pixels
                == v.displays[d].pixels && v.acknowledge(target).displays[d].width
                == v.displays[d].width && v.acknowledge(target).displays[d].height
                == v.displays[d].height && v.acknowledge(target).displays[d].dirty.len()
                == v.displays[d].dirty.len(),
        v.acknowledge(target).button_leds == v.button_leds,
        v.acknowledge(target).group_leds == v.group_leds,
        v.acknowledge(target).pad_leds == v.pad_leds,
{
    match target {
        Target::Display { display, chunk } => {
            lemma_count_set_clear(v.displays[display as int].dirty, chunk as int);
            let after = v.acknowledge(target);
            assert(after.displays[display as int].dirty =~= v.displays[display as int].dirty.update(
                chunk as int,
                false,
            ));
        },
        _ => {},
    }
}

/// The state after an output phase has run: every write that the phase
/// asks for was made and acknowledged, one after the other, until the
/// phase asks for no more.
pub open spec fn after_output_phase(v: Mk2View) -> Mk2View
    decreases dirty_count(v),
{
    match v.next_action() {
        Ok(Action::Write(target)) => if v.wf() && v.is_dirty(target) {
            proof {
                lemma_acknowledge_dirty(v, target);
            }
            after_output_phase(v.acknowledge(target))
        } else {
            v
        },
        _ => v,
    }
}

/// An output phase that meets no transport failure leaves nothing of its
/// kind dirty: the display phase sends every dirty chunk of both
/// displays, the LED phase every dirty LED segment. Since the three
/// phases take turns, whatever is dirty reaches the device within three
/// ticks. Running a phase changes neither a pixel nor an LED.
pub proof fn lemma_output_phase_completes(v: Mk2View)
    requires
        v.wf(),
        display_ready(v.displays[0]),
        display_ready(v.displays[1]),
        v.tick_state == 0 || v.tick_state == 1,
    ensures
        after_output_phase(v).next_action() == Ok::<Action, crate::error::Error>(Action::Done),
        after_output_phase(v).wf(),
        v.tick_state == 0 ==> !after_output_phase(v).displays[0].any_dirty() && !after_output_phase(
            v,
        ).displays[1].any_dirty(),
        v.tick_state == 1 ==> !after_output_phase(v).button_leds_dirty && !after_output_phase(
            v,
        ).group_leds_dirty && !after_output_phase(v).pad_leds_dirty,
        after_output_phase(v).displays[0].pixels == v.displays[0].pixels,
        after_output_phase(v).displays[1].pixels == v.displays[1].pixels,
        after_output_phase(v).button_leds == v.button_leds,
        after_output_phase(v).group_leds == v.group_leds,
        after_output_phase(v).pad_leds == v.pad_leds,
    decreases dirty_count(v),
{
    lemma_first_set(v.displays[0].dirty, 0);
    lemma_first_set(v.displays[1].dirty, 0);
    match v.next_action() {
        Ok(Action::Write(target)) => {
            lemma_acknowledge_dirty(v, target);
            lemma_output_phase_completes(v.acknowledge(target));
        },
        _ => {},
    }
}

/// Pad event law: an entry of a pad report gives an event exactly if its
/// pad is pressed now or was pressed in the report before. While the pad
/// is pressed the event carries the top eight bits of the pressure; the
/// one event after it was let go carries zero, and leaves the pad noted
/// as not pressed, so that further reports without pressure give nothing.
pub proof fn lemma_pad_policy(v: Mk2View, report: Seq<u8>, n: int)
    requires
        v.wf(),
        0 <= n < 16,
        report.len() >= 64,
    ensures
        ({
            let pad = pad_index(report, n);
            let pressure = pad_pressure(report, n);
            let (after, events) = v.scan_pad(report, n);
            &&& 0 <= pad < 16
            &&& pressure < 4096
            &&& after.wf()
            &&& after.pads_data[pad] == pressure
            &&& after.pads_status[pad] == (pressure > 512)
            &&& events.len() == (if pressure > 512 || v.pads_status[pad] {
                1nat
            } else {
                0nat
            })
            &&& pressure > 512 ==> events[0] == Event::Pad(
                pad as u8,
                (pressure / 16) as u8,
                v.shift_pressed,
            ) && events[0]->Pad_1 >= 32
            &&& pressure <= 512 && v.pads_status[pad] ==> events[0] == Event::Pad(
                pad as u8,
                0,
                v.shift_pressed,
            )
        }),
{
}

/// Decoding a button report keeps the state well-formed, so every
/// remembered encoder value stays within its encoder's domain.
pub proof fn lemma_decode_buttons_wf(v: Mk2View, report: Seq<u8>)
    requires
        v.wf(),
        report.len() >= 24,
    ensures
        v.decode_buttons(report).0.wf(),
{
    lemma_scan_buttons_wf(v, report, 48);
    lemma_scan_encoders_wf(v.scan_buttons(report, 48).0, report, 9);
}

/// Looking at buttons keeps the state well-formed.
pub proof fn lemma_scan_buttons_wf(v: Mk2View, report: Seq<u8>, n: nat)
    requires
        v.wf(),
        n <= 48,
    ensures
        v.scan_buttons(report, n).0.wf(),
    decreases n,
{
    if n > 0 {
        lemma_scan_buttons_wf(v, report, (n - 1) as nat);
    }
}

/// Looking at encoders keeps the state well-formed.
pub proof fn lemma_scan_encoders_wf(v: Mk2View, report: Seq<u8>, n: nat)
    requires
        v.wf(),
        n <= 9,
    ensures
        v.scan_encoders(report, n).0.wf(),
    decreases n,
{
    if n > 0 {
        lemma_scan_encoders_wf(v, report, (n - 1) as nat);
    }
}

/// Decoding a pad report keeps the state well-formed.
pub proof fn lemma_scan_pads_wf(v: Mk2View, report: Seq<u8>, n: nat)
    requires
        v.wf(),
        n <= 16,
        report.len() >= 64,
    ensures
        v.scan_pads(report, n).0.wf(),
    decreases n,
{
    if n > 0 {
        lemma_scan_pads_wf(v, report, (n - 1) as nat);
        lemma_pad_policy(v.scan_pads(report, (n - 1) as nat).0, report, n - 1);
    }
}

/// The round of phases: finishing three phases in a row comes back to the
/// phase it started from, so whatever is dirty is written within three ticks.
pub proof fn lemma_round_of_three(v: Mk2View)
    requires
        v.wf(),
    ensures
        v.finished().finished().finished().tick_state == v.tick_state,
        v.finished().tick_state != v.tick_state,
        v.finished().wf(),
{
}

} // verus!
