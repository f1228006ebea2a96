//! Engine-wide properties, stated and proved once over the
//! specification model that the handler's contracts use.  Together
//! with those contracts they carry over to the executable handler.

use vstd::prelude::*;

use crate::config::Config;
use crate::handler::CCDirection;
use crate::handler::ChannelVoiceEvent;
use crate::handler::OutputAction;
use crate::handler::ReleaseOutcome;
use crate::handler::spec_actions;
use crate::handler::spec_cc_after;
use crate::handler::spec_held_after;
use crate::handler::spec_infer;
use crate::handler::spec_key_held;
use crate::handler::spec_note_off_actions;
use crate::handler::spec_note_on_actions;
use crate::handler::spec_release_outcome;

verus! {

/// Rotation inference is deterministic and memoryless: for a control
/// never seen before it yields `Clockwise`, and otherwise the result
/// depends only on the stored last value and the new value — any two
/// tracker states that agree on the control infer the same direction.
pub proof fn lemma_rotation_determinism(m1: Map<u8, u8>, m2: Map<u8, u8>, cc: u8, value: u8)
    requires
        m1.contains_key(cc) == m2.contains_key(cc),
        m1.contains_key(cc) ==> m1[cc] == m2[cc],
    ensures
        spec_infer(m1, cc, value) == spec_infer(m2, cc, value),
        !m1.contains_key(cc) ==> spec_infer(m1, cc, value) == CCDirection::Clockwise,
{
}

/// Ties resolve counter-clockwise: recording a value for a control and
/// then seeing the very same value again infers `CounterClockwise`.
pub proof fn lemma_tie_resolves_counter_clockwise(m: Map<u8, u8>, cc: u8, value: u8)
    ensures
        spec_infer(m.insert(cc, value), cc, value) == CCDirection::CounterClockwise,
{
}

/// Aliasing: with two distinct notes sounding through one key, the
/// four steps press A, press B, release A, release B give exactly one
/// press edge (at the first press) and exactly one release edge (at
/// the last release), and return the held set to where it started.
pub proof fn lemma_note_aliasing(held: Set<(u16, u8)>, key: u16, a: u8, b: u8)
    requires
        a != b,
        !spec_key_held(held, key),
    ensures
        spec_note_on_actions(held, key) == seq![OutputAction::Press(key)],
        spec_note_on_actions(held.insert((key, a)), key) == Seq::<OutputAction>::empty(),
        spec_note_off_actions(held.insert((key, a)).insert((key, b)), key, a) == Seq::<
            OutputAction,
        >::empty(),
        spec_note_off_actions(held.insert((key, a)).insert((key, b)).remove((key, a)), key, b)
            == seq![OutputAction::Release(key)],
        held.insert((key, a)).insert((key, b)).remove((key, a)).remove((key, b)) == held,
{
    let h1 = held.insert((key, a));
    let h2 = h1.insert((key, b));
    let h3 = h2.remove((key, a));
    let h4 = h3.remove((key, b));
    assert(h1.contains((key, a)));
    assert(spec_key_held(h1, key));
    assert(h2.contains((key, a)));
    assert(h3.contains((key, b)));
    assert(spec_key_held(h3, key));
    assert(spec_release_outcome(h2, key, a) == ReleaseOutcome::StillHeld);
    assert(!held.contains((key, a)));
    assert(!held.contains((key, b)));
    assert(h4 =~= held);
    assert(!spec_key_held(h4, key));
    assert(spec_release_outcome(h3, key, b) == ReleaseOutcome::ReleaseEdge);
}

/// Releasing a note through a key that holds nothing is harmless and
/// idempotent: no action and no state change, so a duplicate or
/// out-of-order note-off — however often repeated — cannot corrupt the
/// bookkeeping.
pub proof fn lemma_idempotent_release(held: Set<(u16, u8)>, key: u16, note: u8)
    requires
        !spec_key_held(held, key),
    ensures
        spec_release_outcome(held, key, note) == ReleaseOutcome::Untracked,
        held.remove((key, note)) == held,
        spec_note_off_actions(held, key, note) == Seq::<OutputAction>::empty(),
{
    assert(!held.contains((key, note)));
    assert(held.remove((key, note)) =~= held);
}

/// A note-on with velocity zero is interpreted exactly as the
/// corresponding note-off, whatever the state and bindings: same
/// actions, same trackers afterwards.
pub proof fn lemma_velocity_zero_is_note_off(
    cfg: Config,
    cc_last: Map<u8, u8>,
    held: Set<(u16, u8)>,
    channel: u8,
    note: u8,
    velocity: u8,
)
    ensures
        spec_actions(cfg, cc_last, held, (ChannelVoiceEvent::NoteOn { channel, note, velocity: 0 }))
            == spec_actions(
            cfg,
            cc_last,
            held,
            (ChannelVoiceEvent::NoteOff { channel, note, velocity }),
        ),
        spec_held_after(cfg, held, (ChannelVoiceEvent::NoteOn { channel, note, velocity: 0 }))
            == spec_held_after(
            cfg,
            held,
            (ChannelVoiceEvent::NoteOff { channel, note, velocity }),
        ),
        spec_cc_after(cfg, cc_last, (ChannelVoiceEvent::NoteOn { channel, note, velocity: 0 }))
            == spec_cc_after(
            cfg,
            cc_last,
            (ChannelVoiceEvent::NoteOff { channel, note, velocity }),
        ),
{
}

/// The channel filter is absolute: an event on a channel other than
/// the configured one produces no action and leaves both trackers
/// untouched, whatever the event carries.
pub proof fn lemma_channel_filter(
    cfg: Config,
    cc_last: Map<u8, u8>,
    held: Set<(u16, u8)>,
    ev: ChannelVoiceEvent,
    f: u8,
)
    requires
        cfg.channel_filter == Some(f),
        ev.channel() + 1 != f,
    ensures
        spec_actions(cfg, cc_last, held, ev) == Seq::<OutputAction>::empty(),
        spec_cc_after(cfg, cc_last, ev) == cc_last,
        spec_held_after(cfg, held, ev) == held,
{
}

} // verus!
