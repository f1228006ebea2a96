//! The event interpreter: one decoded channel-voice event in, zero or
//! more output actions out.
//!
//! The handler owns the two pieces of state the policy needs: the last
//! observed value of each control-change number (to infer rotation
//! direction) and the set of notes currently sounding through each
//! output key (to turn many-to-one note aliasing into correct
//! press/release edges).  It never performs I/O itself: the caller
//! delivers the returned actions to the output device.

use vstd::prelude::*;

use crate::config::CCBindMode;
use crate::config::CCDirectionConfig;
use crate::config::CCTarget;
use crate::config::Config;
use crate::config::MouseAxis;
use crate::config::spec_lookup_cc;
use crate::config::spec_lookup_note;

verus! {

/// Rotation sense of a control, inferred from two consecutive values.
#[derive(Clone, Copy, Debug, PartialEq, Eq)]
pub enum CCDirection {
    Clockwise,
    CounterClockwise,
}

/// An abstract action for the output device.  Delivering these (and
/// reporting a failed delivery) is the caller's job; a delivery failure
/// never reaches back into the handler's state.
#[derive(Clone, Copy, Debug, PartialEq, Eq)]
pub enum OutputAction {
    /// Press the key with this code.
    Press(u16),
    /// Release the key with this code.
    Release(u16),
    /// Move the mouse by this delta.
    MoveMouse(i32, i32),
}

/// What releasing one note means for its output key.
#[derive(Clone, Copy, Debug, PartialEq, Eq)]
pub enum ReleaseOutcome {
    /// The key's last sounding note lifted: the key must be released.
    ReleaseEdge,
    /// Other notes still sound through the key: no device action.
    StillHeld,
    /// No note at all was tracked for the key: a non-fatal diagnostic
    /// condition (duplicate or out-of-order note-off), no device action.
    Untracked,
}

/// A decoded MIDI channel-voice event.  `channel` is 0-based (0-15);
/// the note, velocity, control and value fields are 7-bit (0-127),
/// clamped by the upstream decoder.
#[derive(Clone, Copy, Debug, PartialEq, Eq)]
pub enum ChannelVoiceEvent {
    NoteOn { channel: u8, note: u8, velocity: u8 },
    NoteOff { channel: u8, note: u8, velocity: u8 },
    ControlChange { channel: u8, control: u8, value: u8 },
    /// Any other channel-voice message kind; dropped without effect.
    Other { channel: u8 },
}

impl ChannelVoiceEvent {
    /// The 0-based channel the event arrived on.
    pub open spec fn channel(self) -> u8 {
        match self {
            ChannelVoiceEvent::NoteOn { channel, .. } => channel,
            ChannelVoiceEvent::NoteOff { channel, .. } => channel,
            ChannelVoiceEvent::ControlChange { channel, .. } => channel,
            ChannelVoiceEvent::Other { channel } => channel,
        }
    }

    /// The event lies in the domain the upstream decoder guarantees:
    /// 16 channels and 7-bit data bytes.
    pub open spec fn valid(self) -> bool {
        match self {
            ChannelVoiceEvent::NoteOn { channel, note, velocity } => channel < 16 && note < 128
                && velocity < 128,
            ChannelVoiceEvent::NoteOff { channel, note, velocity } => channel < 16 && note < 128
                && velocity < 128,
            ChannelVoiceEvent::ControlChange { channel, control, value } => channel < 16 && control
                < 128 && value < 128,
            ChannelVoiceEvent::Other { channel } => channel < 16,
        }
    }
}

/// Direction inferred for a new value of a control: `Clockwise` on the
/// first sighting (no history to compare against), else `Clockwise`
/// exactly when the new value is greater than the stored one.  Ties
/// resolve to `CounterClockwise`, a deliberate policy of the engine.
pub open spec fn spec_infer(last: Map<u8, u8>, cc: u8, value: u8) -> CCDirection {
    if last.contains_key(cc) {
        if last[cc] < value {
            CCDirection::Clockwise
        } else {
            CCDirection::CounterClockwise
        }
    } else {
        CCDirection::Clockwise
    }
}

/// Whether any note currently sounds through `key`.
pub open spec fn spec_key_held(held: Set<(u16, u8)>, key: u16) -> bool {
    exists|n: u8| held.contains((key, n))
}

/// What releasing `note` from `key` means, given the held pairs.
pub open spec fn spec_release_outcome(held: Set<(u16, u8)>, key: u16, note: u8) -> ReleaseOutcome {
    if !spec_key_held(held, key) {
        ReleaseOutcome::Untracked
    } else if held.contains((key, note)) && !spec_key_held(held.remove((key, note)), key) {
        ReleaseOutcome::ReleaseEdge
    } else {
        ReleaseOutcome::StillHeld
    }
}

/// Whether an event on 0-based `channel` passes the configured 1-based
/// channel filter.
pub open spec fn spec_channel_pass(cfg: Config, channel: u8) -> bool {
    match cfg.channel_filter {
        None => true,
        Some(f) => channel + 1 == f,
    }
}

/// The direction target a binding selects for a direction.
pub open spec fn spec_direction_target(c: CCDirectionConfig, dir: CCDirection) -> Option<CCTarget> {
    match dir {
        CCDirection::Clockwise => c.clockwise,
        CCDirection::CounterClockwise => c.counter_clockwise,
    }
}

/// The mouse delta for a selected target, with the fixed step magnitude
/// of 10 units per detent.  An absent target, or one that is not an
/// axis, gives a zero delta — a valid no-op, not an error.
pub open spec fn spec_mouse_delta(target: Option<CCTarget>) -> (i32, i32) {
    match target {
        Some(CCTarget::Axis(MouseAxis::PlusX)) => (10, 0),
        Some(CCTarget::Axis(MouseAxis::MinusX)) => (-10i32, 0),
        Some(CCTarget::Axis(MouseAxis::PlusY)) => (0, 10),
        Some(CCTarget::Axis(MouseAxis::MinusY)) => (0, -10i32),
        _ => (0, 0),
    }
}

/// The actions a control-change binding emits, given the inferred
/// direction and the raw 7-bit value.
pub open spec fn spec_cc_actions(c: CCDirectionConfig, dir: CCDirection, value: u8) -> Seq<
    OutputAction,
> {
    match c.bind_mode {
        CCBindMode::Keyboard => match spec_direction_target(c, dir) {
            Some(CCTarget::Key(k)) => seq![OutputAction::Press(k)],
            _ => Seq::empty(),
        },
        CCBindMode::Mouse => seq![
            OutputAction::MoveMouse(
                spec_mouse_delta(spec_direction_target(c, dir)).0,
                spec_mouse_delta(spec_direction_target(c, dir)).1,
            ),
        ],
        CCBindMode::Toggle => match c.toggle_key {
            Some(k) => if value == 127 {
                seq![OutputAction::Press(k)]
            } else if value == 0 {
                seq![OutputAction::Release(k)]
            } else {
                Seq::empty()
            },
            None => Seq::empty(),
        },
    }
}

/// The actions a note-on emits: a press edge exactly when no note was
/// sounding through the key before.
pub open spec fn spec_note_on_actions(held: Set<(u16, u8)>, key: u16) -> Seq<OutputAction> {
    if !spec_key_held(held, key) {
        seq![OutputAction::Press(key)]
    } else {
        Seq::empty()
    }
}

/// The actions a note-off emits: a release edge exactly when the lifted
/// note was the last one sounding through the key.
pub open spec fn spec_note_off_actions(held: Set<(u16, u8)>, key: u16, note: u8) -> Seq<
    OutputAction,
> {
    if spec_release_outcome(held, key, note) == ReleaseOutcome::ReleaseEdge {
        seq![OutputAction::Release(key)]
    } else {
        Seq::empty()
    }
}

/// The actions the dispatcher emits for one event, from the
/// configuration and the state before the event.
pub open spec fn spec_actions(
    cfg: Config,
    cc_last: Map<u8, u8>,
    held: Set<(u16, u8)>,
    ev: ChannelVoiceEvent,
) -> Seq<OutputAction> {
    if !spec_channel_pass(cfg, ev.channel()) {
        Seq::empty()
    } else {
        match ev {
            ChannelVoiceEvent::NoteOn { channel, note, velocity } => match spec_lookup_note(
                cfg.notes.notes@,
                note,
            ) {
                None => Seq::empty(),
                Some(key) => if velocity == 0 {
                    spec_note_off_actions(held, key, note)
                } else {
                    spec_note_on_actions(held, key)
                },
            },
            ChannelVoiceEvent::NoteOff { channel, note, velocity } => match spec_lookup_note(
                cfg.notes.notes@,
                note,
            ) {
                None => Seq::empty(),
                Some(key) => spec_note_off_actions(held, key, note),
            },
            ChannelVoiceEvent::ControlChange { channel, control, value } => match spec_lookup_cc(
                cfg.cc.cc@,
                control,
            ) {
                None => Seq::empty(),
                Some(c) => spec_cc_actions(c, spec_infer(cc_last, control, value), value),
            },
            ChannelVoiceEvent::Other { .. } => Seq::empty(),
        }
    }
}

/// The rotation-tracker state after one event: a control-change that
/// passes the channel filter records its value — bound or not — and no
/// other event touches the tracker.
pub open spec fn spec_cc_after(cfg: Config, cc_last: Map<u8, u8>, ev: ChannelVoiceEvent) -> Map<
    u8,
    u8,
> {
    match ev {
        ChannelVoiceEvent::ControlChange { channel, control, value } => if spec_channel_pass(
            cfg,
            channel,
        ) {
            cc_last.insert(control, value)
        } else {
            cc_last
        },
        _ => cc_last,
    }
}

/// The held-notes state after one event.  A note-on adds its (key,
/// note) pair; a note-off — or a note-on with velocity zero — removes
/// it; everything else, and anything filtered or unbound, changes
/// nothing.
pub open spec fn spec_held_after(cfg: Config, held: Set<(u16, u8)>, ev: ChannelVoiceEvent) -> Set<
    (u16, u8),
> {
    if !spec_channel_pass(cfg, ev.channel()) {
        held
    } else {
        match ev {
            ChannelVoiceEvent::NoteOn { channel, note, velocity } => match spec_lookup_note(
                cfg.notes.notes@,
                note,
            ) {
                None => held,
                Some(key) => if velocity == 0 {
                    held.remove((key, note))
                } else {
                    held.insert((key, note))
                },
            },
            ChannelVoiceEvent::NoteOff { channel, note, velocity } => match spec_lookup_note(
                cfg.notes.notes@,
                note,
            ) {
                None => held,
                Some(key) => held.remove((key, note)),
            },
            _ => held,
        }
    }
}

/// The event interpreter.  It owns the binding table for its whole
/// lifetime and the two pieces of transient state; both trackers start
/// empty and live for the process lifetime.  One event is fully
/// processed per call; the handler must not be shared between threads.
pub struct MidiInputHandler {
    config: Config,
    /// Last observed 7-bit value of each control number, indexed by the
    /// control number; `None` until the control is first seen.
    cc_map: Vec<Option<u8>>,
    /// The (output key, note) pairs currently sounding.  A key is held
    /// exactly while at least one pair carries it.
    key_note_map: Vec<(u16, u8)>,
}

impl MidiInputHandler {
    /// The handler's internal representation is sound: one slot per
    /// control number, and no duplicate held pair.
    pub closed spec fn wf(&self) -> bool {
        &&& self.cc_map@.len() == 128
        &&& self.key_note_map@.no_duplicates()
    }

    /// The binding table the handler was built with.
    pub closed spec fn spec_config(&self) -> Config {
        self.config
    }

    /// The rotation tracker as a map from control number to the last
    /// observed value.
    pub closed spec fn cc_view(&self) -> Map<u8, u8> {
        Map::new(
            |c: u8| c < 128 && self.cc_map@[c as int] is Some,
            |c: u8| self.cc_map@[c as int]->0,
        )
    }

    /// The held notes as a set of (output key, note) pairs.
    pub closed spec fn held_view(&self) -> Set<(u16, u8)> {
        self.key_note_map@.to_set()
    }

    /// A fresh handler: the given bindings, and both trackers empty.
    pub fn new(config: Config) -> (h: MidiInputHandler)
        ensures
            h.wf(),
            h.spec_config() == config,
            h.cc_view() == Map::<u8, u8>::empty(),
            h.held_view() == Set::<(u16, u8)>::empty(),
    {
        let mut cc_map: Vec<Option<u8>> = Vec::new();
        let mut i: usize = 0;
        while i < 128
            invariant
                i <= 128,
                cc_map@.len() == i,
                forall|j: int| 0 <= j < i ==> cc_map@[j] is None,
            decreases 128 - i,
        {
            cc_map.push(None);
            i = i + 1;
        }
        let h = MidiInputHandler { config, cc_map, key_note_map: Vec::new() };
        proof {
            assert(h.cc_view() =~= Map::<u8, u8>::empty());
            assert(h.held_view() =~= Set::<(u16, u8)>::empty());
        }
        h
    }

    /// Record a control-change sample and infer the rotation direction
    /// from the previously stored value.  The stored value is always
    /// overwritten, whatever direction comes out.
    pub fn handle_cc(&mut self, cc: u8, value: u8) -> (dir: CCDirection)
        requires
            old(self).wf(),
            cc < 128,
        ensures
            final(self).wf(),
            final(self).spec_config() == old(self).spec_config(),
            final(self).held_view() == old(self).held_view(),
            final(self).cc_view() == old(self).cc_view().insert(cc, value),
            dir == spec_infer(old(self).cc_view(), cc, value),
    {
        let slot: Option<u8> = self.cc_map[cc as usize];
        let dir = match slot {
            Some(prev) => if prev < value {
                CCDirection::Clockwise
            } else {
                CCDirection::CounterClockwise
            },
            None => CCDirection::Clockwise,
        };
        self.cc_map.set(cc as usize, Some(value));
        proof {
            assert(self.cc_view() =~= old(self).cc_view().insert(cc, value));
        }
        dir
    }

    /// Start sounding `note` through `key`.  The result is the press
    /// edge: true exactly when no note was sounding through `key`
    /// before, so the physical key must now be pressed.
    pub fn handle_note_press(&mut self, note: u8, key: u16) -> (press_edge: bool)
        requires
            old(self).wf(),
        ensures
            final(self).wf(),
            final(self).spec_config() == old(self).spec_config(),
            final(self).cc_view() == old(self).cc_view(),
            final(self).held_view() == old(self).held_view().insert((key, note)),
            press_edge == !spec_key_held(old(self).held_view(), key),
    {
        let mut found_key = false;
        let mut found_pair = false;
        let mut i: usize = 0;
        while i < self.key_note_map.len()
            invariant
                i <= self.key_note_map@.len(),
                found_key <==> exists|j: int|
                    0 <= j < i && #[trigger] self.key_note_map@[j].0 == key,
                found_pair <==> exists|j: int|
                    0 <= j < i && #[trigger] self.key_note_map@[j] == (key, note),
            decreases self.key_note_map@.len() - i,
        {
            let p = self.key_note_map[i];
            if p.0 == key {
                found_key = true;
                if p.1 == note {
                    found_pair = true;
                }
            }
            i = i + 1;
        }
        proof {
            lemma_key_scan(self.key_note_map@, key, found_key);
            assert(found_pair <==> self.key_note_map@.contains((key, note)));
        }
        if !found_pair {
            self.key_note_map.push((key, note));
            proof {
                lemma_push_keeps_no_duplicates(old(self).key_note_map@, (key, note));
                old(self).key_note_map@.lemma_push_to_set_commute((key, note));
            }
        } else {
            proof {
                assert(old(self).held_view().insert((key, note)) =~= old(self).held_view());
            }
        }
        !found_key
    }

    /// Stop sounding `note` through `key`.  The pair is removed if it
    /// was tracked; the outcome says whether the physical key must be
    /// released, is still held by other notes, or was not tracked at
    /// all (a duplicate or out-of-order note-off: harmless, nothing to
    /// do, and calling this again is just as harmless).
    pub fn handle_note_release(&mut self, note: u8, key: u16) -> (outcome: ReleaseOutcome)
        requires
            old(self).wf(),
        ensures
            final(self).wf(),
            final(self).spec_config() == old(self).spec_config(),
            final(self).cc_view() == old(self).cc_view(),
            final(self).held_view() == old(self).held_view().remove((key, note)),
            outcome == spec_release_outcome(old(self).held_view(), key, note),
    {
        let mut found = false;
        let mut idx: usize = 0;
        let mut i: usize = 0;
        while i < self.key_note_map.len()
            invariant
                i <= self.key_note_map@.len(),
                found ==> idx < i && self.key_note_map@[idx as int] == (key, note),
                !found ==> forall|j: int|
                    0 <= j < i ==> #[trigger] self.key_note_map@[j] != (key, note),
            decreases self.key_note_map@.len() - i,
        {
            let p = self.key_note_map[i];
            if !found && p.0 == key && p.1 == note {
                found = true;
                idx = i;
            }
            i = i + 1;
        }
        proof {
            assert(found <==> self.key_note_map@.contains((key, note)));
        }
        if found {
            proof {
                lemma_remove_keeps_set(self.key_note_map@, idx as int);
            }
            self.key_note_map.remove(idx);
        } else {
            proof {
                assert(old(self).held_view().remove((key, note)) =~= old(self).held_view());
            }
        }
        // Whether any note still sounds through `key`, after the
        // removal (or, for an untracked pair, unchanged state).
        let mut still_held = false;
        let mut k: usize = 0;
        while k < self.key_note_map.len()
            invariant
                k <= self.key_note_map@.len(),
                still_held <==> exists|j: int|
                    0 <= j < k && #[trigger] self.key_note_map@[j].0 == key,
            decreases self.key_note_map@.len() - k,
        {
            if self.key_note_map[k].0 == key {
                still_held = true;
            }
            k = k + 1;
        }
        proof {
            lemma_key_scan(self.key_note_map@, key, still_held);
        }
        if found {
            if still_held {
                ReleaseOutcome::StillHeld
            } else {
                ReleaseOutcome::ReleaseEdge
            }
        } else {
            if still_held {
                ReleaseOutcome::StillHeld
            } else {
                ReleaseOutcome::Untracked
            }
        }
    }

    /// Whether an event on 0-based `channel` passes the configured
    /// 1-based channel filter.
    fn channel_pass(&self, channel: u8) -> (r: bool)
        ensures
            r == spec_channel_pass(self.spec_config(), channel),
    {
        match self.config.channel_filter {
            None => true,
            Some(f) => (channel as u16) + 1 == (f as u16),
        }
    }

    /// Interpret one channel-voice event: consult the binding table,
    /// update the two trackers, and return the output actions to
    /// deliver, in order.  The state is committed before the caller
    /// attempts delivery, so a delivery failure never desynchronizes
    /// the press/release bookkeeping.
    pub fn handle_midi_msg(&mut self, msg: ChannelVoiceEvent) -> (actions: Vec<OutputAction>)
        requires
            old(self).wf(),
            msg.valid(),
        ensures
            final(self).wf(),
            final(self).spec_config() == old(self).spec_config(),
            actions@ == spec_actions(
                old(self).spec_config(),
                old(self).cc_view(),
                old(self).held_view(),
                msg,
            ),
            final(self).cc_view() == spec_cc_after(old(self).spec_config(), old(self).cc_view(), msg),
            final(self).held_view() == spec_held_after(
                old(self).spec_config(),
                old(self).held_view(),
                msg,
            ),
    {
        let mut actions: Vec<OutputAction> = Vec::new();
        match msg {
            ChannelVoiceEvent::NoteOn { channel, note, velocity } => {
                if self.channel_pass(channel) {
                    match self.config.notes.get_key(note) {
                        Some(key) => {
                            if velocity == 0 {
                                // MIDI convention: note-on with velocity
                                // zero is a note-off.
                                let outcome = self.handle_note_release(note, key);
                                if matches!(outcome, ReleaseOutcome::ReleaseEdge) {
                                    actions.push(OutputAction::Release(key));
                                    proof {
                                        assert(actions@ =~= seq![OutputAction::Release(key)]);
                                    }
                                }
                            } else {
                                let press_edge = self.handle_note_press(note, key);
                                if press_edge {
                                    actions.push(OutputAction::Press(key));
                                    proof {
                                        assert(actions@ =~= seq![OutputAction::Press(key)]);
                                    }
                                }
                            }
                        },
                        None => {},
                    }
                }
            },
            ChannelVoiceEvent::NoteOff { channel, note, velocity } => {
                if self.channel_pass(channel) {
                    match self.config.notes.get_key(note) {
                        Some(key) => {
                            let outcome = self.handle_note_release(note, key);
                            if matches!(outcome, ReleaseOutcome::ReleaseEdge) {
                                actions.push(OutputAction::Release(key));
                                proof {
                                    assert(actions@ =~= seq![OutputAction::Release(key)]);
                                }
                            }
                        },
                        None => {},
                    }
                }
            },
            ChannelVoiceEvent::ControlChange { channel, control, value } => {
                if self.channel_pass(channel) {
                    // The sample is always recorded, bound or not, so
                    // the rotation history stays consistent.
                    let dir = self.handle_cc(control, value);
                    match self.config.cc.get_dir_config(control) {
                        Some(cc_config) => {
                            match cc_config.bind_mode {
                                CCBindMode::Keyboard => {
                                    let target = match dir {
                                        CCDirection::Clockwise => cc_config.clockwise,
                                        CCDirection::CounterClockwise => cc_config.counter_clockwise,
                                    };
                                    match target {
                                        Some(CCTarget::Key(k)) => {
                                            actions.push(OutputAction::Press(k));
                                            proof {
                                                assert(actions@ =~= seq![OutputAction::Press(k)]);
                                            }
                                        },
                                        _ => {},
                                    }
                                },
                                CCBindMode::Mouse => {
                                    let target = match dir {
                                        CCDirection::Clockwise => cc_config.clockwise,
                                        CCDirection::CounterClockwise => cc_config.counter_clockwise,
                                    };
                                    let dx: i32;
                                    let dy: i32;
                                    match target {
                                        Some(CCTarget::Axis(MouseAxis::PlusX)) => {
                                            dx = 10;
                                            dy = 0;
                                        },
                                        Some(CCTarget::Axis(MouseAxis::MinusX)) => {
                                            dx = -10;
                                            dy = 0;
                                        },
                                        Some(CCTarget::Axis(MouseAxis::PlusY)) => {
                                            dx = 0;
                                            dy = 10;
                                        },
                                        Some(CCTarget::Axis(MouseAxis::MinusY)) => {
                                            dx = 0;
                                            dy = -10;
                                        },
                                        _ => {
                                            dx = 0;
                                            dy = 0;
                                        },
                                    }
                                    // Even a zero delta is emitted: a
                                    // valid no-op, not an error.
                                    actions.push(OutputAction::MoveMouse(dx, dy));
                                    proof {
                                        assert(actions@ =~= seq![OutputAction::MoveMouse(dx, dy)]);
                                    }
                                },
                                CCBindMode::Toggle => {
                                    // A two-state switch: only the raw
                                    // extremes act, the direction is
                                    // ignored.
                                    match cc_config.toggle_key {
                                        Some(k) => {
                                            if value == 127 {
                                                actions.push(OutputAction::Press(k));
                                                proof {
                                                    assert(actions@ =~= seq![
                                                        OutputAction::Press(k),
                                                    ]);
                                                }
                                            } else if value == 0 {
                                                actions.push(OutputAction::Release(k));
                                                proof {
                                                    assert(actions@ =~= seq![
                                                        OutputAction::Release(k),
                                                    ]);
                                                }
                                            }
                                        },
                                        None => {},
                                    }
                                },
                            }
                        },
                        None => {},
                    }
                }
            },
            ChannelVoiceEvent::Other { .. } => {},
        }
        actions
    }
}

/// A full scan for a key agrees with the set-level notion of the key
/// being held.
proof fn lemma_key_scan(s: Seq<(u16, u8)>, key: u16, found: bool)
    requires
        found <==> exists|j: int| 0 <= j < s.len() && #[trigger] s[j].0 == key,
    ensures
        found == spec_key_held(s.to_set(), key),
{
    if found {
        let j = choose|j: int| 0 <= j < s.len() && #[trigger] s[j].0 == key;
        let p = s[j];
        assert(p == (key, p.1));
        assert(s.contains((key, p.1)));
        assert(s.to_set().contains((key, p.1)));
    } else {
        if spec_key_held(s.to_set(), key) {
            let n = choose|n: u8| s.to_set().contains((key, n));
            assert(s.contains((key, n)));
            let j = choose|j: int| 0 <= j < s.len() && s[j] == (key, n);
            assert(s[j].0 == key);
        }
    }
}

/// Pushing a pair that is not yet present keeps the no-duplicates
/// invariant.
proof fn lemma_push_keeps_no_duplicates(s: Seq<(u16, u8)>, p: (u16, u8))
    requires
        s.no_duplicates(),
        !s.contains(p),
    ensures
        s.push(p).no_duplicates(),
{
    let t = s.push(p);
    assert forall|i: int, j: int| 0 <= i < t.len() && 0 <= j < t.len() && i != j implies t[i]
        != t[j] by {
        if i < s.len() && j < s.len() {
            assert(s[i] != s[j]);
        } else if i < s.len() {
            assert(t[j] == p);
            assert(s.contains(s[i]) && t[i] == s[i]);
        } else {
            assert(t[i] == p);
            assert(s.contains(s[j]) && t[j] == s[j]);
        }
    }
}

/// Removing index `i` from a duplicate-free sequence removes exactly
/// that element from the sequence's set, and keeps it duplicate-free.
proof fn lemma_remove_keeps_set(s: Seq<(u16, u8)>, i: int)
    requires
        s.no_duplicates(),
        0 <= i < s.len(),
    ensures
        s.remove(i).no_duplicates(),
        s.remove(i).to_set() == s.to_set().remove(s[i]),
{
    s.remove_ensures(i);
    let t = s.remove(i);
    assert forall|a: int, b: int| 0 <= a < t.len() && 0 <= b < t.len() && a != b implies t[a]
        != t[b] by {
        let sa: int = if a < i {
            a
        } else {
            a + 1
        };
        let sb: int = if b < i {
            b
        } else {
            b + 1
        };
        assert(t[a] == s[sa] && t[b] == s[sb] && sa != sb);
    }
    assert forall|x: (u16, u8)| t.to_set().contains(x) implies s.to_set().remove(s[i]).contains(
        x,
    ) by {
        let j = choose|j: int| 0 <= j < t.len() && t[j] == x;
        let sj: int = if j < i {
            j
        } else {
            j + 1
        };
        assert(s[sj] == x);
        assert(s.contains(x));
        assert(x != s[i]);
    }
    assert forall|x: (u16, u8)| s.to_set().remove(s[i]).contains(x) implies t.to_set().contains(
        x,
    ) by {
        let j = choose|j: int| 0 <= j < s.len() && s[j] == x;
        assert(j != i);
        let tj: int = if j < i {
            j
        } else {
            j - 1
        };
        assert(t[tj] == x);
        assert(t.contains(x));
    }
    assert(t.to_set() =~= s.to_set().remove(s[i]));
}

} // verus!
