//! The binding table: which output key each note drives, and what each
//! control-change number is bound to.  The table is resolved and
//! validated when the configuration is loaded, before the dispatcher
//! starts; the hot event path never parses a token.

use vstd::prelude::*;

verus! {

/// A signed mouse axis token: the unit direction a control-change
/// rotation is bound to in `Mouse` mode.
#[derive(Clone, Copy, Debug, PartialEq, Eq)]
pub enum MouseAxis {
    PlusX,
    MinusX,
    PlusY,
    MinusY,
}

/// A resolved direction target: either an output key code to tap, or a
/// mouse axis to move along.  Tokens are resolved once, at
/// configuration-load time, so dispatch never fails on a malformed one.
#[derive(Clone, Copy, Debug, PartialEq, Eq)]
pub enum CCTarget {
    Key(u16),
    Axis(MouseAxis),
}

/// Mode a control-change number is bound to.
#[derive(Clone, Copy, Debug, PartialEq, Eq)]
pub enum CCBindMode {
    /// Tap a key on the keyboard every time the control moves.
    Keyboard,
    /// Move the mouse every time the control moves.
    Mouse,
    /// Treat the control as a two-state switch, like note on/off.
    Toggle,
}

/// The binding for one control-change number: its mode, the targets for
/// the two rotation directions, and the key used in `Toggle` mode.
/// An absent target means "no action in that direction".
#[derive(Clone, Copy, Debug, PartialEq, Eq)]
pub struct CCDirectionConfig {
    pub bind_mode: CCBindMode,
    pub counter_clockwise: Option<CCTarget>,
    pub clockwise: Option<CCTarget>,
    pub toggle_key: Option<u16>,
}

/// Bindings from control-change numbers to direction bindings.
/// Lookups take the first entry whose number matches.
#[derive(Clone, Debug, PartialEq, Eq)]
pub struct CCConfig {
    pub cc: Vec<(u8, CCDirectionConfig)>,
}

/// Bindings from MIDI note numbers to output key codes.  Several notes
/// may be bound to the same key code (aliasing).  Lookups take the
/// first entry whose note matches.
#[derive(Clone, Debug, PartialEq, Eq)]
pub struct NoteBinding {
    pub notes: Vec<(u8, u16)>,
}

/// The whole resolved configuration.
#[derive(Clone, Debug, PartialEq, Eq)]
pub struct Config {
    pub cc: CCConfig,
    pub notes: NoteBinding,
    /// The string to search for in the MIDI device port name,
    /// e.g. "28:0" for the port containing "28:0" in the name.
    /// Only the surrounding program reads it; the dispatcher does not.
    pub midi_device: String,
    /// Optional MIDI channel filter (1-16).  When present, only
    /// channel-voice events on this 1-based channel are processed.
    pub channel_filter: Option<u8>,
}

/// First-match lookup of a note number in a binding list.
pub open spec fn spec_lookup_note(entries: Seq<(u8, u16)>, note: u8) -> Option<u16>
    decreases entries.len(),
{
    if entries.len() == 0 {
        None
    } else if entries[0].0 == note {
        Some(entries[0].1)
    } else {
        spec_lookup_note(entries.drop_first(), note)
    }
}

/// First-match lookup of a control-change number in a binding list.
pub open spec fn spec_lookup_cc(entries: Seq<(u8, CCDirectionConfig)>, cc: u8) -> Option<
    CCDirectionConfig,
>
    decreases entries.len(),
{
    if entries.len() == 0 {
        None
    } else if entries[0].0 == cc {
        Some(entries[0].1)
    } else {
        spec_lookup_cc(entries.drop_first(), cc)
    }
}

/// The byte is an ASCII decimal digit.
pub open spec fn spec_is_digit(b: u8) -> bool {
    48 <= b <= 57
}

/// The bytes are one or more ASCII decimal digits.
pub open spec fn spec_all_digits(s: Seq<u8>) -> bool {
    s.len() > 0 && forall|i: int| 0 <= i < s.len() ==> spec_is_digit(#[trigger] s[i])
}

/// The value of a string of ASCII decimal digits.
pub open spec fn spec_digits_value(s: Seq<u8>) -> int
    decreases s.len(),
{
    if s.len() == 0 {
        0
    } else {
        spec_digits_value(s.drop_last()) * 10 + (s.last() - 48)
    }
}

/// What a direction token written in the configuration resolves to:
/// one of the four axis words gives that mouse axis, a string of
/// decimal digits whose value fits a key code gives that key, and
/// anything else is rejected — at load time, never during dispatch.
pub open spec fn spec_resolve_target(s: Seq<u8>) -> Option<CCTarget> {
    if s == seq![120u8] {  // "x"
        Some(CCTarget::Axis(MouseAxis::PlusX))
    } else if s == seq![45u8, 120u8] {  // "-x"
        Some(CCTarget::Axis(MouseAxis::MinusX))
    } else if s == seq![121u8] {  // "y"
        Some(CCTarget::Axis(MouseAxis::PlusY))
    } else if s == seq![45u8, 121u8] {  // "-y"
        Some(CCTarget::Axis(MouseAxis::MinusY))
    } else if spec_all_digits(s) && spec_digits_value(s) <= 65535 {
        Some(CCTarget::Key(spec_digits_value(s) as u16))
    } else {
        None
    }
}

/// `spec_digits_value`, saturated just above the largest key code, so
/// that an accumulator can follow it without overflowing.
pub open spec fn spec_digits_value_capped(s: Seq<u8>) -> int
    decreases s.len(),
{
    if s.len() == 0 {
        0
    } else {
        let x = spec_digits_value_capped(s.drop_last()) * 10 + (s.last() - 48);
        if x > 65535 {
            65536
        } else {
            x
        }
    }
}

/// The capped value agrees with the true value below the cap, and sits
/// exactly at the cap whenever the true value is beyond it.
proof fn lemma_digits_value_capped(s: Seq<u8>)
    requires
        forall|i: int| 0 <= i < s.len() ==> spec_is_digit(#[trigger] s[i]),
    ensures
        spec_digits_value(s) >= 0,
        spec_digits_value(s) <= 65535 ==> spec_digits_value_capped(s) == spec_digits_value(s),
        spec_digits_value(s) > 65535 ==> spec_digits_value_capped(s) == 65536,
    decreases s.len(),
{
    if s.len() > 0 {
        assert(forall|i: int|
            0 <= i < s.drop_last().len() ==> spec_is_digit(#[trigger] s.drop_last()[i]));
        lemma_digits_value_capped(s.drop_last());
    }
}

/// Resolve one direction token, as written in the configuration, to a
/// validated target: `b"x"`, `b"-x"`, `b"y"`, `b"-y"` give the mouse
/// axes, a decimal number up to 65535 gives a key code, and anything
/// else gives `None`.
pub fn resolve_target(s: &[u8]) -> (r: Option<CCTarget>)
    ensures
        r == spec_resolve_target(s@),
{
    if s.len() == 1 && s[0] == 120 {
        proof {
            assert(s@ =~= seq![120u8]);
        }
        return Some(CCTarget::Axis(MouseAxis::PlusX));
    }
    if s.len() == 2 && s[0] == 45 && s[1] == 120 {
        proof {
            assert(s@ =~= seq![45u8, 120u8]);
        }
        return Some(CCTarget::Axis(MouseAxis::MinusX));
    }
    if s.len() == 1 && s[0] == 121 {
        proof {
            assert(s@ =~= seq![121u8]);
        }
        return Some(CCTarget::Axis(MouseAxis::PlusY));
    }
    if s.len() == 2 && s[0] == 45 && s[1] == 121 {
        proof {
            assert(s@ =~= seq![45u8, 121u8]);
        }
        return Some(CCTarget::Axis(MouseAxis::MinusY));
    }
    proof {
        assert(s@ != seq![120u8] && s@ != seq![45u8, 120u8] && s@ != seq![121u8] && s@ != seq![
            45u8,
            121u8,
        ]) by {
            assert(seq![120u8].len() == 1 && seq![120u8][0] == 120u8);
            assert(seq![121u8].len() == 1 && seq![121u8][0] == 121u8);
            assert(seq![45u8, 120u8].len() == 2 && seq![45u8, 120u8][0] == 45u8 && seq![
                45u8,
                120u8,
            ][1] == 120u8);
            assert(seq![45u8, 121u8].len() == 2 && seq![45u8, 121u8][0] == 45u8 && seq![
                45u8,
                121u8,
            ][1] == 121u8);
        }
    }
    match parse_key_code(s) {
        Some(k) => Some(CCTarget::Key(k)),
        None => None,
    }
}

/// Parse a decimal key code: one or more ASCII digits whose value fits
/// a `u16`.  Anything else — empty, a stray byte, a value past 65535 —
/// is rejected.
pub fn parse_key_code(s: &[u8]) -> (r: Option<u16>)
    ensures
        r == (if spec_all_digits(s@) && spec_digits_value(s@) <= 65535 {
            Some(spec_digits_value(s@) as u16)
        } else {
            None::<u16>
        }),
{
    if s.len() == 0 {
        return None;
    }
    let mut v: u32 = 0;
    let mut i: usize = 0;
    while i < s.len()
        invariant
            i <= s@.len(),
            forall|j: int| 0 <= j < i ==> spec_is_digit(#[trigger] s@[j]),
            v == spec_digits_value_capped(s@.take(i as int)),
            v <= 65536,
        decreases s@.len() - i,
    {
        let b = s[i];
        if b < 48 || b > 57 {
            proof {
                assert(!spec_is_digit(s@[i as int]));
                assert(!spec_all_digits(s@));
            }
            return None;
        }
        let x = v * 10 + ((b - 48) as u32);
        v = if x > 65535 {
            65536
        } else {
            x
        };
        proof {
            assert(s@.take(i + 1).drop_last() =~= s@.take(i as int));
            assert(s@.take(i + 1).last() == s@[i as int]);
        }
        i = i + 1;
    }
    proof {
        assert(s@.take(i as int) =~= s@);
        lemma_digits_value_capped(s@);
    }
    if v <= 65535 {
        Some(v as u16)
    } else {
        None
    }
}

impl NoteBinding {
    /// The output key code bound to `note`, if any.
    pub fn get_key(&self, note: u8) -> (r: Option<u16>)
        ensures
            r == spec_lookup_note(self.notes@, note),
    {
        let mut i: usize = 0;
        proof {
            assert(self.notes@.skip(0) =~= self.notes@);
        }
        while i < self.notes.len()
            invariant
                i <= self.notes@.len(),
                spec_lookup_note(self.notes@, note) == spec_lookup_note(
                    self.notes@.skip(i as int),
                    note,
                ),
            decreases self.notes@.len() - i,
        {
            proof {
                assert(self.notes@.skip(i as int)[0] == self.notes@[i as int]);
            }
            if self.notes[i].0 == note {
                return Some(self.notes[i].1);
            }
            proof {
                assert(self.notes@.skip(i as int).drop_first() =~= self.notes@.skip(i + 1));
            }
            i = i + 1;
        }
        proof {
            assert(self.notes@.skip(i as int).len() == 0);
        }
        None
    }
}

impl CCConfig {
    /// The direction binding for control-change number `cc`, if any.
    pub fn get_dir_config(&self, cc: u8) -> (r: Option<&CCDirectionConfig>)
        ensures
            (match r {
                Some(c) => spec_lookup_cc(self.cc@, cc) == Some(*c),
                None => spec_lookup_cc(self.cc@, cc) is None,
            }),
    {
        let mut i: usize = 0;
        proof {
            assert(self.cc@.skip(0) =~= self.cc@);
        }
        while i < self.cc.len()
            invariant
                i <= self.cc@.len(),
                spec_lookup_cc(self.cc@, cc) == spec_lookup_cc(self.cc@.skip(i as int), cc),
            decreases self.cc@.len() - i,
        {
            proof {
                assert(self.cc@.skip(i as int)[0] == self.cc@[i as int]);
            }
            if self.cc[i].0 == cc {
                return Some(&self.cc[i].1);
            }
            proof {
                assert(self.cc@.skip(i as int).drop_first() =~= self.cc@.skip(i + 1));
            }
            i = i + 1;
        }
        proof {
            assert(self.cc@.skip(i as int).len() == 0);
        }
        None
    }
}

} // verus!
