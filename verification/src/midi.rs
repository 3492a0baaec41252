//! The note emitter: the per-voice MIDI note state machine.
//!
//! A voice sounds at most one note at a time. `play` and `release`
//! compute the exact sequence of 3-byte channel messages that moves the
//! voice to the requested state; sending those bytes to a MIDI output
//! port is the caller's business, outside this crate.

use vstd::prelude::*;

verus! {

pub const HIGHEST_MIDI_NOTE: u8 = 127;

/// Fixed velocity used for every note-on and note-off message.
pub const VEL: u8 = 127;

/// Status byte of a channel-0 note-on message.
pub const NOTE_ON_MSG: u8 = 0x90;

/// Status byte of a channel-0 note-off message.
pub const NOTE_OFF_MSG: u8 = 0x80;

/// A MIDI note number, 0..=127.
pub type Pitch = u8;

/// One outbound MIDI channel message, exactly three bytes on the wire:
/// `[status, pitch, velocity]`.
#[derive(Clone, Copy, Debug, PartialEq, Eq, Structural)]
pub struct MidiMsg {
    pub status: u8,
    pub pitch: u8,
    pub velocity: u8,
}

pub open spec fn note_on(pitch: Pitch) -> MidiMsg {
    MidiMsg { status: NOTE_ON_MSG, pitch, velocity: VEL }
}

pub open spec fn note_off(pitch: Pitch) -> MidiMsg {
    MidiMsg { status: NOTE_OFF_MSG, pitch, velocity: VEL }
}

/// The messages a voice emits when asked to play `pitch` while its
/// sounding note is `cur`: nothing if `pitch` already sounds, a plain
/// note-on from silence, and note-off strictly before note-on on a
/// pitch change.
pub open spec fn play_output(cur: Option<Pitch>, pitch: Pitch) -> Seq<MidiMsg> {
    match cur {
        Some(c) => if c == pitch {
            Seq::<MidiMsg>::empty()
        } else {
            seq![note_off(c), note_on(pitch)]
        },
        None => seq![note_on(pitch)],
    }
}

/// The messages a voice emits when silenced: one note-off for the
/// sounding note, if any.
pub open spec fn release_output(cur: Option<Pitch>) -> Seq<MidiMsg> {
    match cur {
        Some(c) => seq![note_off(c)],
        None => Seq::<MidiMsg>::empty(),
    }
}

pub open spec fn is_note_on(m: MidiMsg) -> bool {
    m.status == NOTE_ON_MSG
}

pub open spec fn is_note_off(m: MidiMsg) -> bool {
    m.status == NOTE_OFF_MSG
}

/// How many note-on messages a sequence holds.
pub open spec fn note_on_count(s: Seq<MidiMsg>) -> int
    decreases s.len(),
{
    if s.len() == 0 {
        0
    } else {
        note_on_count(s.drop_last()) + if is_note_on(s.last()) { 1int } else { 0int }
    }
}

/// How many note-off messages a sequence holds.
pub open spec fn note_off_count(s: Seq<MidiMsg>) -> int
    decreases s.len(),
{
    if s.len() == 0 {
        0
    } else {
        note_off_count(s.drop_last()) + if is_note_off(s.last()) { 1int } else { 0int }
    }
}

/// One voice: the note currently sounding, if any. Emits messages as
/// data; it holds no connection.
pub struct MidiHandler {
    current_note: Option<Pitch>,
}

impl MidiHandler {
    /// The note this voice is sounding, if any.
    pub closed spec fn current(&self) -> Option<Pitch> {
        self.current_note
    }

    /// A fresh, silent voice.
    pub fn new() -> (r: Self)
        ensures
            r.current() is None,
    {
        MidiHandler { current_note: None }
    }

    /// Move the voice to `pitch`, returning the messages to send, in
    /// order: nothing if `pitch` already sounds; otherwise a note-off
    /// for the old note (if one sounds) followed by a note-on for
    /// `pitch`.
    pub fn play(&mut self, pitch: Pitch) -> (out: Vec<MidiMsg>)
        ensures
            final(self).current() == Some(pitch),
            out@ == play_output(old(self).current(), pitch),
    {
        let mut out: Vec<MidiMsg> = Vec::new();
        match self.current_note {
            Some(current_note) if current_note == pitch => {
                proof {
                    assert(out@ =~= play_output(old(self).current(), pitch));
                }
                return out;
            },
            Some(current_note) => {
                out.push(MidiMsg { status: NOTE_OFF_MSG, pitch: current_note, velocity: VEL });
            },
            None => {},
        }
        out.push(MidiMsg { status: NOTE_ON_MSG, pitch, velocity: VEL });
        self.current_note = Some(pitch);
        proof {
            assert(out@ =~= play_output(old(self).current(), pitch));
        }
        out
    }

    /// Silence the voice, returning the note-off to send if a note was
    /// sounding.
    pub fn release(&mut self) -> (out: Vec<MidiMsg>)
        ensures
            final(self).current() is None,
            out@ == release_output(old(self).current()),
    {
        let mut out: Vec<MidiMsg> = Vec::new();
        if let Some(current_note) = self.current_note {
            out.push(MidiMsg { status: NOTE_OFF_MSG, pitch: current_note, velocity: VEL });
            self.current_note = None;
        }
        proof {
            assert(out@ =~= release_output(old(self).current()));
        }
        out
    }

    /// Retire the voice, returning the final flush: one note-off if a
    /// note was still sounding. The caller closes the underlying
    /// connection after sending it.
    pub fn close(self) -> (out: Vec<MidiMsg>)
        ensures
            out@ == release_output(self.current()),
    {
        let mut this = self;
        this.release()
    }
}

/// Appending one message raises the note-on count by one exactly when
/// that message is a note-on.
pub proof fn lemma_note_on_count_push(s: Seq<MidiMsg>, m: MidiMsg)
    ensures
        note_on_count(s.push(m)) == note_on_count(s) + if is_note_on(m) {
            1int
        } else {
            0int
        },
{
    assert(s.push(m).drop_last() =~= s);
    assert(s.push(m).last() == m);
}

/// Appending one message raises the note-off count by one exactly when
/// that message is a note-off.
pub proof fn lemma_note_off_count_push(s: Seq<MidiMsg>, m: MidiMsg)
    ensures
        note_off_count(s.push(m)) == note_off_count(s) + if is_note_off(m) {
            1int
        } else {
            0int
        },
{
    assert(s.push(m).drop_last() =~= s);
    assert(s.push(m).last() == m);
}

/// Law: playing a pitch is idempotent. Once `p` sounds, a second
/// `play(p)` emits nothing, and the two calls together emit exactly one
/// note-on (none at all if `p` was already sounding before the first).
pub proof fn lemma_play_idempotent(cur: Option<Pitch>, p: Pitch)
    ensures
        play_output(Some(p), p) == Seq::<MidiMsg>::empty(),
        note_on_count(play_output(cur, p) + play_output(Some(p), p)) == if cur == Some(p) {
            0int
        } else {
            1int
        },
{
    let e = Seq::<MidiMsg>::empty();
    let both = play_output(cur, p) + play_output(Some(p), p);
    assert(play_output(Some(p), p) =~= e);
    assert(both =~= play_output(cur, p));
    assert(note_on_count(e) == 0);
    match cur {
        Some(c) => {
            if c != p {
                assert(play_output(cur, p) =~= e.push(note_off(c)).push(note_on(p)));
                lemma_note_on_count_push(e, note_off(c));
                lemma_note_on_count_push(e.push(note_off(c)), note_on(p));
            } else {
                assert(play_output(cur, p) =~= e);
            }
        },
        None => {
            assert(play_output(cur, p) =~= e.push(note_on(p)));
            lemma_note_on_count_push(e, note_on(p));
        },
    }
}

/// Law: releasing is idempotent. Once silent, a second `release` emits
/// nothing, and the two calls together emit exactly one note-off (none
/// if the voice was already silent).
pub proof fn lemma_release_idempotent(cur: Option<Pitch>)
    ensures
        release_output(None::<Pitch>) == Seq::<MidiMsg>::empty(),
        note_off_count(release_output(cur) + release_output(None::<Pitch>)) == if cur is Some {
            1int
        } else {
            0int
        },
{
    let e = Seq::<MidiMsg>::empty();
    let both = release_output(cur) + release_output(None::<Pitch>);
    assert(release_output(None::<Pitch>) =~= e);
    assert(both =~= release_output(cur));
    assert(note_off_count(e) == 0);
    match cur {
        Some(c) => {
            assert(release_output(cur) =~= e.push(note_off(c)));
            lemma_note_off_count_push(e, note_off(c));
        },
        None => {},
    }
}

/// Law: a pitch change is ordered. Moving a voice from `a` to `b` with
/// `a != b` emits exactly note-off(a) strictly before note-on(b).
pub proof fn lemma_play_change_ordering(a: Pitch, b: Pitch)
    requires
        a != b,
    ensures
        play_output(Some(a), b).len() == 2,
        play_output(Some(a), b)[0] == note_off(a),
        play_output(Some(a), b)[1] == note_on(b),
{
}

} // verus!
