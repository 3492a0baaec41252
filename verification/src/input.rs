//! The pitch mapper: a bounded one-dimensional position, moved by
//! relative deltas and mapped onto a contiguous range of MIDI pitches.
//!
//! Positions live in `[0, max_pos)` with `max_pos = num_notes *
//! note_width`; each note owns a span of `note_width` positions whose
//! upper edge is its boundary, so boundary `i` is `(i + 1) *
//! note_width`. Every relative move clamps back into the range, so the
//! mapped pitch always lies in `[lowest_pitch, lowest_pitch +
//! num_notes)`.

use vstd::arithmetic::div_mod::lemma_div_pos_is_pos;
use vstd::arithmetic::div_mod::lemma_fundamental_div_mod_converse;
use vstd::arithmetic::div_mod::lemma_multiply_divide_lt;
use vstd::pervasive::unreached;
use vstd::prelude::*;

use crate::midi::HIGHEST_MIDI_NOTE;
use crate::midi::Pitch;

verus! {

/// The pitch a position maps to: one note every `note_width` steps of
/// position, starting at `lowest_pitch`.
pub open spec fn pitch_of(lowest_pitch: u8, note_width: u16, pos: u32) -> int {
    lowest_pitch + pos as int / note_width as int
}

/// Where a position lands after a relative move of `mov`: the sum,
/// clamped into `[0, max_pos)`.
pub open spec fn moved_pos(pos: u32, mov: i32, max_pos: u32) -> int {
    let target = pos as int + mov as int;
    if target < 0 {
        0
    } else if target > max_pos as int - 1 {
        max_pos as int - 1
    } else {
        target
    }
}

pub struct InputHandler {
    pub lowest_pitch: u8,
    pub num_notes: u8,
    pub note_width: u16,
    pub pos: u32,
    pub max_pos: u32,
    pub note_boundaries: Vec<u32>,
    pub playing: bool,
}

impl InputHandler {
    pub open spec fn lowest_pitch_spec(&self) -> u8 {
        self.lowest_pitch
    }

    pub open spec fn num_notes_spec(&self) -> u8 {
        self.num_notes
    }

    pub open spec fn note_width_spec(&self) -> u16 {
        self.note_width
    }

    pub open spec fn pos_spec(&self) -> u32 {
        self.pos
    }

    pub open spec fn max_pos_spec(&self) -> u32 {
        self.max_pos
    }

    pub open spec fn boundaries(&self) -> Seq<u32> {
        self.note_boundaries@
    }

    /// The pitch the current position maps to.
    pub open spec fn pitch_spec(&self) -> int {
        pitch_of(self.lowest_pitch_spec(), self.note_width_spec(), self.pos_spec())
    }

    /// Well-formedness: the boundaries are the ascending upper note
    /// edges, the position is clamped, and the whole pitch range fits
    /// in MIDI pitch space.
    pub open spec fn wf(&self) -> bool {
        &&& 1 <= self.num_notes_spec()
        &&& 1 <= self.note_width_spec()
        &&& self.lowest_pitch_spec() + self.num_notes_spec() <= 128
        &&& self.max_pos_spec() == self.num_notes_spec() as int * self.note_width_spec() as int
        &&& 1 <= self.max_pos_spec()
        &&& self.boundaries().len() == self.num_notes_spec()
        &&& (forall|i: int|
            0 <= i < self.num_notes_spec() ==> #[trigger] self.boundaries()[i] == (i + 1)
                * self.note_width_spec() as int)
        &&& self.pos_spec() < self.max_pos_spec()
    }

    /// The note layout (range, width, boundaries) is shared; only the
    /// position and the playing flag may differ.
    pub open spec fn same_mapping(&self, o: &Self) -> bool {
        &&& self.lowest_pitch_spec() == o.lowest_pitch_spec()
        &&& self.num_notes_spec() == o.num_notes_spec()
        &&& self.note_width_spec() == o.note_width_spec()
        &&& self.max_pos_spec() == o.max_pos_spec()
        &&& self.boundaries() == o.boundaries()
    }

    /// Build a mapper for `num_notes` notes of width `note_width`
    /// starting at `lowest_pitch`. The position starts at the midpoint
    /// of the range, not yet playing.
    pub fn with_range(lowest_pitch: u8, num_notes: u8, note_width: u16) -> (r: Self)
        requires
            1 <= num_notes,
            1 <= note_width,
            lowest_pitch + num_notes <= 128,
        ensures
            r.wf(),
            r.lowest_pitch_spec() == lowest_pitch,
            r.num_notes_spec() == num_notes,
            r.note_width_spec() == note_width,
            r.pos_spec() == r.max_pos_spec() / 2,
            !r.playing,
    {
        let mut note_boundaries: Vec<u32> = Vec::new();
        let mut i: u32 = 0;
        while i < num_notes as u32
            invariant
                i <= num_notes as u32,
                num_notes <= 128,
                1 <= note_width,
                note_boundaries@.len() == i,
                forall|j: int|
                    0 <= j < i ==> #[trigger] note_boundaries@[j] == (j + 1)
                        * note_width as int,
            decreases num_notes as u32 - i,
        {
            proof {
                assert((i + 1) as int * note_width as int <= 128 * 65535) by (nonlinear_arith)
                    requires
                        i + 1 <= 128,
                        note_width <= 65535,
                        0 <= i,
                ;
            }
            note_boundaries.push((i + 1) * (note_width as u32));
            i = i + 1;
        }
        proof {
            assert(num_notes as int * note_width as int <= 128 * 65535) by (nonlinear_arith)
                requires
                    num_notes <= 128,
                    note_width <= 65535,
            ;
            assert(1 <= num_notes as int * note_width as int) by (nonlinear_arith)
                requires
                    1 <= num_notes,
                    1 <= note_width,
            ;
        }
        let max_pos = (num_notes as u32) * (note_width as u32);
        InputHandler {
            lowest_pitch,
            num_notes,
            note_width,
            pos: max_pos / 2,
            max_pos,
            note_boundaries,
            playing: false,
        }
    }

    /// A mapper over the full MIDI pitch space, 128 notes from pitch 0,
    /// as the routine allocates when a device is selected.
    pub fn new(note_width: u16) -> (r: Self)
        requires
            1 <= note_width,
        ensures
            r.wf(),
            r.lowest_pitch_spec() == 0,
            r.num_notes_spec() == 128,
            r.note_width_spec() == note_width,
            r.pos_spec() == r.max_pos_spec() / 2,
            !r.playing,
    {
        Self::with_range(0, HIGHEST_MIDI_NOTE + 1, note_width)
    }

    /// Move the position back to the midpoint and stop playing.
    pub fn reset(&mut self)
        requires
            old(self).wf(),
        ensures
            final(self).wf(),
            final(self).same_mapping(old(self)),
            final(self).pos_spec() == old(self).max_pos_spec() / 2,
            !final(self).playing,
    {
        self.pos = self.max_pos / 2;
        self.playing = false;
    }

    /// Apply a relative move: add `mov` to the position, clamping into
    /// `[0, max_pos)`, and return the pitch the new position maps to.
    pub fn handle_rel_move(&mut self, mov: i32) -> (pitch: Pitch)
        requires
            old(self).wf(),
        ensures
            final(self).wf(),
            final(self).same_mapping(old(self)),
            final(self).playing == old(self).playing,
            final(self).pos_spec() == moved_pos(
                old(self).pos_spec(),
                mov,
                old(self).max_pos_spec(),
            ),
            pitch == final(self).pitch_spec(),
            final(self).lowest_pitch_spec() <= pitch < final(self).lowest_pitch_spec()
                + final(self).num_notes_spec(),
    {
        let target: i64 = self.pos as i64 + mov as i64;
        if target < 0 {
            self.pos = 0;
        } else if target >= self.max_pos as i64 {
            self.pos = self.max_pos - 1;
        } else {
            self.pos = target as u32;
        }
        self.pitch_from_pos()
    }

    /// The pitch the current position maps to: the index of the first
    /// boundary the position falls strictly below, offset by
    /// `lowest_pitch`.
    pub fn pitch_from_pos(&self) -> (pitch: Pitch)
        requires
            self.wf(),
        ensures
            pitch == self.pitch_spec(),
            self.lowest_pitch_spec() <= pitch < self.lowest_pitch_spec()
                + self.num_notes_spec(),
    {
        let n = self.note_boundaries.len();
        let mut i: usize = 0;
        while i < n
            invariant
                self.wf(),
                n == self.num_notes_spec(),
                i <= n,
                forall|j: int| 0 <= j < i ==> self.pos_spec() >= #[trigger] self.boundaries()[j],
            decreases n - i,
        {
            if self.pos < self.note_boundaries[i] {
                proof {
                    let w = self.note_width_spec() as int;
                    let p = self.pos_spec() as int;
                    assert(self.boundaries()[i as int] == (i + 1) * w);
                    if i > 0 {
                        assert(self.boundaries()[i as int - 1] == (i as int - 1 + 1) * w);
                        assert(p >= i as int * w);
                    } else {
                        assert(i as int * w == 0) by (nonlinear_arith)
                            requires
                                i == 0,
                        ;
                    }
                    assert((i + 1) as int * w == i as int * w + w) by (nonlinear_arith);
                    lemma_fundamental_div_mod_converse(p, w, i as int, p - i as int * w);
                }
                return self.lowest_pitch + (i as u8);
            }
            i += 1;
        }
        proof {
            assert(self.pos_spec() >= self.boundaries()[self.num_notes_spec() - 1]);
            assert(self.boundaries()[self.num_notes_spec() - 1] == (self.num_notes_spec() - 1 + 1)
                * self.note_width_spec() as int);
            assert(false);
        }
        unreached()
    }

    /// The raw clamped position, for display projections.
    pub fn pos(&self) -> (r: u32)
        ensures
            r == self.pos_spec(),
    {
        self.pos
    }

    /// One past the largest reachable position.
    pub fn max_pos(&self) -> (r: u32)
        ensures
            r == self.max_pos_spec(),
    {
        self.max_pos
    }

    /// How many notes the mapper spans.
    pub fn num_notes(&self) -> (r: u8)
        ensures
            r == self.num_notes_spec(),
    {
        self.num_notes
    }
}

/// Law: a well-formed mapper maps its position to a pitch inside
/// `[lowest_pitch, lowest_pitch + num_notes)`, whatever the position.
pub proof fn lemma_pitch_in_range(h: InputHandler)
    requires
        h.wf(),
    ensures
        h.lowest_pitch_spec() <= h.pitch_spec() < h.lowest_pitch_spec() + h.num_notes_spec(),
{
    let p = h.pos_spec() as int;
    let w = h.note_width_spec() as int;
    let n = h.num_notes_spec() as int;
    lemma_div_pos_is_pos(p, w);
    assert(p < w * n) by (nonlinear_arith)
        requires
            p < n * w,
    ;
    lemma_multiply_divide_lt(p, w, n);
}

} // verus!
