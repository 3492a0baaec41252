//! The routine state machine: per-device selection, event dispatch and
//! the snapshots published to the presentation layer.
//!
//! One device is either unselected or carries a voice: a pitch mapper,
//! a note emitter, and its slot in the dense position array. All
//! transitions return, as plain data, the MIDI messages the caller must
//! send and the state it must publish; polling the backend, the
//! channels, and the MIDI transport stay outside this crate.

use vstd::prelude::*;

use crate::events::Axis;
use crate::events::Button;
use crate::events::Event;
use crate::events::EventType;
use crate::events::axis_code;
use crate::events::button_code;
use crate::events::is_play_button;
use crate::events::is_pitch_motion;
use crate::input::InputHandler;
use crate::input::moved_pos;
use crate::input::pitch_of;
use crate::midi::MidiHandler;
use crate::midi::MidiMsg;
use crate::midi::Pitch;
use crate::midi::lemma_note_off_count_push;
use crate::midi::note_off;
use crate::midi::note_off_count;
use crate::midi::play_output;
use crate::midi::release_output;

verus! {

/// Capacity of the command queue from the presentation layer.
pub const MSG_BUFF_SIZE: usize = 30;

/// Note width given to the mapper of a freshly selected device.
pub const DEFAULT_NOTE_WIDTH: u16 = 50;

/// A command from the presentation layer.
pub enum Msg {
    FindNewDevices,
    ClickDev(usize),
}

/// One entry of the published device list snapshot.
#[derive(Debug, Clone, PartialEq)]
pub struct Dev {
    pub id: usize,
    pub name: String,
    pub selected: bool,
    pub disconnected: bool,
}

pub type Devices = Vec<Dev>;

/// The voice of a selected device.
pub struct DevHandlers {
    /// Slot of this device in the dense position array: its rank among
    /// the selected devices, in device-index order.
    pub pos_idx: usize,
    pub input_h: InputHandler,
    pub midi_h: MidiHandler,
}

/// One known device: its backend name, its voice if selected, and
/// whether the backend reported it gone.
pub struct DevState {
    pub name: String,
    pub selected: Option<DevHandlers>,
    pub disconnected: bool,
}

impl DevState {
    pub open spec fn is_selected(&self) -> bool {
        self.selected is Some
    }

    pub open spec fn voice(&self) -> DevHandlers {
        self.selected->0
    }

    /// The note this device is sounding, if it is selected and one
    /// sounds.
    pub open spec fn sounding(&self) -> Option<Pitch> {
        match self.selected {
            Some(h) => h.midi_h.current(),
            None => None,
        }
    }

    pub open spec fn wf(&self) -> bool {
        self.selected matches Some(h) ==> h.input_h.wf()
    }

    /// Equal up to the voice's position slot: same name, same
    /// connectivity, same selection, and a voice in the same state
    /// except possibly its slot.
    pub open spec fn same_but_slot(&self, o: &DevState) -> bool {
        &&& self.name == o.name
        &&& self.disconnected == o.disconnected
        &&& match (self.selected, o.selected) {
            (Some(a), Some(b)) => a.input_h == b.input_h && a.midi_h == b.midi_h,
            (None, None) => true,
            _ => false,
        }
    }
}

/// How many of the first `end` devices are selected.
pub open spec fn sel_count(devs: Seq<DevState>, end: int) -> int
    decreases end,
{
    if end <= 0 {
        0
    } else {
        sel_count(devs, end - 1) + if devs[end - 1].is_selected() {
            1int
        } else {
            0int
        }
    }
}

/// The registry the routine owns: every known device with its state.
pub struct State {
    pub dev_states: Vec<DevState>,
}

impl State {
    pub open spec fn devs(&self) -> Seq<DevState> {
        self.dev_states@
    }

    /// Every voice is well-formed and sits at its selection-order slot.
    pub open spec fn wf(&self) -> bool {
        &&& (forall|i: int| 0 <= i < self.devs().len() ==> (#[trigger] self.devs()[i]).wf())
        &&& (forall|i: int|
            0 <= i < self.devs().len() && (#[trigger] self.devs()[i]).is_selected()
                ==> self.devs()[i].voice().pos_idx == sel_count(self.devs(), i))
    }

    /// A fresh registry over the given device names: every device
    /// unselected and connected.
    pub fn new(names: Vec<String>) -> (s: State)
        ensures
            s.wf(),
            s.devs().len() == names@.len(),
            forall|i: int|
                0 <= i < names@.len() ==> {
                    let d = #[trigger] s.devs()[i];
                    &&& d.name == names@[i]
                    &&& !d.is_selected()
                    &&& !d.disconnected
                },
    {
        let mut dev_states: Vec<DevState> = Vec::new();
        let mut i: usize = 0;
        while i < names.len()
            invariant
                i <= names@.len(),
                dev_states@.len() == i,
                forall|j: int|
                    0 <= j < i ==> {
                        let d = #[trigger] dev_states@[j];
                        &&& d.name == names@[j]
                        &&& !d.is_selected()
                        &&& !d.disconnected
                    },
            decreases names@.len() - i,
        {
            dev_states.push(
                DevState { name: names[i].clone(), selected: None, disconnected: false },
            );
            i += 1;
        }
        let s = State { dev_states };
        proof {
            assert forall|i: int|
                0 <= i < s.devs().len() && (#[trigger] s.devs()[i]).is_selected()
                implies s.devs()[i].voice().pos_idx == sel_count(s.devs(), i) by {}
        }
        s
    }

    /// How many devices are selected: the length of the published
    /// position array.
    pub fn selected_count(&self) -> (n: usize)
        ensures
            n == sel_count(self.devs(), self.devs().len() as int),
    {
        let mut n: usize = 0;
        let mut i: usize = 0;
        while i < self.dev_states.len()
            invariant
                i <= self.devs().len(),
                n == sel_count(self.devs(), i as int),
                n <= i,
            decreases self.devs().len() - i,
        {
            if self.dev_states[i].selected.is_some() {
                n += 1;
            }
            i += 1;
        }
        n
    }
}

/// `sel_count` only looks at which devices are selected.
pub proof fn lemma_sel_count_congruent(a: Seq<DevState>, b: Seq<DevState>, end: int)
    requires
        0 <= end <= a.len(),
        a.len() == b.len(),
        forall|j: int|
            0 <= j < a.len() ==> (#[trigger] a[j]).is_selected() == b[j].is_selected(),
    ensures
        sel_count(a, end) == sel_count(b, end),
    decreases end,
{
    if end > 0 {
        lemma_sel_count_congruent(a, b, end - 1);
    }
}

/// `sel_count` grows with the prefix.
pub proof fn lemma_sel_count_monotonic(devs: Seq<DevState>, a: int, b: int)
    requires
        0 <= a <= b <= devs.len(),
    ensures
        sel_count(devs, a) <= sel_count(devs, b),
    decreases b - a,
{
    if a < b {
        lemma_sel_count_monotonic(devs, a, b - 1);
    }
}

/// Law: two distinct selected devices occupy distinct slots of the
/// position array, so an event for one never lands in the other's
/// slot.
pub proof fn lemma_slots_distinct(s: State, a: int, b: int)
    requires
        s.wf(),
        0 <= a < b < s.devs().len(),
        s.devs()[a].is_selected(),
        s.devs()[b].is_selected(),
    ensures
        s.devs()[a].voice().pos_idx != s.devs()[b].voice().pos_idx,
{
    assert(sel_count(s.devs(), a + 1) == sel_count(s.devs(), a) + 1);
    lemma_sel_count_monotonic(s.devs(), a + 1, b);
}

/// The device-list snapshot published to the presentation layer: one
/// entry per device in enumeration order, carrying its index, name,
/// selection and connectivity.
pub fn gui_devices_from_states(dev_states: &Vec<DevState>) -> (r: Devices)
    ensures
        r@.len() == dev_states@.len(),
        forall|i: int|
            0 <= i < dev_states@.len() ==> {
                let d = #[trigger] r@[i];
                &&& d.id == i
                &&& d.name == dev_states@[i].name
                &&& d.selected == dev_states@[i].is_selected()
                &&& d.disconnected == dev_states@[i].disconnected
            },
{
    let mut r: Devices = Vec::new();
    let mut i: usize = 0;
    while i < dev_states.len()
        invariant
            i <= dev_states@.len(),
            r@.len() == i,
            forall|j: int|
                0 <= j < i ==> {
                    let d = #[trigger] r@[j];
                    &&& d.id == j
                    &&& d.name == dev_states@[j].name
                    &&& d.selected == dev_states@[j].is_selected()
                    &&& d.disconnected == dev_states@[j].disconnected
                },
        decreases dev_states@.len() - i,
    {
        let d_s = &dev_states[i];
        r.push(
            Dev {
                id: i,
                name: d_s.name.clone(),
                selected: d_s.selected.is_some(),
                disconnected: d_s.disconnected,
            },
        );
        i += 1;
    }
    r
}

/// A voice as allocated at selection time: a mapper with the default
/// note width over the full pitch range, its position at the midpoint,
/// the hold button up, and a silent emitter.
pub open spec fn fresh_voice(h: DevHandlers) -> bool {
    &&& h.input_h.wf()
    &&& h.input_h.lowest_pitch_spec() == 0
    &&& h.input_h.num_notes_spec() == 128
    &&& h.input_h.note_width_spec() == DEFAULT_NOTE_WIDTH
    &&& h.input_h.pos_spec() == h.input_h.max_pos_spec() / 2
    &&& !h.input_h.playing
    &&& h.midi_h.current() is None
}

/// What `click_dev` returned and what the caller owes for it: open a
/// MIDI port named after a newly selected device, or send the flush and
/// close the port of a deselected one. A click outside the known range
/// is ignored.
pub enum ClickOutcome {
    Ignored,
    Selected { name: String },
    Deselected { flush: Vec<MidiMsg> },
}

/// The selection-toggle transition: how `click_dev(i)` relates the old
/// registry to the new one and to its outcome.
pub open spec fn click_rel(pre: State, i: usize, post: State, r: ClickOutcome) -> bool {
    let n = pre.devs().len() as int;
    &&& post.devs().len() == n
    &&& (i >= n ==> post == pre && r is Ignored)
    &&& (i < n ==> {
        &&& (forall|j: int|
            0 <= j < n && j != i ==> (#[trigger] post.devs()[j]).same_but_slot(&pre.devs()[j]))
        &&& post.devs()[i as int].name == pre.devs()[i as int].name
        &&& post.devs()[i as int].disconnected == pre.devs()[i as int].disconnected
        &&& (pre.devs()[i as int].is_selected() ==> {
            &&& !post.devs()[i as int].is_selected()
            &&& (r matches ClickOutcome::Deselected { flush } && flush@ == release_output(
                pre.devs()[i as int].sounding(),
            ))
        })
        &&& (!pre.devs()[i as int].is_selected() ==> {
            &&& post.devs()[i as int].is_selected()
            &&& fresh_voice(post.devs()[i as int].voice())
            &&& (r matches ClickOutcome::Selected { name } && name == pre.devs()[i as int].name)
        })
    })
}

impl State {
    /// Reassign every selected device its selection-order slot: its
    /// rank among the selected devices, in device-index order.
    fn renumber(&mut self)
        ensures
            final(self).devs().len() == old(self).devs().len(),
            forall|j: int|
                0 <= j < old(self).devs().len() ==> (#[trigger] final(self).devs()[j])
                    .same_but_slot(&old(self).devs()[j]),
            forall|j: int|
                0 <= j < old(self).devs().len() && (#[trigger] final(self).devs()[j]).is_selected()
                    ==> final(self).devs()[j].voice().pos_idx == sel_count(final(self).devs(), j),
    {
        let n = self.dev_states.len();
        let mut counter: usize = 0;
        let mut j: usize = 0;
        while j < n
            invariant
                j <= n,
                counter <= j,
                self.devs().len() == n,
                old(self).devs().len() == n,
                counter == sel_count(old(self).devs(), j as int),
                forall|k: int|
                    0 <= k < n ==> (#[trigger] self.devs()[k]).same_but_slot(
                        &old(self).devs()[k],
                    ),
                forall|k: int|
                    0 <= k < j && (#[trigger] self.devs()[k]).is_selected() ==> self.devs()[k]
                        .voice().pos_idx == sel_count(old(self).devs(), k),
            decreases n - j,
        {
            let ghost mid = self.devs();
            let is_sel = self.dev_states[j].selected.is_some();
            if is_sel {
                let d = self.dev_states.remove(j);
                let DevState { name, selected, disconnected } = d;
                match selected {
                    Some(h) => {
                        let DevHandlers { pos_idx: _, input_h, midi_h } = h;
                        self.dev_states.insert(
                            j,
                            DevState {
                                name,
                                selected: Some(
                                    DevHandlers { pos_idx: counter, input_h, midi_h },
                                ),
                                disconnected,
                            },
                        );
                    },
                    None => {
                        self.dev_states.insert(
                            j,
                            DevState { name, selected: None, disconnected },
                        );
                    },
                }
                proof {
                    assert forall|k: int| 0 <= k < n && k != j implies self.devs()[k] == mid[k]
                    by {}
                    assert(self.devs()[j as int].same_but_slot(&old(self).devs()[j as int]));
                }
                counter += 1;
            }
            j += 1;
        }
        proof {
            assert forall|k: int|
                0 <= k < n && (#[trigger] self.devs()[k]).is_selected() implies self.devs()[
                k].voice().pos_idx == sel_count(self.devs(), k) by {
                lemma_sel_count_congruent(old(self).devs(), self.devs(), k);
            }
        }
    }

    /// Toggle device `i`: select it with a fresh voice, or deselect it
    /// and hand back the flush to send before its port closes. Slots
    /// are renumbered; a click outside the known range is ignored.
    pub fn click_dev(&mut self, i: usize) -> (r: ClickOutcome)
        requires
            old(self).wf(),
        ensures
            final(self).wf(),
            click_rel(*old(self), i, *final(self), r),
    {
        if i >= self.dev_states.len() {
            return ClickOutcome::Ignored;
        }
        let ghost pre = self.devs();
        let d = self.dev_states.remove(i);
        let DevState { name, selected, disconnected } = d;
        let r;
        match selected {
            Some(h) => {
                let DevHandlers { pos_idx: _, input_h: _, midi_h } = h;
                let flush = midi_h.close();
                self.dev_states.insert(i, DevState { name, selected: None, disconnected });
                r = ClickOutcome::Deselected { flush };
            },
            None => {
                let fresh_name = name.clone();
                let input_h = InputHandler::new(DEFAULT_NOTE_WIDTH);
                let midi_h = MidiHandler::new();
                self.dev_states.insert(
                    i,
                    DevState {
                        name,
                        selected: Some(DevHandlers { pos_idx: 0, input_h, midi_h }),
                        disconnected,
                    },
                );
                r = ClickOutcome::Selected { name: fresh_name };
            },
        }
        proof {
            assert forall|k: int| 0 <= k < pre.len() && k != i implies self.devs()[k] == pre[k]
            by {}
        }
        let ghost mid = self.devs();
        self.renumber();
        proof {
            assert forall|k: int| 0 <= k < pre.len() && k != i implies (
            #[trigger] self.devs()[k]).same_but_slot(&pre[k]) by {
                assert(self.devs()[k].same_but_slot(&mid[k]));
            }
            assert(self.devs()[i as int].same_but_slot(&mid[i as int]));
        }
        r
    }
}

/// What `handle_event` returned and what the caller owes for it: send
/// the returned messages on the device's port, update the device's slot
/// of the position array after a motion, and close the port of a
/// disconnected device after sending its flush.
pub enum EventOutcome {
    Ignored,
    Motion { device: usize, out: Vec<MidiMsg>, slot: usize, pos: u32, max_pos: u32 },
    Playing { device: usize, out: Vec<MidiMsg> },
    Disconnected { device: usize, flush: Vec<MidiMsg> },
}

/// The event-dispatch transition: how `handle_event(ev)` relates the
/// old registry to the new one and to its outcome. Events for unknown
/// or unselected devices are dropped; only the addressed device's state
/// moves.
pub open spec fn event_rel(pre: State, ev: Event, post: State, r: EventOutcome) -> bool {
    let n = pre.devs().len() as int;
    let d = ev.device as int;
    let dev = pre.devs()[d];
    let v = dev.voice();
    &&& post.devs().len() == n
    &&& (d >= n ==> post == pre && r is Ignored)
    &&& (d < n && ev.ev_type == EventType::Disconnect ==> {
        &&& (forall|j: int|
            0 <= j < n && j != d ==> (#[trigger] post.devs()[j]).same_but_slot(&pre.devs()[j]))
        &&& !post.devs()[d].is_selected()
        &&& post.devs()[d].disconnected
        &&& post.devs()[d].name == dev.name
        &&& (r matches EventOutcome::Disconnected { device, flush } && device == ev.device as usize
            && flush@ == release_output(dev.sounding()))
    })
    &&& (d < n && ev.ev_type != EventType::Disconnect ==> {
        &&& (forall|j: int| 0 <= j < n && j != d ==> #[trigger] post.devs()[j] == pre.devs()[j])
        &&& (!dev.is_selected() ==> post == pre && r is Ignored)
        &&& (dev.is_selected() && !is_pitch_motion(ev) && !is_play_button(ev) ==> post == pre
            && r is Ignored)
        &&& (dev.is_selected() && is_pitch_motion(ev) ==> {
            let new_pos = moved_pos(v.input_h.pos_spec(), ev.value, v.input_h.max_pos_spec());
            let pitch = pitch_of(
                v.input_h.lowest_pitch_spec(),
                v.input_h.note_width_spec(),
                new_pos as u32,
            ) as u8;
            &&& post.devs()[d].name == dev.name
            &&& post.devs()[d].disconnected == dev.disconnected
            &&& (post.devs()[d].selected matches Some(v2) && {
                &&& v2.pos_idx == v.pos_idx
                &&& v2.input_h.same_mapping(&v.input_h)
                &&& v2.input_h.pos_spec() == new_pos
                &&& v2.input_h.playing == v.input_h.playing
                &&& (v.input_h.playing ==> v2.midi_h.current() == Some(pitch))
                &&& (!v.input_h.playing ==> v2.midi_h == v.midi_h)
            })
            &&& (r matches EventOutcome::Motion { device, out, slot, pos, max_pos } && {
                &&& device == ev.device as usize
                &&& slot == v.pos_idx
                &&& pos == new_pos
                &&& max_pos == v.input_h.max_pos_spec()
                &&& (v.input_h.playing ==> out@ == play_output(v.midi_h.current(), pitch))
                &&& (!v.input_h.playing ==> out@ == Seq::<MidiMsg>::empty())
            })
        })
        &&& (dev.is_selected() && is_play_button(ev) ==> {
            let now_playing = ev.value == 1;
            let pitch = pitch_of(
                v.input_h.lowest_pitch_spec(),
                v.input_h.note_width_spec(),
                v.input_h.pos_spec(),
            ) as u8;
            &&& post.devs()[d].name == dev.name
            &&& post.devs()[d].disconnected == dev.disconnected
            &&& (post.devs()[d].selected matches Some(v2) && {
                &&& v2.pos_idx == v.pos_idx
                &&& v2.input_h.same_mapping(&v.input_h)
                &&& v2.input_h.pos_spec() == v.input_h.pos_spec()
                &&& v2.input_h.playing == now_playing
                &&& (now_playing ==> v2.midi_h.current() == Some(pitch))
                &&& (!now_playing ==> v2.midi_h.current() is None)
            })
            &&& (r matches EventOutcome::Playing { device, out } && {
                &&& device == ev.device as usize
                &&& (now_playing ==> out@ == play_output(v.midi_h.current(), pitch))
                &&& (!now_playing ==> out@ == release_output(v.midi_h.current()))
            })
        })
    })
}

impl State {
    /// Dispatch one raw backend event: motion moves the selected
    /// device's position (and its note while the hold button is down),
    /// the hold button starts or stops its voice, a disconnect tears its
    /// voice down. Everything else, and every event for an unknown or
    /// unselected device, is dropped.
    pub fn handle_event(&mut self, ev: Event) -> (r: EventOutcome)
        requires
            old(self).wf(),
        ensures
            final(self).wf(),
            event_rel(*old(self), ev, *final(self), r),
    {
        let di = ev.device as usize;
        if di >= self.dev_states.len() {
            return EventOutcome::Ignored;
        }
        let ghost pre = self.devs();
        if ev.ev_type == EventType::Disconnect {
            let d = self.dev_states.remove(di);
            let DevState { name, selected, disconnected: _ } = d;
            let flush = match selected {
                Some(h) => {
                    let DevHandlers { pos_idx: _, input_h: _, midi_h } = h;
                    midi_h.close()
                },
                None => Vec::new(),
            };
            self.dev_states.insert(di, DevState { name, selected: None, disconnected: true });
            proof {
                assert forall|k: int| 0 <= k < pre.len() && k != di implies self.devs()[k]
                    == pre[k] by {}
            }
            let ghost mid = self.devs();
            self.renumber();
            proof {
                assert forall|k: int| 0 <= k < pre.len() && k != di implies (
                #[trigger] self.devs()[k]).same_but_slot(&pre[k]) by {
                    assert(self.devs()[k].same_but_slot(&mid[k]));
                }
                assert(self.devs()[di as int].same_but_slot(&mid[di as int]));
                assert(flush@ == release_output(pre[di as int].sounding()));
            }
            return EventOutcome::Disconnected { device: di, flush };
        }
        if self.dev_states[di].selected.is_none() {
            return EventOutcome::Ignored;
        }
        let is_motion = ev.ev_type == EventType::Relmotion && ev.item == axis_code(Axis::X);
        let is_button = ev.ev_type == EventType::Button && ev.item == button_code(Button::LMB);
        if !is_motion && !is_button {
            return EventOutcome::Ignored;
        }
        let d = self.dev_states.remove(di);
        let DevState { name, selected, disconnected } = d;
        let r;
        match selected {
            Some(h) => {
                let DevHandlers { pos_idx, mut input_h, mut midi_h } = h;
                if is_motion {
                    let pitch = input_h.handle_rel_move(ev.value);
                    let out = if input_h.playing {
                        midi_h.play(pitch)
                    } else {
                        Vec::new()
                    };
                    let pos = input_h.pos();
                    let max_pos = input_h.max_pos();
                    self.dev_states.insert(
                        di,
                        DevState {
                            name,
                            selected: Some(DevHandlers { pos_idx, input_h, midi_h }),
                            disconnected,
                        },
                    );
                    r = EventOutcome::Motion { device: di, out, slot: pos_idx, pos, max_pos };
                } else {
                    input_h.playing = ev.value == 1;
                    let out = if input_h.playing {
                        let pitch = input_h.pitch_from_pos();
                        midi_h.play(pitch)
                    } else {
                        midi_h.release()
                    };
                    self.dev_states.insert(
                        di,
                        DevState {
                            name,
                            selected: Some(DevHandlers { pos_idx, input_h, midi_h }),
                            disconnected,
                        },
                    );
                    r = EventOutcome::Playing { device: di, out };
                }
            },
            None => {
                self.dev_states.insert(di, DevState { name, selected: None, disconnected });
                r = EventOutcome::Ignored;
            },
        }
        proof {
            assert forall|k: int| 0 <= k < pre.len() && k != di implies self.devs()[k] == pre[k]
            by {}
            assert forall|k: int|
                0 <= k < self.devs().len() && (#[trigger] self.devs()[k]).is_selected() implies
                self.devs()[k].voice().pos_idx == sel_count(self.devs(), k) by {
                lemma_sel_count_congruent(pre, self.devs(), k);
            }
        }
        r
    }
}

/// The note-offs a full teardown sends: one per device still sounding,
/// tagged with its device index, in device order.
pub open spec fn teardown_flushes(devs: Seq<DevState>, end: int) -> Seq<(usize, MidiMsg)>
    decreases end,
{
    if end <= 0 {
        Seq::<(usize, MidiMsg)>::empty()
    } else {
        teardown_flushes(devs, end - 1) + match devs[end - 1].sounding() {
            Some(p) => seq![((end - 1) as usize, note_off(p))],
            None => Seq::<(usize, MidiMsg)>::empty(),
        }
    }
}

impl State {
    /// Tear down every selected device, as a rescan command demands:
    /// every voice is dropped, and the flush note-off of each device
    /// that was still sounding is returned, in device order, to be sent
    /// before its port closes. The caller then rebuilds the registry
    /// from a fresh enumeration.
    pub fn teardown_all(&mut self) -> (flushes: Vec<(usize, MidiMsg)>)
        requires
            old(self).wf(),
        ensures
            final(self).wf(),
            final(self).devs().len() == old(self).devs().len(),
            forall|j: int|
                0 <= j < old(self).devs().len() ==> {
                    let d = #[trigger] final(self).devs()[j];
                    &&& !d.is_selected()
                    &&& d.name == old(self).devs()[j].name
                    &&& d.disconnected == old(self).devs()[j].disconnected
                },
            flushes@ == teardown_flushes(old(self).devs(), old(self).devs().len() as int),
    {
        let n = self.dev_states.len();
        let mut flushes: Vec<(usize, MidiMsg)> = Vec::new();
        let mut j: usize = 0;
        while j < n
            invariant
                j <= n,
                self.devs().len() == n,
                old(self).devs().len() == n,
                flushes@ == teardown_flushes(old(self).devs(), j as int),
                forall|k: int|
                    0 <= k < j ==> {
                        let d = #[trigger] self.devs()[k];
                        &&& !d.is_selected()
                        &&& d.name == old(self).devs()[k].name
                        &&& d.disconnected == old(self).devs()[k].disconnected
                    },
                forall|k: int| j <= k < n ==> #[trigger] self.devs()[k] == old(self).devs()[k],
            decreases n - j,
        {
            let ghost mid = self.devs();
            let d = self.dev_states.remove(j);
            let DevState { name, selected, disconnected } = d;
            match selected {
                Some(h) => {
                    let DevHandlers { pos_idx: _, input_h: _, midi_h } = h;
                    let out = midi_h.close();
                    if out.len() == 1 {
                        flushes.push((j, out[0]));
                    }
                },
                None => {},
            }
            self.dev_states.insert(j, DevState { name, selected: None, disconnected });
            proof {
                assert forall|k: int| 0 <= k < n && k != j implies self.devs()[k] == mid[k]
                by {}
            }
            j += 1;
        }
        flushes
    }
}

/// Law: toggling a device twice restores it to unselected, under its
/// old name and connectivity, with no residual voice; and the second
/// toggle flushes nothing, because the fresh voice never sounded.
pub proof fn lemma_toggle_involution(
    s0: State,
    s1: State,
    s2: State,
    i: usize,
    r1: ClickOutcome,
    r2: ClickOutcome,
)
    requires
        i < s0.devs().len(),
        !s0.devs()[i as int].is_selected(),
        click_rel(s0, i, s1, r1),
        click_rel(s1, i, s2, r2),
    ensures
        !s2.devs()[i as int].is_selected(),
        s2.devs()[i as int].name == s0.devs()[i as int].name,
        s2.devs()[i as int].disconnected == s0.devs()[i as int].disconnected,
        r2 matches ClickOutcome::Deselected { flush } && flush@ == Seq::<MidiMsg>::empty(),
{
    assert(s1.devs()[i as int].sounding() is None);
    assert(release_output(s1.devs()[i as int].sounding()) =~= Seq::<MidiMsg>::empty());
}

/// Law: toggling off a selected device flushes exactly its sounding
/// note: one note-off if one sounds, nothing if the voice was silent.
pub proof fn lemma_toggle_off_flush(s0: State, s1: State, i: usize, r: ClickOutcome)
    requires
        i < s0.devs().len(),
        s0.devs()[i as int].is_selected(),
        click_rel(s0, i, s1, r),
    ensures
        !s1.devs()[i as int].is_selected(),
        r matches ClickOutcome::Deselected { flush } && flush@ == release_output(
            s0.devs()[i as int].sounding(),
        ) && note_off_count(flush@) == if s0.devs()[i as int].sounding() is Some {
            1int
        } else {
            0int
        },
{
    let e = Seq::<MidiMsg>::empty();
    assert(note_off_count(e) == 0);
    match s0.devs()[i as int].sounding() {
        Some(p) => {
            assert(release_output(s0.devs()[i as int].sounding()) =~= e.push(note_off(p)));
            lemma_note_off_count_push(e, note_off(p));
        },
        None => {
            assert(release_output(s0.devs()[i as int].sounding()) =~= e);
        },
    }
}

} // verus!
