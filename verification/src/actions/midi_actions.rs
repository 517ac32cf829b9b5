//! Handlers of what the audio layer reports: MIDI input while recording, the play
//! position, and MIDI machine control.
use vstd::prelude::*;
use crate::automation_target::{
    events_at, lemma_with_events_at, location_valid, put_events_at, resolve_target,
    resolve_target_exec, take_events_at, with_events_at, AutomationSlot, EventsLocation,
    TargetRequest, TrackFilter,
};
use crate::domain::{
    find_riff, find_track, riff_has_id, Controller, ItemId, Note, PitchBend, TrackEvent, TrackKind,
};
use crate::event::{Command, CurrentView, MidiMessage, PlayMode};
use crate::ids::{new_item_id, is_fresh_id, all_fresh};
use crate::numeric::{clamp_i32, clamp_i64, trunc_div, trunc_rem};
use crate::seq_search::{first_match, lemma_first_match_at, lemma_first_match_none};
use crate::sorting::{sort_by_position, sort_events_by_position};
use crate::state::{selected_riff_of, selected_track_index, RecordedNote, RiffDAWState, RiffDAWStateView};

verus! {

// ---------------------------------------------------------------------------
// Arithmetic of recording.
// ---------------------------------------------------------------------------

/// Frames at a sample rate and tempo as thousandths of a beat, rounded toward zero and
/// saturating; with no sample rate the position is infinitely far in the direction of
/// the frames.
pub open spec fn frames_to_millibeats(tempo: u32, frames: i32, sample_rate: i32) -> i64 {
    let num = tempo * frames * 1000;
    if sample_rate == 0 {
        if num > 0 { i64::MAX } else if num < 0 { i64::MIN } else { 0 }
    } else {
        clamp_i64(trunc_div(num, 60 * sample_rate))
    }
}

/// A recorded position folded into a riff's length (both as whole thousandths of a beat).
pub open spec fn folded_position(position: i64, riff_length: i64) -> i32 {
    trunc_rem(clamp_i32(position as int) as int, clamp_i32(riff_length as int) as int) as i32
}

/// Folding is defined: the riff length is not zero, and the one overflowing remainder
/// is not asked for.
pub open spec fn folding_defined(position: i64, riff_length: i64) -> bool {
    clamp_i32(riff_length as int) != 0 && !(clamp_i32(position as int) == i32::MIN && clamp_i32(riff_length as int) == -1)
}

/// The pitch bend of a MIDI pitch bend message (7 low bits, then 7 high bits), centred on 0.
pub open spec fn pitch_bend_from_bytes(lsb: u8, msb: u8) -> i32 {
    (msb as int * 128 + lsb as int - 8192) as i32
}

/// The length of a recorded note before its note-off arrives, in thousandths of a beat.
pub const RECORDED_NOTE_LENGTH: i64 = 200;

fn to_millibeats(tempo: u32, frames: i32, sample_rate: i32) -> (r: i64)
    ensures
        r == frames_to_millibeats(tempo, frames, sample_rate),
{
    let t = tempo as i128;
    let f = frames as i128;
    assert(-10000000000000000000 <= t * f <= 10000000000000000000) by (nonlinear_arith)
        requires
            0 <= t <= 4294967295,
            -2147483648 <= f <= 2147483647;
    let num: i128 = t * f * 1000;
    if sample_rate == 0 {
        if num > 0 { i64::MAX } else if num < 0 { i64::MIN } else { 0 }
    } else {
        let den: i128 = 60 * (sample_rate as i128);
        let an: i128 = if num < 0 { -num } else { num };
        let ad: i128 = if den < 0 { -den } else { den };
        let q0: i128 = an / ad;
        let q: i128 = if (num >= 0) == (den > 0) { q0 } else { -q0 };
        assert(q == trunc_div(num as int, den as int));
        if q > i64::MAX as i128 {
            i64::MAX
        } else if q < i64::MIN as i128 {
            i64::MIN
        } else {
            q as i64
        }
    }
}

fn clamp_to_i32(x: i64) -> (r: i32)
    ensures
        r == clamp_i32(x as int),
{
    if x < i32::MIN as i64 {
        i32::MIN
    } else if x > i32::MAX as i64 {
        i32::MAX
    } else {
        x as i32
    }
}

fn fold_position(position: i64, riff_length: i64) -> (r: i32)
    requires
        folding_defined(position, riff_length),
    ensures
        r == folded_position(position, riff_length),
{
    let a = clamp_to_i32(position) as i64;
    let b = clamp_to_i32(riff_length) as i64;
    let aa: i64 = if a < 0 { -a } else { a };
    let ab: i64 = if b < 0 { -b } else { b };
    let q0: i64 = aa / ab;
    let q: i64 = if (a >= 0) == (b > 0) { q0 } else { -q0 };
    assert(q == trunc_div(a as int, b as int));
    assert(0 <= q0 <= aa) by (nonlinear_arith)
        requires
            q0 == aa / ab,
            aa >= 0,
            ab >= 1;
    assert(-2147483648 <= a - b * q <= 2147483647) by (nonlinear_arith)
        requires
            -2147483648 <= a <= 2147483647,
            -2147483648 <= b <= 2147483647,
            b != 0,
            !(a == -2147483648 && b == -1),
            aa == (if a < 0 { -a } else { a as int }),
            ab == (if b < 0 { -b } else { b as int }),
            q0 == aa / ab,
            q == (if (a >= 0) == (b > 0) { q0 as int } else { -q0 });
    (a - b * q) as i32
}

fn bend_from_bytes(lsb: u8, msb: u8) -> (r: i32)
    ensures
        r == pitch_bend_from_bytes(lsb, msb),
{
    (msb as i32) * 128 + (lsb as i32) - 8192
}

// ---------------------------------------------------------------------------
// The notes being recorded.
// ---------------------------------------------------------------------------

pub open spec fn other_note(n: i32) -> spec_fn(RecordedNote) -> bool {
    |r: RecordedNote| r.note != n
}

pub open spec fn recording_of(n: i32) -> spec_fn(RecordedNote) -> bool {
    |r: RecordedNote| r.note == n
}

/// Where the recording of a note started, if it is being recorded.
pub open spec fn recorded_start(notes: Seq<RecordedNote>, n: i32) -> Option<i64> {
    match first_match(notes, recording_of(n)) {
        Some(i) => Some(notes[i].position),
        None => None,
    }
}

/// The notes being recorded without a note.
pub open spec fn forgotten(notes: Seq<RecordedNote>, n: i32) -> Seq<RecordedNote> {
    notes.filter(other_note(n))
}

/// The notes being recorded with a note (re)started at a position.
pub open spec fn remembered(notes: Seq<RecordedNote>, n: i32, position: i64) -> Seq<RecordedNote> {
    forgotten(notes, n).push(RecordedNote { note: n, position })
}

fn start_of(notes: &Vec<RecordedNote>, n: i32) -> (r: Option<i64>)
    ensures
        r == recorded_start(notes@, n),
{
    let mut i: usize = 0;
    while i < notes.len()
        invariant
            i <= notes@.len(),
            forall|j: int| 0 <= j < i ==> !recording_of(n)(#[trigger] notes@[j]),
        decreases notes@.len() - i,
    {
        if notes[i].note == n {
            proof { lemma_first_match_at(notes@, recording_of(n), i as int); }
            return Some(notes[i].position);
        }
        i = i + 1;
    }
    proof { lemma_first_match_none(notes@, recording_of(n)); }
    None
}

fn forget(notes: &mut Vec<RecordedNote>, n: i32)
    ensures
        final(notes)@ == forgotten(old(notes)@, n),
{
    broadcast use vstd::seq_lib::group_seq_properties;
    let ghost s = notes@;
    let mut out: Vec<RecordedNote> = Vec::new();
    let mut i: usize = 0;
    while i < notes.len()
        invariant
            i <= s.len(),
            notes@ == s,
            out@ == s.take(i as int).filter(other_note(n)),
        decreases s.len() - i,
    {
        let r = notes[i];
        proof {
            assert(s.take(i + 1) =~= s.take(i as int).push(r));
            s.take(i as int).lemma_filter_push(r, other_note(n));
        }
        if r.note != n {
            out.push(r);
        }
        i = i + 1;
    }
    assert(s.take(s.len() as int) =~= s);
    *notes = out;
}

// ---------------------------------------------------------------------------
// Recording.
// ---------------------------------------------------------------------------

/// The kinds of MIDI message that recording tells apart.
#[derive(Clone, Copy, PartialEq, Eq, Structural, Debug)]
pub enum MessageKind {
    NoteOn,
    NoteOff,
    Controller,
    PitchBend,
    Other,
}

pub open spec fn kind_of_status(status: u8) -> MessageKind {
    if 144 <= status <= 159 {
        MessageKind::NoteOn
    } else if 128 <= status <= 143 {
        MessageKind::NoteOff
    } else if 176 <= status <= 191 {
        MessageKind::Controller
    } else if 224 <= status <= 239 {
        MessageKind::PitchBend
    } else {
        MessageKind::Other
    }
}

fn message_kind(status: u8) -> (r: MessageKind)
    ensures
        r == kind_of_status(status),
{
    if 144 <= status && status <= 159 {
        MessageKind::NoteOn
    } else if 128 <= status && status <= 143 {
        MessageKind::NoteOff
    } else if 176 <= status && status <= 191 {
        MessageKind::Controller
    } else if 224 <= status && status <= 239 {
        MessageKind::PitchBend
    } else {
        MessageKind::Other
    }
}

/// Where the message falls, in thousandths of a beat.
pub open spec fn message_position(s: RiffDAWStateView, msg: MidiMessage) -> i64 {
    frames_to_millibeats(s.song.tempo, msg.delta_frames, s.configuration.sample_rate)
}

/// The riff selected on the selected track, if both exist.
pub open spec fn selected_riff_location(s: RiffDAWStateView) -> Option<EventsLocation> {
    match selected_track_index(s) {
        Some(t) => match selected_riff_of(s, s.song.tracks[t].id) {
            Some(rid) => match first_match(s.song.tracks[t].riffs, riff_has_id(rid)) {
                Some(r) => Some(EventsLocation::Riff(t as usize, r as usize)),
                None => None,
            },
            None => None,
        },
        None => None,
    }
}

pub open spec fn riff_length_at(s: RiffDAWStateView, l: EventsLocation) -> i64 {
    match l {
        EventsLocation::Riff(t, r) => s.song.tracks[t as int].riffs[r as int].length,
        _ => 0,
    }
}

/// A note event starting at a position with a note number.
pub open spec fn note_started(position: i64, n: i32) -> spec_fn(TrackEvent) -> bool {
    |e: TrackEvent| e.pos() == position && (e matches TrackEvent::Note(x) && x.note == n)
}

pub open spec fn with_length(e: TrackEvent, length: i64) -> TrackEvent {
    match e {
        TrackEvent::Note(x) => TrackEvent::Note(Note { length, ..x }),
        _ => e,
    }
}

/// A note-on recorded into a riff: a note of the recorded length at the position folded
/// into the riff, noted as being recorded.
pub open spec fn note_on_recorded(s: RiffDAWStateView, l: EventsLocation, msg: MidiMessage, id: ItemId) -> RiffDAWStateView {
    let p = folded_position(message_position(s, msg), riff_length_at(s, l)) as i64;
    let n = msg.data1 as i32;
    let note = Note { id, position: p, note: n, velocity: msg.data2 as i32, length: RECORDED_NOTE_LENGTH, note_id: -1i32 };
    let s1 = with_events_at(s, l, sort_by_position(events_at(s, l).push(TrackEvent::Note(note))));
    RiffDAWStateView { recorded_playing_notes: remembered(s.recorded_playing_notes, n, p), ..s1 }
}

/// A note-off recorded into a riff: the note that started where its recording started
/// gets the length up to the folded position, and the note is no longer being recorded.
/// The flag tells whether a note got its length.
pub open spec fn note_off_recorded(s: RiffDAWStateView, l: EventsLocation, msg: MidiMessage) -> (RiffDAWStateView, bool) {
    let n = msg.data1 as i32;
    let s1 = RiffDAWStateView { recorded_playing_notes: forgotten(s.recorded_playing_notes, n), ..s };
    match recorded_start(s.recorded_playing_notes, n) {
        None => (s1, false),
        Some(start) => {
            let p = folded_position(message_position(s, msg), riff_length_at(s, l)) as i64;
            let evs = events_at(s, l);
            match first_match(evs, note_started(start, n)) {
                Some(i) => (with_events_at(s1, l, evs.update(i, with_length(evs[i], clamp_i64(p - start)))), true),
                None => (s1, false),
            }
        },
    }
}

/// The controller or pitch bend event a message records (others record none).
pub open spec fn automation_event_of(s: RiffDAWStateView, msg: MidiMessage, id: ItemId) -> TrackEvent {
    if kind_of_status(msg.status) == MessageKind::Controller {
        TrackEvent::Controller(Controller { id, position: message_position(s, msg), controller: msg.data1 as i32, value: msg.data2 as i32 })
    } else {
        TrackEvent::PitchBend(PitchBend { id, position: message_position(s, msg), value: pitch_bend_from_bytes(msg.data1, msg.data2) })
    }
}

pub open spec fn is_automation_message(msg: MidiMessage) -> bool {
    kind_of_status(msg.status) == MessageKind::Controller || kind_of_status(msg.status) == MessageKind::PitchBend
}

/// An automation event added to the list at a location, in position order.
pub open spec fn automation_recorded(s: RiffDAWStateView, l: EventsLocation, msg: MidiMessage, id: ItemId) -> RiffDAWStateView {
    with_events_at(s, l, sort_by_position(events_at(s, l).push(automation_event_of(s, msg, id))))
}

/// Notes recorded into the selected riff; with `all`, controllers and pitch bends too.
pub open spec fn recorded_in_riff(s: RiffDAWStateView, msg: MidiMessage, id: ItemId, all: bool) -> (RiffDAWStateView, bool) {
    match selected_riff_location(s) {
        None => (s, false),
        Some(l) => {
            let k = kind_of_status(msg.status);
            if k == MessageKind::NoteOn {
                (note_on_recorded(s, l, msg, id), false)
            } else if k == MessageKind::NoteOff {
                note_off_recorded(s, l, msg)
            } else if all && is_automation_message(msg) {
                (automation_recorded(s, l, msg, id), false)
            } else {
                (s, false)
            }
        },
    }
}

/// The request that finds (or adds) the discrete automation of the selected track in the
/// selected riff arrangement.
pub open spec fn arrangement_automation_request() -> TargetRequest {
    TargetRequest { tracks: TrackFilter::Instrument, discrete: true, envelope: None, create_in_arrangement: true }
}

/// What recording a message does, and whether it gave a recorded note its length.
pub open spec fn recording_step(s: RiffDAWStateView, msg: MidiMessage, id: ItemId) -> (RiffDAWStateView, bool) {
    match selected_track_index(s) {
        None => (s, false),
        Some(t) => if s.song.tracks[t].kind != TrackKind::Instrument {
            (s, false)
        } else {
            match s.current_view {
                CurrentView::Track => {
                    let (s1, changed) = recorded_in_riff(s, msg, id, false);
                    if is_automation_message(msg) {
                        (automation_recorded(s1, EventsLocation::Track(t as usize, AutomationSlot::Events), msg, id), changed)
                    } else {
                        (s1, changed)
                    }
                },
                CurrentView::RiffSet => recorded_in_riff(s, msg, id, true),
                CurrentView::RiffArrangement => {
                    let (s1, loc) = resolve_target(s, arrangement_automation_request(), id);
                    match loc {
                        Some(l) => if is_automation_message(msg) { (automation_recorded(s1, l, msg, id), false) } else { (s1, false) },
                        None => (s1, false),
                    }
                },
                _ => (s, false),
            }
        },
    }
}

/// The state after a MIDI message arrived: while playing and recording, notes go into
/// the selected riff of the selected instrument track (folded into its length), and
/// controllers and pitch bends into the track's automation (track view), the riff (riff
/// set view) or the arrangement's automation for the track (arrangement view). When a
/// note got its length while a riff set plays, the riff set is told the track's riff
/// changed.
pub open spec fn midi_recorded(s: RiffDAWStateView, msg: MidiMessage, id: ItemId) -> RiffDAWStateView {
    if !(s.playing && s.recording) {
        s
    } else {
        let (s1, changed) = recording_step(s, msg, id);
        match (selected_track_index(s), s.playing_riff_set) {
            (Some(t), Some(set)) => if s.play_mode == PlayMode::RiffSet && changed {
                RiffDAWStateView { outbox: s1.outbox.push(Command::PlayRiffSetUpdateTrackAsRiff(set, s.song.tracks[t].id)), ..s1 }
            } else {
                s1
            },
            _ => s1,
        }
    }
}

/// Recording a note into the selected riff folds its position into the riff's length,
/// which must be defined.
pub open spec fn recording_defined(s: RiffDAWStateView, msg: MidiMessage) -> bool {
    let k = kind_of_status(msg.status);
    (s.playing && s.recording && (k == MessageKind::NoteOn || k == MessageKind::NoteOff)
        && (s.current_view == CurrentView::Track || s.current_view == CurrentView::RiffSet)
        && selected_track_index(s) is Some
        && s.song.tracks[selected_track_index(s)->0].kind == TrackKind::Instrument
        && selected_riff_location(s) is Some
        && (k == MessageKind::NoteOff ==> recorded_start(s.recorded_playing_notes, msg.data1 as i32) is Some))
        ==> folding_defined(message_position(s, msg), riff_length_at(s, selected_riff_location(s)->0))
}

pub fn selected_riff_location_of(state: &RiffDAWState) -> (r: Option<EventsLocation>)
    ensures
        r == selected_riff_location(state@),
        r matches Some(l) ==> location_valid(state@, l),
{
    match state.selected_track {
        Some(id) => match find_track(&state.song.tracks, id) {
            Some(t) => match state.selected_riff_uuid(state.song.tracks[t].id) {
                Some(rid) => match find_riff(&state.song.tracks[t].riffs, rid) {
                    Some(r) => Some(EventsLocation::Riff(t, r)),
                    None => None,
                },
                None => None,
            },
            None => None,
        },
        None => None,
    }
}

fn record_note_on(state: &mut RiffDAWState, l: EventsLocation, msg: MidiMessage, id: ItemId, position: i64, riff_length: i64)
    requires
        location_valid(old(state)@, l),
        position == message_position(old(state)@, msg),
        riff_length == riff_length_at(old(state)@, l),
        folding_defined(position, riff_length),
    ensures
        final(state)@ == note_on_recorded(old(state)@, l, msg, id),
{
    let p = fold_position(position, riff_length) as i64;
    let n = msg.data1 as i32;
    let note = Note { id, position: p, note: n, velocity: msg.data2 as i32, length: RECORDED_NOTE_LENGTH, note_id: -1 };
    forget(&mut state.recorded_playing_notes, n);
    state.recorded_playing_notes.push(RecordedNote { note: n, position: p });
    let ghost s1 = state@;
    let mut v = take_events_at(state, l);
    v.push(TrackEvent::Note(note));
    sort_events_by_position(&mut v);
    put_events_at(state, l, v);
    proof {
        lemma_with_events_at(s1, l, Seq::empty(), v@);
    }
}

fn find_note_started(events: &Vec<TrackEvent>, start: i64, n: i32) -> (r: Option<usize>)
    ensures
        r matches Some(i) ==> first_match(events@, note_started(start, n)) == Some(i as int) && i < events@.len(),
        r is None ==> first_match(events@, note_started(start, n)) is None,
{
    let mut i: usize = 0;
    while i < events.len()
        invariant
            i <= events@.len(),
            forall|j: int| 0 <= j < i ==> !note_started(start, n)(#[trigger] events@[j]),
        decreases events@.len() - i,
    {
        let matches = match events[i] {
            TrackEvent::Note(x) => x.position == start && x.note == n,
            _ => false,
        };
        if matches {
            proof { lemma_first_match_at(events@, note_started(start, n), i as int); }
            return Some(i);
        }
        i = i + 1;
    }
    proof { lemma_first_match_none(events@, note_started(start, n)); }
    None
}

fn record_note_off(state: &mut RiffDAWState, l: EventsLocation, msg: MidiMessage, position: i64, riff_length: i64) -> (changed: bool)
    requires
        location_valid(old(state)@, l),
        position == message_position(old(state)@, msg),
        riff_length == riff_length_at(old(state)@, l),
        recorded_start(old(state)@.recorded_playing_notes, msg.data1 as i32) is Some ==> folding_defined(position, riff_length),
    ensures
        (final(state)@, changed) == note_off_recorded(old(state)@, l, msg),
{
    let n = msg.data1 as i32;
    let start = start_of(&state.recorded_playing_notes, n);
    forget(&mut state.recorded_playing_notes, n);
    assert(state@ == (RiffDAWStateView { recorded_playing_notes: forgotten(old(state)@.recorded_playing_notes, n), ..old(state)@ }));
    match start {
        None => {
            false
        },
        Some(start) => {
            let p = fold_position(position, riff_length) as i64;
            let ghost s1 = state@;
            let mut v = take_events_at(state, l);
            let found = find_note_started(&v, start, n);
            match found {
                Some(i) => {
                    let e = v[i];
                    let length = crate::numeric::sat_sub_i64(p, start);
                    match e {
                        TrackEvent::Note(x) => {
                            v.set(i, TrackEvent::Note(Note { length, ..x }));
                        },
                        _ => {},
                    }
                    assert(v@ == events_at(old(state)@, l).update(i as int, with_length(events_at(old(state)@, l)[i as int], clamp_i64(p - start))));
                    put_events_at(state, l, v);
                    proof {
                        lemma_with_events_at(s1, l, Seq::empty(), v@);
                    }
                    assert(state@ == with_events_at(s1, l, v@));
                    true
                },
                None => {
                    proof {
                        lemma_with_events_at(s1, l, Seq::empty(), v@);
                    }
                    put_events_at(state, l, v);
                    false
                },
            }
        },
    }
}

fn record_automation(state: &mut RiffDAWState, l: EventsLocation, msg: MidiMessage, id: ItemId, position: i64)
    requires
        location_valid(old(state)@, l),
        position == message_position(old(state)@, msg),
    ensures
        final(state)@ == automation_recorded(old(state)@, l, msg, id),
{
    let e = match message_kind(msg.status) {
        MessageKind::Controller => TrackEvent::Controller(Controller { id, position, controller: msg.data1 as i32, value: msg.data2 as i32 }),
        _ => TrackEvent::PitchBend(PitchBend { id, position, value: bend_from_bytes(msg.data1, msg.data2) }),
    };
    let ghost s1 = state@;
    let mut v = take_events_at(state, l);
    v.push(e);
    sort_events_by_position(&mut v);
    put_events_at(state, l, v);
    proof {
        lemma_with_events_at(s1, l, Seq::empty(), v@);
    }
}

fn record_in_riff(state: &mut RiffDAWState, msg: MidiMessage, id: ItemId, all: bool) -> (changed: bool)
    requires
        recording_defined(old(state)@, msg),
        old(state)@.playing && old(state)@.recording,
        old(state)@.current_view == CurrentView::Track || old(state)@.current_view == CurrentView::RiffSet,
        selected_track_index(old(state)@) is Some,
        old(state)@.song.tracks[selected_track_index(old(state)@)->0].kind == TrackKind::Instrument,
    ensures
        (final(state)@, changed) == recorded_in_riff(old(state)@, msg, id, all),
{
    let position = to_millibeats(state.song.tempo, msg.delta_frames, state.configuration.sample_rate);
    match selected_riff_location_of(state) {
        None => false,
        Some(l) => {
            let riff_length = match l {
                EventsLocation::Riff(t, r) => state.song.tracks[t].riffs[r].length,
                _ => 0,
            };
            match message_kind(msg.status) {
                MessageKind::NoteOn => {
                    record_note_on(state, l, msg, id, position, riff_length);
                    false
                },
                MessageKind::NoteOff => record_note_off(state, l, msg, position, riff_length),
                MessageKind::Controller | MessageKind::PitchBend => {
                    if all {
                        record_automation(state, l, msg, id, position);
                    }
                    false
                },
                MessageKind::Other => false,
            }
        },
    }
}

fn recording_step_exec(state: &mut RiffDAWState, msg: MidiMessage, id: ItemId) -> (changed: bool)
    requires
        recording_defined(old(state)@, msg),
        old(state)@.playing && old(state)@.recording,
    ensures
        (final(state)@, changed) == recording_step(old(state)@, msg, id),
{
    let t = match state.selected_track {
        None => {
            return false;
        },
        Some(tid) => match find_track(&state.song.tracks, tid) {
            None => {
                return false;
            },
            Some(t) => t,
        },
    };
    match state.song.tracks[t].kind {
        TrackKind::Instrument => {},
        _ => {
            return false;
        },
    }
    match state.current_view {
        CurrentView::Track => {
            let changed = record_in_riff(state, msg, id, false);
            let k = message_kind(msg.status);
            if k == MessageKind::Controller || k == MessageKind::PitchBend {
                let position = to_millibeats(state.song.tempo, msg.delta_frames, state.configuration.sample_rate);
                record_automation(state, EventsLocation::Track(t, AutomationSlot::Events), msg, id, position);
            }
            changed
        },
        CurrentView::RiffSet => record_in_riff(state, msg, id, true),
        CurrentView::RiffArrangement => {
            let req = TargetRequest { tracks: TrackFilter::Instrument, discrete: true, envelope: None, create_in_arrangement: true };
            let loc = resolve_target_exec(state, &req, id);
            match loc {
                Some(l) => {
                    let k = message_kind(msg.status);
                    if k == MessageKind::Controller || k == MessageKind::PitchBend {
                        let position = to_millibeats(state.song.tempo, msg.delta_frames, state.configuration.sample_rate);
                        record_automation(state, l, msg, id, position);
                    }
                    false
                },
                None => false,
            }
        },
        _ => false,
    }
}

/// Records a MIDI message from the audio layer (see `midi_recorded`); a new event gets
/// a fresh identifier.
pub fn midi_AudioLayerTimeCriticalOutwardEvent_MidiEvent(state: &mut RiffDAWState, midi_event: MidiMessage)
    requires
        recording_defined(old(state)@, midi_event),
    ensures
        exists|id: ItemId| is_fresh_id(id) && final(state)@ == midi_recorded(old(state)@, midi_event, id),
{
    let id = new_item_id();
    if !(state.playing && state.recording) {
        assert(state@ == midi_recorded(old(state)@, midi_event, id));
        return;
    }
    let play_mode = state.play_mode;
    let playing_riff_set = state.playing_riff_set;
    let track_id = match state.selected_track {
        Some(tid) => match find_track(&state.song.tracks, tid) {
            Some(t) => Some(state.song.tracks[t].id),
            None => None,
        },
        None => None,
    };
    let changed = recording_step_exec(state, midi_event, id);
    match (track_id, playing_riff_set) {
        (Some(track), Some(set)) => {
            if play_mode == PlayMode::RiffSet && changed {
                state.send(Command::PlayRiffSetUpdateTrackAsRiff(set, track));
            }
        },
        _ => {},
    }
    assert(state@ == midi_recorded(old(state)@, midi_event, id));
}

// ---------------------------------------------------------------------------
// Play position and machine control.
// ---------------------------------------------------------------------------

/// Records the play position the audio layer reports.
pub fn midi_AudioLayerOutwardEvent_PlayPositionInFrames(state: &mut RiffDAWState, play_position_in_frames: u32)
    ensures
        final(state)@ == (RiffDAWStateView { play_position_in_frames, ..old(state)@ }),
{
    state.play_position_in_frames = play_position_in_frames;
}

/// What a MIDI machine control command (the fifth byte of its message) does: stop,
/// play, move forward, move back, or toggle recording.
pub open spec fn mmc_applied(s: RiffDAWStateView, command: u8) -> RiffDAWStateView {
    if command == 1 {
        RiffDAWStateView { outbox: s.outbox.push(Command::TransportStop), ..s }
    } else if command == 2 {
        RiffDAWStateView { outbox: s.outbox.push(Command::TransportPlay), ..s }
    } else if command == 4 {
        RiffDAWStateView { outbox: s.outbox.push(Command::TransportMoveForward), ..s }
    } else if command == 5 {
        RiffDAWStateView { outbox: s.outbox.push(Command::TransportMoveBack), ..s }
    } else if command == 6 {
        RiffDAWStateView { recording: !s.recording, ..s }
    } else {
        s
    }
}

pub fn midi_AudioLayerOutwardEvent_GeneralMMCEvent(state: &mut RiffDAWState, mmc_sysex_bytes: [u8; 6])
    ensures
        final(state)@ == mmc_applied(old(state)@, mmc_sysex_bytes@[4]),
{
    let command_byte = mmc_sysex_bytes[4];
    if command_byte == 1 {
        state.send(Command::TransportStop);
    } else if command_byte == 2 {
        state.send(Command::TransportPlay);
    } else if command_byte == 4 {
        state.send(Command::TransportMoveForward);
    } else if command_byte == 5 {
        state.send(Command::TransportMoveBack);
    } else if command_byte == 6 {
        state.recording = !state.recording;
    }
}

/// A MIDI control message changes no state: the controls it would trigger are not wired.
pub fn midi_AudioLayerOutwardEvent_MidiControlEvent(state: &mut RiffDAWState, midi_event: MidiMessage)
    ensures
        final(state)@ == old(state)@,
{
}

} // verus!
