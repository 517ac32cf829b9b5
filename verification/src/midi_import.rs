//! Turning the tracks of a standard MIDI file into instrument tracks.
//!
//! Each MIDI track becomes an instrument track with its default riff and one riff,
//! "unknown", placed at the start, holding the track's notes. Notes are closed by their
//! note-off; the end of the track gives the riff its length; track names are joined.
use vstd::prelude::*;
use crate::domain::{
    empty_automation, AudioPlugin, AudioPluginView, Automation, ItemId, Note, Riff, RiffReference,
    RiffView, Track, TrackEvent, TrackKind, TrackView,
};
use crate::numeric::clamp_i64;
use crate::ids::{all_fresh, is_fresh_id};
use crate::text::{string_from_chars, trim, trimmed, TrimKind};

verus! {

/// The events of a MIDI file that the import reads; the others are `Other`.
pub enum ImportedMidiEvent {
    TrackName(Vec<char>),
    SetTempo(u32),
    NoteOn(u8, u8),
    NoteOff(u8),
    EndOfTrack,
    Other,
}

/// An event with the tick it falls on, when the file gives one.
pub struct TimedMidiEvent {
    pub tick: Option<u64>,
    pub event: ImportedMidiEvent,
}

/// The contents of a MIDI file: ticks per quarter note and its tracks' events in order.
pub struct MidiFileContents {
    pub ppqn: u16,
    pub tracks: Vec<Vec<TimedMidiEvent>>,
}

/// The fresh identifiers one imported track takes: the track, its instrument, its
/// default riff, the riff the notes go into, the placement of that riff, and one per
/// event for the note it may start.
pub struct ImportIds {
    pub track: ItemId,
    pub instrument: ItemId,
    pub empty_riff: ItemId,
    pub riff: ItemId,
    pub riff_ref: ItemId,
    pub notes: Vec<ItemId>,
}

/// Whether every identifier of a track import is as `new_item_id` gives them.
pub open spec fn import_ids_fresh(ids: ImportIds) -> bool {
    &&& is_fresh_id(ids.track)
    &&& is_fresh_id(ids.instrument)
    &&& is_fresh_id(ids.empty_riff)
    &&& is_fresh_id(ids.riff)
    &&& is_fresh_id(ids.riff_ref)
    &&& all_fresh(ids.notes@)
}

/// A tick as a position in thousandths of a beat, rounded toward zero; with no ticks per
/// quarter note any later tick is infinitely far.
pub open spec fn tick_position(tick: u64, ppqn: u16) -> i64 {
    if ppqn == 0 {
        if tick > 0 { i64::MAX } else { 0 }
    } else {
        clamp_i64(tick * 1000 / (ppqn as int))
    }
}

fn position_of_tick(tick: u64, ppqn: u16) -> (r: i64)
    ensures
        r == tick_position(tick, ppqn),
{
    if ppqn == 0 {
        if tick > 0 { i64::MAX } else { 0 }
    } else {
        let t = tick as u128;
        assert(t * 1000 <= 18446744073709551615000) by (nonlinear_arith)
            requires
                t <= 18446744073709551615;
        let q: u128 = t * 1000 / (ppqn as u128);
        if q > i64::MAX as u128 { i64::MAX } else { q as i64 }
    }
}

/// A name with the NUL characters at both ends removed.
pub open spec fn trim_nul(s: Seq<char>) -> Seq<char> {
    trimmed(TrimKind::Nul, s)
}

/// What reading a track's events has gathered: its name, the notes still sounding (by
/// note number), the finished notes in order, and the riff length.
pub struct ImportProgress {
    pub name: Seq<char>,
    pub open_notes: Seq<(u8, Note)>,
    pub events: Seq<TrackEvent>,
    pub length: i64,
}

/// The length a riff has until the end of its track gives it one (four beats).
pub const DEFAULT_RIFF_LENGTH: i64 = 4000;

pub open spec fn other_note_number(n: u8) -> spec_fn((u8, Note)) -> bool {
    |p: (u8, Note)| p.0 != n
}

pub open spec fn sounding(n: u8) -> spec_fn((u8, Note)) -> bool {
    |p: (u8, Note)| p.0 == n
}

pub open spec fn import_step(p: ImportProgress, e: TimedMidiEvent, ppqn: u16, note_id: ItemId) -> ImportProgress {
    match e.event {
        ImportedMidiEvent::TrackName(name) => ImportProgress { name: p.name + trim_nul(name@), ..p },
        ImportedMidiEvent::NoteOn(note, velocity) => match e.tick {
            Some(t) => ImportProgress {
                open_notes: p.open_notes.filter(other_note_number(note)).push((note, Note {
                    id: note_id,
                    position: tick_position(t, ppqn),
                    note: note as i32,
                    velocity: velocity as i32,
                    length: 0,
                    note_id: -1i32,
                })),
                ..p
            },
            None => p,
        },
        ImportedMidiEvent::NoteOff(note) => match e.tick {
            Some(t) => match crate::seq_search::first_match(p.open_notes, sounding(note)) {
                Some(i) => {
                    let n = p.open_notes[i].1;
                    ImportProgress {
                        open_notes: p.open_notes.filter(other_note_number(note)),
                        events: p.events.push(TrackEvent::Note(Note { length: clamp_i64(tick_position(t, ppqn) - n.position), ..n })),
                        ..p
                    }
                },
                None => p,
            },
            None => p,
        },
        ImportedMidiEvent::EndOfTrack => match e.tick {
            Some(t) => ImportProgress { length: tick_position(t, ppqn), ..p },
            None => p,
        },
        _ => p,
    }
}

/// What reading the events in order gathers (the `j`-th event starts a note under the
/// `j`-th identifier).
pub open spec fn import_events(evs: Seq<TimedMidiEvent>, ppqn: u16, note_ids: Seq<ItemId>) -> ImportProgress
    decreases evs.len(),
{
    if evs.len() == 0 {
        ImportProgress { name: Seq::empty(), open_notes: Seq::empty(), events: Seq::empty(), length: DEFAULT_RIFF_LENGTH }
    } else {
        import_step(import_events(evs.drop_last(), ppqn, note_ids), evs.last(), ppqn, note_ids[evs.len() - 1])
    }
}

/// The instrument of a new instrument track: no plugin chosen yet.
pub open spec fn default_instrument(id: ItemId) -> AudioPluginView {
    AudioPluginView {
        id,
        name: Seq::empty(),
        descriptive_name: Seq::empty(),
        file: Seq::empty(),
        format: Seq::empty(),
        category: Seq::empty(),
        manufacturer: Seq::empty(),
        version: Seq::empty(),
        is_instrument: true,
        plugin_type: Seq::empty(),
        preset_data: Seq::empty(),
    }
}

/// The riff every new instrument track starts with.
pub open spec fn default_riff(id: ItemId) -> RiffView {
    RiffView { id, name: "empty"@, length: DEFAULT_RIFF_LENGTH, events: Seq::empty() }
}

/// The instrument track a MIDI track becomes.
pub open spec fn imported_track(evs: Seq<TimedMidiEvent>, ppqn: u16, ids: ImportIds) -> TrackView {
    let p = import_events(evs, ppqn, ids.notes@);
    TrackView {
        id: ids.track,
        kind: TrackKind::Instrument,
        name: p.name,
        midi_channel: 0,
        mute: false,
        solo: false,
        pan: 0,
        instrument: default_instrument(ids.instrument),
        effects: Seq::empty(),
        riffs: seq![default_riff(ids.empty_riff), RiffView { id: ids.riff, name: "unknown"@, length: p.length, events: p.events }],
        riff_refs: seq![RiffReference { id: ids.riff_ref, linked_to: ids.riff, position: 0 }],
        automation: empty_automation(),
    }
}

fn note_of(open: &Vec<(u8, Note)>, n: u8) -> (r: Option<Note>)
    ensures
        r == (match crate::seq_search::first_match(open@, sounding(n)) {
            Some(i) => Some(open@[i].1),
            None => None::<Note>,
        }),
{
    let mut i: usize = 0;
    while i < open.len()
        invariant
            i <= open@.len(),
            forall|j: int| 0 <= j < i ==> !sounding(n)(#[trigger] open@[j]),
        decreases open@.len() - i,
    {
        if open[i].0 == n {
            proof { crate::seq_search::lemma_first_match_at(open@, sounding(n), i as int); }
            return Some(open[i].1);
        }
        i = i + 1;
    }
    proof { crate::seq_search::lemma_first_match_none(open@, sounding(n)); }
    None
}

fn close_note(open: &mut Vec<(u8, Note)>, n: u8)
    ensures
        final(open)@ == old(open)@.filter(other_note_number(n)),
{
    broadcast use vstd::seq_lib::group_seq_properties;
    let ghost s = open@;
    let mut out: Vec<(u8, Note)> = Vec::new();
    let mut i: usize = 0;
    while i < open.len()
        invariant
            i <= s.len(),
            open@ == s,
            out@ == s.take(i as int).filter(other_note_number(n)),
        decreases s.len() - i,
    {
        let p = open[i];
        proof {
            assert(s.take(i + 1) =~= s.take(i as int).push(p));
            s.take(i as int).lemma_filter_push(p, other_note_number(n));
        }
        if p.0 != n {
            out.push(p);
        }
        i = i + 1;
    }
    assert(s.take(s.len() as int) =~= s);
    *open = out;
}

/// The instrument track a MIDI track becomes (see `imported_track`).
pub fn import_track(evs: &Vec<TimedMidiEvent>, ppqn: u16, ids: &ImportIds) -> (r: Track)
    requires
        ids.notes@.len() >= evs@.len(),
    ensures
        r@ == imported_track(evs@, ppqn, *ids),
{
    let mut name: Vec<char> = Vec::new();
    let mut open: Vec<(u8, Note)> = Vec::new();
    let mut events: Vec<TrackEvent> = Vec::new();
    let mut length: i64 = DEFAULT_RIFF_LENGTH;
    let mut j: usize = 0;
    while j < evs.len()
        invariant
            j <= evs@.len(),
            ids.notes@.len() >= evs@.len(),
            ({
                let p = import_events(evs@.take(j as int), ppqn, ids.notes@);
                &&& name@ == p.name
                &&& open@ == p.open_notes
                &&& events@ == p.events
                &&& length == p.length
            }),
        decreases evs@.len() - j,
    {
        proof {
            assert(evs@.take(j + 1).drop_last() =~= evs@.take(j as int));
        }
        let e = &evs[j];
        match &e.event {
            ImportedMidiEvent::TrackName(n) => {
                let t = trim(n, TrimKind::Nul);
                let mut k: usize = 0;
                let ghost before = name@;
                while k < t.len()
                    invariant
                        k <= t@.len(),
                        name@ == before + t@.take(k as int),
                    decreases t@.len() - k,
                {
                    name.push(t[k]);
                    assert(t@.take(k + 1) =~= t@.take(k as int).push(t@[k as int]));
                    k = k + 1;
                }
                assert(t@.take(t@.len() as int) =~= t@);
            },
            ImportedMidiEvent::NoteOn(note, velocity) => match e.tick {
                Some(tick) => {
                    let position = position_of_tick(tick, ppqn);
                    close_note(&mut open, *note);
                    open.push((*note, Note { id: ids.notes[j], position, note: *note as i32, velocity: *velocity as i32, length: 0, note_id: -1 }));
                },
                None => {},
            },
            ImportedMidiEvent::NoteOff(note) => match e.tick {
                Some(tick) => match note_of(&open, *note) {
                    Some(n) => {
                        let position = position_of_tick(tick, ppqn);
                        let len = crate::numeric::sat_sub_i64(position, n.position);
                        events.push(TrackEvent::Note(Note { length: len, ..n }));
                        close_note(&mut open, *note);
                    },
                    None => {},
                },
                None => {},
            },
            ImportedMidiEvent::EndOfTrack => match e.tick {
                Some(tick) => {
                    length = position_of_tick(tick, ppqn);
                },
                None => {},
            },
            _ => {},
        }
        j = j + 1;
    }
    assert(evs@.take(evs@.len() as int) =~= evs@);
    let instrument = AudioPlugin {
        id: ids.instrument,
        name: String::new(),
        descriptive_name: String::new(),
        file: String::new(),
        format: String::new(),
        category: String::new(),
        manufacturer: String::new(),
        version: String::new(),
        is_instrument: true,
        plugin_type: String::new(),
        preset_data: String::new(),
    };
    let mut riffs: Vec<Riff> = Vec::new();
    riffs.push(Riff { id: ids.empty_riff, name: "empty".to_owned(), length: DEFAULT_RIFF_LENGTH, events: Vec::new() });
    riffs.push(Riff { id: ids.riff, name: "unknown".to_owned(), length, events });
    let mut riff_refs: Vec<RiffReference> = Vec::new();
    riff_refs.push(RiffReference { id: ids.riff_ref, linked_to: ids.riff, position: 0 });
    let track = Track {
        id: ids.track,
        kind: TrackKind::Instrument,
        name: string_from_chars(&name),
        midi_channel: 0,
        mute: false,
        solo: false,
        pan: 0,
        instrument,
        effects: Vec::new(),
        riffs,
        riff_refs,
        automation: Automation::new(),
    };
    proof {
        let p = import_events(evs@, ppqn, ids.notes@);
        assert(track@.instrument == default_instrument(ids.instrument));
        assert(track@.effects =~= Seq::<AudioPluginView>::empty());
        assert(track@.riffs =~= seq![default_riff(ids.empty_riff), RiffView { id: ids.riff, name: "unknown"@, length: p.length, events: p.events }]);
        assert(track@.riff_refs =~= seq![RiffReference { id: ids.riff_ref, linked_to: ids.riff, position: 0 }]);
    }
    track
}

/// The tempo after reading events: the value of the last SetTempo among them, or the
/// tempo before when there is none.
pub open spec fn tempo_after(evs: Seq<TimedMidiEvent>, tempo: u32) -> u32
    decreases evs.len(),
{
    if evs.len() == 0 {
        tempo
    } else {
        match evs.last().event {
            ImportedMidiEvent::SetTempo(v) => v,
            _ => tempo_after(evs.drop_last(), tempo),
        }
    }
}

/// The tempo after reading the first `n` tracks of a file in order, starting from 0.
pub open spec fn tempo_before(tracks: Seq<Vec<TimedMidiEvent>>, n: nat) -> u32
    decreases n,
{
    if n == 0 || n > tracks.len() {
        0
    } else {
        tempo_after(tracks[n - 1]@, tempo_before(tracks, (n - 1) as nat))
    }
}

/// The tempo after reading a track's events (see `tempo_after`).
pub fn read_tempo(evs: &Vec<TimedMidiEvent>, tempo: u32) -> (r: u32)
    ensures
        r == tempo_after(evs@, tempo),
{
    let mut t = tempo;
    let mut i: usize = 0;
    assert(evs@.take(0) =~= Seq::<TimedMidiEvent>::empty());
    while i < evs.len()
        invariant
            i <= evs.len(),
            t == tempo_after(evs@.take(i as int), tempo),
        decreases evs.len() - i,
    {
        proof {
            assert(evs@.take(i + 1).drop_last() =~= evs@.take(i as int));
            assert(evs@.take(i + 1).last() == evs@[i as int]);
        }
        match &evs[i].event {
            ImportedMidiEvent::SetTempo(v) => {
                t = *v;
            },
            _ => {},
        }
        i = i + 1;
    }
    assert(evs@.take(i as int) =~= evs@);
    t
}

} // verus!