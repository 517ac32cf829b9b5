//! Handlers of the piano roll.
use vstd::prelude::*;
use crate::actions::midi_actions::{selected_riff_location, selected_riff_location_of};
use crate::automation_target::{
    events_at, lemma_with_events_at, location_valid, put_events_at, take_events_at,
    with_events_at, EventsLocation,
};
use crate::domain::{find_riff, find_track, ItemId, Note, TrackEvent};
use crate::event::{MidiPolyphonicExpressionNoteId, OperationModeType};
use crate::event_edits::is_selected;
use crate::state::{RiffDAWState, RiffDAWStateView};

verus! {

/// A selected note taking an MPE note id; other events unchanged.
pub open spec fn with_note_id(selected: Seq<ItemId>, note_id: i32) -> spec_fn(TrackEvent) -> TrackEvent {
    |e: TrackEvent| match e {
        TrackEvent::Note(n) => if selected.contains(n.id) { TrackEvent::Note(Note { note_id, ..n }) } else { e },
        _ => e,
    }
}

/// Choosing the piano roll's MPE note id: it is recorded, and the selected notes of the
/// selected riff take it.
pub open spec fn mpe_note_id_changed(s: RiffDAWStateView, id: MidiPolyphonicExpressionNoteId) -> RiffDAWStateView {
    let s1 = RiffDAWStateView { piano_roll_mpe_note_id: id, ..s };
    match selected_riff_location(s) {
        Some(l) => with_events_at(s1, l, events_at(s, l).map_values(with_note_id(s.selected_riff_events, id.spec_note_id()))),
        None => s1,
    }
}

fn set_note_ids(events: &mut Vec<TrackEvent>, selected: &Vec<ItemId>, note_id: i32)
    ensures
        final(events)@ == old(events)@.map_values(with_note_id(selected@, note_id)),
{
    let ghost s = events@;
    let n = events.len();
    let mut i: usize = 0;
    while i < n
        invariant
            i <= n,
            n == s.len(),
            events@.len() == n,
            forall|j: int| 0 <= j < i ==> events@[j] == with_note_id(selected@, note_id)(#[trigger] s[j]),
            forall|j: int| i <= j < n ==> events@[j] == s[j],
        decreases n - i,
    {
        match events[i] {
            TrackEvent::Note(x) => {
                if is_selected(selected, x.id) {
                    events.set(i, TrackEvent::Note(Note { note_id, ..x }));
                }
            },
            _ => {},
        }
        i = i + 1;
    }
    assert(events@ =~= s.map_values(with_note_id(selected@, note_id)));
}

pub fn daw_events_PianoRollMPENoteIdChange(state: &mut RiffDAWState, mpe_note_id_change: MidiPolyphonicExpressionNoteId)
    ensures
        final(state)@ == mpe_note_id_changed(old(state)@, mpe_note_id_change),
{
    let new_note_id = mpe_note_id_change.note_id();
    let loc = selected_riff_location_of(state);
    state.piano_roll_mpe_note_id = mpe_note_id_change;
    match loc {
        Some(l) => {
            let ghost s1 = state@;
            let selected = crate::automation_edits::copy_ids(&state.selected_riff_events);
            let mut v = take_events_at(state, l);
            set_note_ids(&mut v, &selected, new_note_id);
            put_events_at(state, l, v);
            proof {
                lemma_with_events_at(s1, l, Seq::empty(), v@);
            }
        },
        None => {},
    }
}

/// A windowed zoom of the piano roll (in pixels) changes no state.
pub fn daw_events_PianoRollWindowedZoom(state: &mut RiffDAWState, x1: i32, y1: i32, x2: i32, y2: i32)
    ensures
        final(state)@ == old(state)@,
{
}

pub fn daw_events_PianoRollOperationModeChange(state: &mut RiffDAWState, mode: OperationModeType)
    ensures
        final(state)@ == old(state)@,
{
}

pub fn daw_events_RepaintPianoRollView(state: &mut RiffDAWState)
    ensures
        final(state)@ == old(state)@,
{
}

} // verus!
