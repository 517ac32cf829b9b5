//! An automation edit as a whole: resolve the request, then edit the list found, or
//! copy from it into the copy buffer (and, for a cut, remove what was copied).
use vstd::prelude::*;
use crate::automation_target::{
    events_at, events_ref_at, lemma_with_events_at, location_valid, put_events_at, resolve_target,
    resolve_target_exec, take_events_at, with_events_at, EventMatch, EventsLocation,
    TargetRequest,
};
use crate::domain::{ItemId, TrackEvent};
use crate::event::TranslateDirection;
use crate::event_edits::{
    apply_changes, copied_first_selected, copied_selected, copy_first_selected, copy_selected,
    delete_near, deleted_near, paste_events, pasted, remove_selected, removed_selected,
    translate_selected, translated_selected, with_changes, EventKind,
};
use crate::sorting::{sort_by_position, sort_events_by_position};
use crate::state::{RiffDAWState, RiffDAWStateView};

verus! {

/// An edit of one event list.
pub enum ListEdit {
    /// Add an event, then order by position.
    Add(TrackEvent),
    /// Delete the events that meet the condition near a point, ordering afterwards when asked.
    Delete { m: EventMatch, time: i64, sort: bool },
    /// Paste the copied events that meet the condition at the cursor under the given
    /// identifiers, then order by position.
    Paste { buffer: Vec<TrackEvent>, m: EventMatch, cursor: i64, ids: Vec<ItemId> },
    /// Nudge the selected events that meet the condition, ordering afterwards when asked.
    Translate { m: EventMatch, selected: Vec<ItemId>, dir: TranslateDirection, snap: i64, sort: bool },
    /// Apply edits made in an editor to events of a kind, then order by position.
    Change { changes: Vec<(TrackEvent, TrackEvent)>, kind: EventKind },
}

pub open spec fn list_edit_ok(op: ListEdit) -> bool {
    match op {
        ListEdit::Paste { buffer, ids, .. } => ids@.len() >= buffer@.len(),
        _ => true,
    }
}

/// The list after the edit.
pub open spec fn list_edited(evs: Seq<TrackEvent>, op: ListEdit) -> Seq<TrackEvent> {
    match op {
        ListEdit::Add(e) => sort_by_position(evs.push(e)),
        ListEdit::Delete { m, time, sort } => if sort {
            sort_by_position(deleted_near(evs, m, time))
        } else {
            deleted_near(evs, m, time)
        },
        ListEdit::Paste { buffer, m, cursor, ids } => sort_by_position(evs + pasted(buffer@, ids@, m, cursor)),
        ListEdit::Translate { m, selected, dir, snap, sort } => if sort {
            sort_by_position(translated_selected(evs, m, selected@, dir, snap))
        } else {
            translated_selected(evs, m, selected@, dir, snap)
        },
        ListEdit::Change { changes, kind } => sort_by_position(with_changes(evs, changes@, kind)),
    }
}

pub fn apply_list_edit(events: &mut Vec<TrackEvent>, op: &ListEdit)
    requires
        list_edit_ok(*op),
    ensures
        final(events)@ == list_edited(old(events)@, *op),
{
    match op {
        ListEdit::Add(e) => {
            events.push(*e);
            sort_events_by_position(events);
        },
        ListEdit::Delete { m, time, sort } => {
            delete_near(events, m, *time);
            if *sort {
                sort_events_by_position(events);
            }
        },
        ListEdit::Paste { buffer, m, cursor, ids } => {
            paste_events(events, buffer, m, *cursor, ids);
            sort_events_by_position(events);
        },
        ListEdit::Translate { m, selected, dir, snap, sort } => {
            translate_selected(events, m, selected, *dir, *snap);
            if *sort {
                sort_events_by_position(events);
            }
        },
        ListEdit::Change { changes, kind } => {
            apply_changes(events, changes, *kind);
            sort_events_by_position(events);
        },
    }
}

/// The state after an edit: the request resolved (with whatever that created) and, when
/// a list was found and the edit applies, that list edited.
pub open spec fn edited(s: RiffDAWStateView, req: TargetRequest, new_id: ItemId, apply: bool, op: ListEdit) -> RiffDAWStateView {
    let (s1, loc) = resolve_target(s, req, new_id);
    match loc {
        Some(l) => if apply {
            with_events_at(s1, l, list_edited(events_at(s1, l), op))
        } else {
            s1
        },
        None => s1,
    }
}

/// Resolves the request and applies the edit to the list found, when `apply` holds.
pub fn edit_target(state: &mut RiffDAWState, req: &TargetRequest, new_id: ItemId, apply: bool, op: &ListEdit)
    requires
        list_edit_ok(*op),
    ensures
        final(state)@ == edited(old(state)@, *req, new_id, apply, *op),
{
    let loc = resolve_target_exec(state, req, new_id);
    if apply {
        match loc {
            Some(l) => {
                let ghost s1 = state@;
                let mut v = take_events_at(state, l);
                apply_list_edit(&mut v, op);
                put_events_at(state, l, v);
                proof {
                    lemma_with_events_at(s1, l, Seq::empty(), list_edited(events_at(s1, l), *op));
                }
            },
            None => {},
        }
    }
}

/// Two edits that do the same to every list give the same state.
pub proof fn lemma_edited_same(s: RiffDAWStateView, req: TargetRequest, new_id: ItemId, apply: bool, op1: ListEdit, op2: ListEdit)
    requires
        forall|evs: Seq<TrackEvent>| #[trigger] list_edited(evs, op1) == list_edited(evs, op2),
    ensures
        edited(s, req, new_id, apply, op1) == edited(s, req, new_id, apply, op2),
{
    let (s1, loc) = resolve_target(s, req, new_id);
    match loc {
        Some(l) => {
            assert(list_edited(events_at(s1, l), op1) == list_edited(events_at(s1, l), op2));
        },
        None => {},
    }
}

/// How a copy takes events: all selected events that meet the condition, or the first
/// selected event when it meets it.
#[derive(Clone, Copy, PartialEq, Eq, Structural, Debug)]
pub enum Clip {
    All(EventMatch),
    First(EventMatch),
}

pub open spec fn clip_of(evs: Seq<TrackEvent>, clip: Clip, selected: Seq<ItemId>, cursor: i64) -> Seq<TrackEvent> {
    match clip {
        Clip::All(m) => copied_selected(evs, m, selected, cursor),
        Clip::First(m) => copied_first_selected(evs, m, selected, cursor),
    }
}

/// The state with the copy buffer replaced by what was copied, unless nothing was.
pub open spec fn with_copied(s: RiffDAWStateView, copied: Seq<TrackEvent>) -> RiffDAWStateView {
    if copied.len() == 0 {
        s
    } else {
        RiffDAWStateView { automation_event_copy_buffer: copied, ..s }
    }
}

/// The state after a copy (or, with `remove`, a cut) relative to the cursor: the
/// request resolved; when a list was found and the edit applies, the selected events
/// copied into the copy buffer (when any were) and, for a cut, removed from the list
/// where they meet the removal condition.
pub open spec fn clipped(s: RiffDAWStateView, req: TargetRequest, new_id: ItemId, apply: bool, clip: Clip, remove: Option<EventMatch>, cursor: i64) -> RiffDAWStateView {
    let (s1, loc) = resolve_target(s, req, new_id);
    match loc {
        Some(l) => if apply {
            let evs = events_at(s1, l);
            let s2 = match remove {
                Some(m) => with_events_at(s1, l, removed_selected(evs, m, s.selected_automation)),
                None => s1,
            };
            with_copied(s2, clip_of(evs, clip, s.selected_automation, cursor))
        } else {
            s1
        },
        None => s1,
    }
}

/// The list at a location with what a cut removes taken out.
pub open spec fn after_removal(s: RiffDAWStateView, l: EventsLocation, remove: Option<EventMatch>, selected: Seq<ItemId>) -> RiffDAWStateView {
    match remove {
        Some(m) => with_events_at(s, l, removed_selected(events_at(s, l), m, selected)),
        None => s,
    }
}

fn remove_at(state: &mut RiffDAWState, l: EventsLocation, remove: Option<EventMatch>, selected: &Vec<ItemId>)
    requires
        location_valid(old(state)@, l),
    ensures
        final(state)@ == after_removal(old(state)@, l, remove, selected@),
{
    match remove {
        Some(m) => {
            let ghost s1 = state@;
            let mut v = take_events_at(state, l);
            remove_selected(&mut v, &m, selected);
            put_events_at(state, l, v);
            proof {
                lemma_with_events_at(s1, l, Seq::empty(), v@);
            }
        },
        None => {},
    }
}

fn copy_at(state: &RiffDAWState, l: EventsLocation, clip: Clip, selected: &Vec<ItemId>, cursor: i64) -> (r: Vec<TrackEvent>)
    requires
        location_valid(state@, l),
    ensures
        r@ == clip_of(events_at(state@, l), clip, selected@, cursor),
{
    let events = events_ref_at(state, l);
    match clip {
        Clip::All(m) => copy_selected(events, &m, selected, cursor),
        Clip::First(m) => copy_first_selected(events, &m, selected, cursor),
    }
}

/// A copy of a list of identifiers.
pub fn copy_ids(ids: &Vec<ItemId>) -> (r: Vec<ItemId>)
    ensures
        r@ == ids@,
{
    let mut out: Vec<ItemId> = Vec::new();
    let mut i: usize = 0;
    while i < ids.len()
        invariant
            i <= ids@.len(),
            out@ == ids@.take(i as int),
        decreases ids@.len() - i,
    {
        out.push(ids[i]);
        assert(ids@.take(i + 1) =~= ids@.take(i as int).push(ids@[i as int]));
        i = i + 1;
    }
    assert(ids@.take(ids@.len() as int) =~= ids@);
    out
}

/// Resolves the request and copies (or cuts) the selected events of the list found,
/// when `apply` holds.
pub fn clip_target(state: &mut RiffDAWState, req: &TargetRequest, new_id: ItemId, apply: bool, clip: Clip, remove: Option<EventMatch>, cursor: i64)
    ensures
        final(state)@ == clipped(old(state)@, *req, new_id, apply, clip, remove, cursor),
{
    let ghost s0 = state@;
    let selected = copy_ids(&state.selected_automation);
    let loc = resolve_target_exec(state, req, new_id);
    if apply {
        match loc {
            Some(l) => {
                let ghost s1 = state@;
                let copied = copy_at(state, l, clip, &selected, cursor);
                remove_at(state, l, remove, &selected);
                if copied.len() > 0 {
                    state.automation_event_copy_buffer = copied;
                }
            },
            None => {},
        }
    }
}

} // verus!
