//! Edits of one event list: deleting near a point, removing, copying and pasting
//! selected events, nudging them, and applying changes made in an editor.
use vstd::prelude::*;
use crate::automation_target::{event_match, event_matches, EventMatch};
use crate::domain::{ItemId, PluginParameter, TrackEvent, Controller, NoteExpression, PitchBend, Note};
use crate::event::TranslateDirection;
use crate::numeric::{clamp_i64, sat_add_i64, sat_sub_i64};
use crate::seq_search::{first_match, lemma_first_match_at, lemma_first_match_none};

verus! {

broadcast use vstd::seq_lib::group_seq_properties;

/// How far from a point (in thousandths of a beat) an event may lie and still be
/// deleted at that point.
pub const EVENT_DELETION_TOLERANCE: i64 = 100;

// ---------------------------------------------------------------------------
// Specification.
// ---------------------------------------------------------------------------

pub open spec fn near(pos: i64, time: i64) -> bool {
    time - EVENT_DELETION_TOLERANCE <= pos && pos <= time + EVENT_DELETION_TOLERANCE
}

pub open spec fn not_deleted_at(m: EventMatch, time: i64) -> spec_fn(TrackEvent) -> bool {
    |e: TrackEvent| !(event_matches(m, e) && near(e.pos(), time))
}

/// The events without those that meet the condition and lie near the point.
pub open spec fn deleted_near(s: Seq<TrackEvent>, m: EventMatch, time: i64) -> Seq<TrackEvent> {
    s.filter(not_deleted_at(m, time))
}

pub open spec fn not_removed(m: EventMatch, selected: Seq<ItemId>) -> spec_fn(TrackEvent) -> bool {
    |e: TrackEvent| !(event_matches(m, e) && selected.contains(e.ident()))
}

/// The events without the selected ones that meet the condition.
pub open spec fn removed_selected(s: Seq<TrackEvent>, m: EventMatch, selected: Seq<ItemId>) -> Seq<TrackEvent> {
    s.filter(not_removed(m, selected))
}

pub open spec fn is_copied(m: EventMatch, selected: Seq<ItemId>) -> spec_fn(TrackEvent) -> bool {
    |e: TrackEvent| selected.contains(e.ident()) && event_matches(m, e)
}

/// An event with its position made relative to a cursor.
pub open spec fn relative_to(e: TrackEvent, cursor: i64) -> TrackEvent {
    e.with_pos(clamp_i64(e.pos() - cursor))
}

pub open spec fn relative_to_cursor(cursor: i64) -> spec_fn(TrackEvent) -> TrackEvent {
    |e: TrackEvent| relative_to(e, cursor)
}

/// The selected events that meet the condition, in order, positioned relative to the cursor.
pub open spec fn copied_selected(s: Seq<TrackEvent>, m: EventMatch, selected: Seq<ItemId>, cursor: i64) -> Seq<TrackEvent> {
    s.filter(is_copied(m, selected)).map_values(relative_to_cursor(cursor))
}

pub open spec fn is_selected_event(selected: Seq<ItemId>) -> spec_fn(TrackEvent) -> bool {
    |e: TrackEvent| selected.contains(e.ident())
}

/// The first selected event, positioned relative to the cursor, if it meets the condition.
pub open spec fn copied_first_selected(s: Seq<TrackEvent>, m: EventMatch, selected: Seq<ItemId>, cursor: i64) -> Seq<TrackEvent> {
    match first_match(s, is_selected_event(selected)) {
        Some(i) => if event_matches(m, s[i]) {
            seq![relative_to(s[i], cursor)]
        } else {
            Seq::empty()
        },
        None => Seq::empty(),
    }
}

/// A copied event placed at the cursor under a new identifier.
pub open spec fn placed(e: TrackEvent, id: ItemId, cursor: i64) -> TrackEvent {
    e.with_ident(id).with_pos(clamp_i64(cursor + e.pos()))
}

/// The copied events that meet the condition, placed at the cursor, the `j`-th copied
/// event taking the `j`-th identifier.
pub open spec fn pasted(buffer: Seq<TrackEvent>, ids: Seq<ItemId>, m: EventMatch, cursor: i64) -> Seq<TrackEvent>
    decreases buffer.len(),
{
    if buffer.len() == 0 {
        Seq::empty()
    } else {
        let rest = pasted(buffer.drop_last(), ids, m, cursor);
        let j = buffer.len() - 1;
        if event_matches(m, buffer[j]) {
            rest.push(placed(buffer[j], ids[j], cursor))
        } else {
            rest
        }
    }
}

/// A continuous value (in thousandths of its scale) nudged by a hundredth of the scale,
/// where it stays within the scale.
pub open spec fn nudged_fraction(v: i32, up: bool) -> i32 {
    if up {
        if v <= 990 { (v + 10) as i32 } else { v }
    } else {
        if v >= 10 { (v - 10) as i32 } else { v }
    }
}

/// A position moved left by a snap, where it stays positive; or right by a snap.
pub open spec fn moved(pos: i64, left: bool, snap: i64) -> i64 {
    if left {
        if pos > 0 && pos - snap >= 0 { clamp_i64(pos - snap) } else { pos }
    } else {
        clamp_i64(pos + snap)
    }
}

/// An event nudged one step: up or down by value (velocity for notes), left or right by
/// a snap (not for notes).
pub open spec fn translated(e: TrackEvent, dir: TranslateDirection, snap: i64) -> TrackEvent {
    match dir {
        TranslateDirection::Up | TranslateDirection::Down => {
            let up = dir == TranslateDirection::Up;
            match e {
                TrackEvent::Note(n) => TrackEvent::Note(Note {
                    velocity: if up {
                        if n.velocity + 1 > 127 { 127 } else { (n.velocity + 1) as i32 }
                    } else {
                        if n.velocity - 1 < 0 { 0 } else { (n.velocity - 1) as i32 }
                    },
                    ..n
                }),
                TrackEvent::NoteExpression(x) => TrackEvent::NoteExpression(NoteExpression { value: nudged_fraction(x.value, up), ..x }),
                TrackEvent::Controller(c) => TrackEvent::Controller(Controller {
                    value: if up {
                        if c.value < 127 { (c.value + 1) as i32 } else { c.value }
                    } else {
                        if c.value > 0 { (c.value - 1) as i32 } else { c.value }
                    },
                    ..c
                }),
                TrackEvent::PitchBend(p) => TrackEvent::PitchBend(PitchBend {
                    value: if up {
                        if p.value < 8192 { (p.value + 1) as i32 } else { p.value }
                    } else {
                        if p.value > -8192 { (p.value - 1) as i32 } else { p.value }
                    },
                    ..p
                }),
                TrackEvent::AudioPluginParameter(p) => TrackEvent::AudioPluginParameter(PluginParameter { value: nudged_fraction(p.value, up), ..p }),
            }
        },
        TranslateDirection::Left | TranslateDirection::Right => match e {
            TrackEvent::Note(_) => e,
            _ => e.with_pos(moved(e.pos(), dir == TranslateDirection::Left, snap)),
        },
    }
}

pub open spec fn translated_if_selected(m: EventMatch, selected: Seq<ItemId>, dir: TranslateDirection, snap: i64) -> spec_fn(TrackEvent) -> TrackEvent {
    |e: TrackEvent| if selected.contains(e.ident()) && event_matches(m, e) { translated(e, dir, snap) } else { e }
}

/// The events with the selected ones that meet the condition nudged one step.
pub open spec fn translated_selected(s: Seq<TrackEvent>, m: EventMatch, selected: Seq<ItemId>, dir: TranslateDirection, snap: i64) -> Seq<TrackEvent> {
    s.map_values(translated_if_selected(m, selected, dir, snap))
}

/// The kinds of event.
#[derive(Clone, Copy, PartialEq, Eq, Structural, Debug)]
pub enum EventKind {
    Note,
    NoteExpression,
    Controller,
    PitchBend,
    PluginParameter,
}

pub open spec fn kind_of(e: TrackEvent) -> EventKind {
    match e {
        TrackEvent::Note(_) => EventKind::Note,
        TrackEvent::NoteExpression(_) => EventKind::NoteExpression,
        TrackEvent::Controller(_) => EventKind::Controller,
        TrackEvent::PitchBend(_) => EventKind::PitchBend,
        TrackEvent::AudioPluginParameter(_) => EventKind::PluginParameter,
    }
}

/// `a / b` rounded toward zero, for a positive `b`.
pub open spec fn div_toward_zero(a: int, b: int) -> int {
    if a >= 0 { a / b } else { -((-a) / b) }
}

/// An event of the given kind moved and set to an edited value. The value comes in
/// thousandths; controllers and pitch bends take its whole part.
pub open spec fn changed_event(e: TrackEvent, c: PluginParameter, k: EventKind) -> TrackEvent {
    if kind_of(e) != k {
        e
    } else {
        match e {
            TrackEvent::Note(_) => e,
            TrackEvent::NoteExpression(x) => TrackEvent::NoteExpression(NoteExpression { position: c.position, value: c.value, ..x }),
            TrackEvent::Controller(x) => TrackEvent::Controller(Controller { position: c.position, value: div_toward_zero(c.value as int, 1000) as i32, ..x }),
            TrackEvent::PitchBend(x) => TrackEvent::PitchBend(PitchBend { position: c.position, value: div_toward_zero(c.value as int, 1000) as i32, ..x }),
            TrackEvent::AudioPluginParameter(x) => TrackEvent::AudioPluginParameter(PluginParameter { position: c.position, value: c.value, ..x }),
        }
    }
}

/// One edit applied: the first event with the edited event's identifier takes its
/// position and value, when the edit comes as a parameter event and the event is of the
/// given kind.
pub open spec fn with_change(s: Seq<TrackEvent>, changed: TrackEvent, k: EventKind) -> Seq<TrackEvent> {
    match first_match(s, crate::domain::event_has_id(changed.ident())) {
        Some(i) => match changed {
            TrackEvent::AudioPluginParameter(c) => s.update(i, changed_event(s[i], c, k)),
            _ => s,
        },
        None => s,
    }
}

/// The edits applied in order; each comes as a pair of the event before and after.
pub open spec fn with_changes(s: Seq<TrackEvent>, changes: Seq<(TrackEvent, TrackEvent)>, k: EventKind) -> Seq<TrackEvent>
    decreases changes.len(),
{
    if changes.len() == 0 {
        s
    } else {
        with_change(with_changes(s, changes.drop_last(), k), changes.last().1, k)
    }
}

// ---------------------------------------------------------------------------
// Exec.
// ---------------------------------------------------------------------------

/// Whether an identifier is among the selected ones.
pub fn is_selected(selected: &Vec<ItemId>, id: ItemId) -> (r: bool)
    ensures
        r == selected@.contains(id),
{
    let mut i: usize = 0;
    while i < selected.len()
        invariant
            i <= selected@.len(),
            forall|j: int| 0 <= j < i ==> selected@[j] != id,
        decreases selected@.len() - i,
    {
        if selected[i] == id {
            return true;
        }
        i = i + 1;
    }
    false
}

fn is_near(pos: i64, time: i64) -> (r: bool)
    ensures
        r == near(pos, time),
{
    let p = pos as i128;
    let t = time as i128;
    t - (EVENT_DELETION_TOLERANCE as i128) <= p && p <= t + (EVENT_DELETION_TOLERANCE as i128)
}

/// Deletes the events that meet the condition and lie near the point.
pub fn delete_near(events: &mut Vec<TrackEvent>, m: &EventMatch, time: i64)
    ensures
        final(events)@ == deleted_near(old(events)@, *m, time),
{
    let ghost s = events@;
    let mut out: Vec<TrackEvent> = Vec::new();
    let mut i: usize = 0;
    while i < events.len()
        invariant
            i <= s.len(),
            events@ == s,
            out@ == s.take(i as int).filter(not_deleted_at(*m, time)),
        decreases s.len() - i,
    {
        let e = events[i];
        proof {
            assert(s.take(i + 1) =~= s.take(i as int).push(e));
            s.take(i as int).lemma_filter_push(e, not_deleted_at(*m, time));
        }
        if !(event_match(m, &e) && is_near(e.position(), time)) {
            out.push(e);
        }
        i = i + 1;
    }
    assert(s.take(s.len() as int) =~= s);
    *events = out;
}

/// Removes the selected events that meet the condition.
pub fn remove_selected(events: &mut Vec<TrackEvent>, m: &EventMatch, selected: &Vec<ItemId>)
    ensures
        final(events)@ == removed_selected(old(events)@, *m, selected@),
{
    let ghost s = events@;
    let mut out: Vec<TrackEvent> = Vec::new();
    let mut i: usize = 0;
    while i < events.len()
        invariant
            i <= s.len(),
            events@ == s,
            out@ == s.take(i as int).filter(not_removed(*m, selected@)),
        decreases s.len() - i,
    {
        let e = events[i];
        proof {
            assert(s.take(i + 1) =~= s.take(i as int).push(e));
            s.take(i as int).lemma_filter_push(e, not_removed(*m, selected@));
        }
        if !(event_match(m, &e) && is_selected(selected, e.id())) {
            out.push(e);
        }
        i = i + 1;
    }
    assert(s.take(s.len() as int) =~= s);
    *events = out;
}

fn relative_event(e: &TrackEvent, cursor: i64) -> (r: TrackEvent)
    ensures
        r == relative_to(*e, cursor),
{
    let mut x = *e;
    x.set_position(sat_sub_i64(e.position(), cursor));
    x
}

/// The selected events that meet the condition, positioned relative to the cursor.
pub fn copy_selected(events: &Vec<TrackEvent>, m: &EventMatch, selected: &Vec<ItemId>, cursor: i64) -> (r: Vec<TrackEvent>)
    ensures
        r@ == copied_selected(events@, *m, selected@, cursor),
{
    let ghost s = events@;
    let mut out: Vec<TrackEvent> = Vec::new();
    let mut i: usize = 0;
    while i < events.len()
        invariant
            i <= s.len(),
            events@ == s,
            out@ == s.take(i as int).filter(is_copied(*m, selected@)).map_values(relative_to_cursor(cursor)),
        decreases s.len() - i,
    {
        let e = events[i];
        proof {
            assert(s.take(i + 1) =~= s.take(i as int).push(e));
            s.take(i as int).lemma_filter_push(e, is_copied(*m, selected@));
            s.take(i as int).filter(is_copied(*m, selected@)).lemma_push_map_commute(relative_to_cursor(cursor), e);
        }
        if is_selected(selected, e.id()) && event_match(m, &e) {
            out.push(relative_event(&e, cursor));
        }
        i = i + 1;
    }
    assert(s.take(s.len() as int) =~= s);
    out
}

/// The first selected event, positioned relative to the cursor, if it meets the condition.
pub fn copy_first_selected(events: &Vec<TrackEvent>, m: &EventMatch, selected: &Vec<ItemId>, cursor: i64) -> (r: Vec<TrackEvent>)
    ensures
        r@ == copied_first_selected(events@, *m, selected@, cursor),
{
    let mut i: usize = 0;
    while i < events.len()
        invariant
            i <= events@.len(),
            forall|j: int| 0 <= j < i ==> !is_selected_event(selected@)(#[trigger] events@[j]),
        decreases events@.len() - i,
    {
        if is_selected(selected, events[i].id()) {
            proof { lemma_first_match_at(events@, is_selected_event(selected@), i as int); }
            let mut out: Vec<TrackEvent> = Vec::new();
            if event_match(m, &events[i]) {
                out.push(relative_event(&events[i], cursor));
                assert(out@ =~= seq![relative_to(events@[i as int], cursor)]);
            }
            return out;
        }
        i = i + 1;
    }
    proof { lemma_first_match_none(events@, is_selected_event(selected@)); }
    Vec::new()
}

/// Appends the copied events that meet the condition, placed at the cursor under new
/// identifiers (the `j`-th copied event takes the `j`-th identifier).
pub fn paste_events(events: &mut Vec<TrackEvent>, buffer: &Vec<TrackEvent>, m: &EventMatch, cursor: i64, ids: &Vec<ItemId>)
    requires
        ids@.len() >= buffer@.len(),
    ensures
        final(events)@ == old(events)@ + pasted(buffer@, ids@, *m, cursor),
{
    let ghost s = events@;
    let mut j: usize = 0;
    assert(buffer@.take(0) =~= Seq::<TrackEvent>::empty());
    while j < buffer.len()
        invariant
            j <= buffer@.len(),
            ids@.len() >= buffer@.len(),
            events@ == s + pasted(buffer@.take(j as int), ids@, *m, cursor),
        decreases buffer@.len() - j,
    {
        let e = buffer[j];
        proof {
            assert(buffer@.take(j + 1).drop_last() =~= buffer@.take(j as int));
        }
        if event_match(m, &e) {
            let mut x = e;
            x.set_id(ids[j]);
            x.set_position(sat_add_i64(cursor, e.position()));
            events.push(x);
            assert(events@ =~= s + pasted(buffer@.take(j + 1), ids@, *m, cursor));
        }
        j = j + 1;
    }
    assert(buffer@.take(buffer@.len() as int) =~= buffer@);
}

fn nudge_fraction(v: i32, up: bool) -> (r: i32)
    ensures
        r == nudged_fraction(v, up),
{
    if up {
        if v <= 990 { v + 10 } else { v }
    } else {
        if v >= 10 { v - 10 } else { v }
    }
}

fn move_position(pos: i64, left: bool, snap: i64) -> (r: i64)
    ensures
        r == moved(pos, left, snap),
{
    if left {
        if pos > 0 && (pos as i128) - (snap as i128) >= 0 {
            sat_sub_i64(pos, snap)
        } else {
            pos
        }
    } else {
        sat_add_i64(pos, snap)
    }
}

/// An event nudged one step.
pub fn translate_event(e: &TrackEvent, dir: TranslateDirection, snap: i64) -> (r: TrackEvent)
    ensures
        r == translated(*e, dir, snap),
{
    match dir {
        TranslateDirection::Up | TranslateDirection::Down => {
            let up = match dir {
                TranslateDirection::Up => true,
                _ => false,
            };
            match e {
                TrackEvent::Note(n) => {
                    let mut x = *n;
                    if up {
                        x.velocity = if n.velocity >= 127 { 127 } else { n.velocity + 1 };
                    } else {
                        x.velocity = if n.velocity <= 0 { 0 } else { n.velocity - 1 };
                    }
                    TrackEvent::Note(x)
                },
                TrackEvent::NoteExpression(n) => {
                    let mut x = *n;
                    x.value = nudge_fraction(n.value, up);
                    TrackEvent::NoteExpression(x)
                },
                TrackEvent::Controller(c) => {
                    let mut x = *c;
                    if up {
                        if c.value < 127 { x.value = c.value + 1; }
                    } else {
                        if c.value > 0 { x.value = c.value - 1; }
                    }
                    TrackEvent::Controller(x)
                },
                TrackEvent::PitchBend(p) => {
                    let mut x = *p;
                    if up {
                        if p.value < 8192 { x.value = p.value + 1; }
                    } else {
                        if p.value > -8192 { x.value = p.value - 1; }
                    }
                    TrackEvent::PitchBend(x)
                },
                TrackEvent::AudioPluginParameter(p) => {
                    let mut x = *p;
                    x.value = nudge_fraction(p.value, up);
                    TrackEvent::AudioPluginParameter(x)
                },
            }
        },
        TranslateDirection::Left | TranslateDirection::Right => {
            let left = match dir {
                TranslateDirection::Left => true,
                _ => false,
            };
            match e {
                TrackEvent::Note(_) => *e,
                _ => {
                    let mut x = *e;
                    x.set_position(move_position(e.position(), left, snap));
                    x
                },
            }
        },
    }
}

/// Nudges the selected events that meet the condition one step.
pub fn translate_selected(events: &mut Vec<TrackEvent>, m: &EventMatch, selected: &Vec<ItemId>, dir: TranslateDirection, snap: i64)
    ensures
        final(events)@ == translated_selected(old(events)@, *m, selected@, dir, snap),
{
    let ghost s = events@;
    let n = events.len();
    let mut i: usize = 0;
    while i < n
        invariant
            i <= n,
            n == s.len(),
            events@.len() == n,
            forall|j: int| 0 <= j < i ==> events@[j] == translated_if_selected(*m, selected@, dir, snap)(#[trigger] s[j]),
            forall|j: int| i <= j < n ==> events@[j] == s[j],
        decreases n - i,
    {
        let e = events[i];
        if is_selected(selected, e.id()) && event_match(m, &e) {
            let x = translate_event(&e, dir, snap);
            events.set(i, x);
        }
        i = i + 1;
    }
    assert(events@ =~= translated_selected(s, *m, selected@, dir, snap));
}

fn event_kind(e: &TrackEvent) -> (r: EventKind)
    ensures
        r == kind_of(*e),
{
    match e {
        TrackEvent::Note(_) => EventKind::Note,
        TrackEvent::NoteExpression(_) => EventKind::NoteExpression,
        TrackEvent::Controller(_) => EventKind::Controller,
        TrackEvent::PitchBend(_) => EventKind::PitchBend,
        TrackEvent::AudioPluginParameter(_) => EventKind::PluginParameter,
    }
}

fn whole_part(v: i32) -> (r: i32)
    ensures
        r == div_toward_zero(v as int, 1000),
{
    if v >= 0 {
        v / 1000
    } else {
        let a: i64 = -(v as i64);
        let q: i64 = a / 1000;
        -(q as i32)
    }
}

fn change_event(e: &TrackEvent, c: &PluginParameter, k: EventKind) -> (r: TrackEvent)
    ensures
        r == changed_event(*e, *c, k),
{
    if event_kind(e) != k {
        return *e;
    }
    match e {
        TrackEvent::Note(_) => *e,
        TrackEvent::NoteExpression(x) => TrackEvent::NoteExpression(NoteExpression { position: c.position, value: c.value, ..*x }),
        TrackEvent::Controller(x) => TrackEvent::Controller(Controller { position: c.position, value: whole_part(c.value), ..*x }),
        TrackEvent::PitchBend(x) => TrackEvent::PitchBend(PitchBend { position: c.position, value: whole_part(c.value), ..*x }),
        TrackEvent::AudioPluginParameter(x) => TrackEvent::AudioPluginParameter(PluginParameter { position: c.position, value: c.value, ..*x }),
    }
}

/// Applies the edits in order (see `with_changes`).
pub fn apply_changes(events: &mut Vec<TrackEvent>, changes: &Vec<(TrackEvent, TrackEvent)>, k: EventKind)
    ensures
        final(events)@ == with_changes(old(events)@, changes@, k),
{
    let ghost s = events@;
    let mut i: usize = 0;
    while i < changes.len()
        invariant
            i <= changes@.len(),
            events@ == with_changes(s, changes@.take(i as int), k),
        decreases changes@.len() - i,
    {
        let changed = changes[i].1;
        proof {
            assert(changes@.take(i + 1).drop_last() =~= changes@.take(i as int));
        }
        match crate::domain::find_event(events, changed.id()) {
            Some(j) => match changed {
                TrackEvent::AudioPluginParameter(c) => {
                    let x = change_event(&events[j], &c, k);
                    events.set(j, x);
                },
                _ => {},
            },
            None => {},
        }
        i = i + 1;
    }
    assert(changes@.take(changes@.len() as int) =~= changes@);
}

/// A copy of an event list.
pub fn copy_events(events: &Vec<TrackEvent>) -> (r: Vec<TrackEvent>)
    ensures
        r@ == events@,
{
    let mut out: Vec<TrackEvent> = Vec::new();
    let mut i: usize = 0;
    while i < events.len()
        invariant
            i <= events@.len(),
            out@ == events@.take(i as int),
        decreases events@.len() - i,
    {
        out.push(events[i]);
        assert(events@.take(i + 1) =~= events@.take(i as int).push(events@[i as int]));
        i = i + 1;
    }
    assert(events@.take(events@.len() as int) =~= events@);
    out
}

} // verus!
