//! Which event list an automation edit works on.
//!
//! An edit names the kind of events it works on in a `TargetRequest`. Resolving the
//! request against the state finds the selected track and then, by the current view and
//! the edit type, the list: the track automation of the selected riff arrangement, the
//! track's own automation, or the selected riff's events. Within an automation the list
//! is its discrete events or the envelope of the requested kind. Where the request says
//! so, a missing arrangement automation or envelope is created on the way.
use vstd::prelude::*;
use crate::domain::{
    arrangement_has_id, automation_for_track, empty_automation, find_arrangement, find_riff,
    find_track, find_track_automation, riff_has_id, Automation, AutomationEnvelope,
    AutomationEnvelopeView, AutomationView, ItemId, NoteExpressionType, RiffArrangement,
    RiffArrangementView, SongView, Track, TrackAutomation, TrackAutomationView, TrackEvent,
    TrackKind, TrackView, RiffView,
};
use crate::event::{AutomationEditType, CurrentView};
use crate::seq_search::{first_match, lemma_first_match, lemma_first_match_alike, lemma_first_match_at, lemma_first_match_none};
use crate::state::{selected_riff_of, selected_track_index, RiffDAWState, RiffDAWStateView};

verus! {

/// A condition on events: of which kind, and with which details.
#[derive(Clone, Copy, PartialEq, Eq, Structural, Debug)]
pub enum EventMatch {
    AnyNote,
    AnyPitchBend,
    AnyNoteExpression,
    NoteExpressionOfType(NoteExpressionType),
    /// A note expression of a type for a note id, where the id -1 stands for every note.
    NoteExpressionFor { note_id: i32, expression_type: NoteExpressionType },
    NoteExpressionExactly { expression_type: NoteExpressionType, port: i16, channel: i16, note_id: i32, key: i16 },
    ControllerNumber(i32),
    ParameterIndex(i32),
    ParameterOf { plugin: ItemId, index: i32 },
    ParameterOfKind { plugin: ItemId, index: i32, instrument: bool },
}

pub open spec fn event_matches(m: EventMatch, e: TrackEvent) -> bool {
    match m {
        EventMatch::AnyNote => e is Note,
        EventMatch::AnyPitchBend => e is PitchBend,
        EventMatch::AnyNoteExpression => e is NoteExpression,
        EventMatch::NoteExpressionOfType(t) => e matches TrackEvent::NoteExpression(n) && n.expression_type == t,
        EventMatch::NoteExpressionFor { note_id, expression_type } => e matches TrackEvent::NoteExpression(n)
            && (note_id == -1 || n.note_id == note_id) && n.expression_type == expression_type,
        EventMatch::NoteExpressionExactly { expression_type, port, channel, note_id, key } => e matches TrackEvent::NoteExpression(n)
            && n.expression_type == expression_type && n.port == port && n.channel == channel && n.note_id == note_id && n.key == key,
        EventMatch::ControllerNumber(c) => e matches TrackEvent::Controller(x) && x.controller == c,
        EventMatch::ParameterIndex(i) => e matches TrackEvent::AudioPluginParameter(p) && p.index == i,
        EventMatch::ParameterOf { plugin, index } => e matches TrackEvent::AudioPluginParameter(p)
            && p.plugin_uuid == plugin && p.index == index,
        EventMatch::ParameterOfKind { plugin, index, instrument } => e matches TrackEvent::AudioPluginParameter(p)
            && p.plugin_uuid == plugin && p.index == index && p.instrument == instrument,
    }
}

pub fn event_match(m: &EventMatch, e: &TrackEvent) -> (r: bool)
    ensures
        r == event_matches(*m, *e),
{
    match (m, e) {
        (EventMatch::AnyNote, TrackEvent::Note(_)) => true,
        (EventMatch::AnyPitchBend, TrackEvent::PitchBend(_)) => true,
        (EventMatch::AnyNoteExpression, TrackEvent::NoteExpression(_)) => true,
        (EventMatch::NoteExpressionOfType(t), TrackEvent::NoteExpression(n)) => n.expression_type == *t,
        (EventMatch::NoteExpressionFor { note_id, expression_type }, TrackEvent::NoteExpression(n)) =>
            (*note_id == -1 || n.note_id == *note_id) && n.expression_type == *expression_type,
        (EventMatch::NoteExpressionExactly { expression_type, port, channel, note_id, key }, TrackEvent::NoteExpression(n)) =>
            n.expression_type == *expression_type && n.port == *port && n.channel == *channel && n.note_id == *note_id && n.key == *key,
        (EventMatch::ControllerNumber(c), TrackEvent::Controller(x)) => x.controller == *c,
        (EventMatch::ParameterIndex(i), TrackEvent::AudioPluginParameter(p)) => p.index == *i,
        (EventMatch::ParameterOf { plugin, index }, TrackEvent::AudioPluginParameter(p)) =>
            p.plugin_uuid == *plugin && p.index == *index,
        (EventMatch::ParameterOfKind { plugin, index, instrument }, TrackEvent::AudioPluginParameter(p)) =>
            p.plugin_uuid == *plugin && p.index == *index && p.instrument == *instrument,
        _ => false,
    }
}

/// Envelopes whose kind (given by their event details) meets the condition.
pub open spec fn envelope_with(m: EventMatch) -> spec_fn(AutomationEnvelopeView) -> bool {
    |env: AutomationEnvelopeView| event_matches(m, env.event_details)
}

/// The index of the first envelope whose kind meets the condition.
pub fn find_envelope(envelopes: &Vec<AutomationEnvelope>, m: &EventMatch) -> (r: Option<usize>)
    ensures
        r matches Some(i) ==> first_match(envelopes@.map_values(|e: AutomationEnvelope| e@), envelope_with(*m)) == Some(i as int),
        r is None ==> first_match(envelopes@.map_values(|e: AutomationEnvelope| e@), envelope_with(*m)) is None,
        r matches Some(i) ==> i < envelopes@.len(),
{
    let ghost s = envelopes@.map_values(|e: AutomationEnvelope| e@);
    let mut i: usize = 0;
    while i < envelopes.len()
        invariant
            i <= envelopes@.len(),
            s == envelopes@.map_values(|e: AutomationEnvelope| e@),
            forall|j: int| 0 <= j < i ==> !envelope_with(*m)(#[trigger] s[j]),
        decreases envelopes@.len() - i,
    {
        if event_match(m, &envelopes[i].event_details) {
            proof { lemma_first_match_at(s, envelope_with(*m), i as int); }
            return Some(i);
        }
        i = i + 1;
    }
    proof { lemma_first_match_none(s, envelope_with(*m)); }
    None
}

/// The kinds of track an edit applies to.
#[derive(Clone, Copy, PartialEq, Eq, Structural, Debug)]
pub enum TrackFilter {
    Instrument,
    InstrumentOrAudio,
    Any,
}

pub open spec fn track_accepted(f: TrackFilter, k: TrackKind) -> bool {
    match f {
        TrackFilter::Instrument => k == TrackKind::Instrument,
        TrackFilter::InstrumentOrAudio => k == TrackKind::Instrument || k == TrackKind::Audio,
        TrackFilter::Any => true,
    }
}

/// The envelope an edit works on: how it is found, the details a new one gets, and how
/// it is found again once one was added.
#[derive(Clone, Copy)]
pub struct EnvelopeRequest {
    pub find: EventMatch,
    pub details: TrackEvent,
    pub refind: EventMatch,
}

/// What an edit asks for: the tracks it applies to, discrete events or an envelope
/// (`None`: no envelope can be named), and whether a missing arrangement automation or
/// envelope is created when working in a riff arrangement. A track's own missing
/// envelope is always created.
#[derive(Clone, Copy)]
pub struct TargetRequest {
    pub tracks: TrackFilter,
    pub discrete: bool,
    pub envelope: Option<EnvelopeRequest>,
    pub create_in_arrangement: bool,
}

/// Where, within an automation, an event list lies.
#[derive(Clone, Copy, PartialEq, Eq, Structural, Debug)]
pub enum AutomationSlot {
    Events,
    Envelope(usize),
}

/// Where, within the song, an event list lies: an automation of a riff arrangement
/// (arrangement, automation, slot), a track's automation (track, slot), or a riff of a
/// track (track, riff).
#[derive(Clone, Copy, PartialEq, Eq, Structural, Debug)]
pub enum EventsLocation {
    Arrangement(usize, usize, AutomationSlot),
    Track(usize, AutomationSlot),
    Riff(usize, usize),
}

/// A new, empty envelope with the given kind and identifier.
pub open spec fn new_envelope(details: TrackEvent, id: ItemId) -> AutomationEnvelopeView {
    AutomationEnvelopeView { event_details: details.with_ident(id), events: Seq::empty() }
}

/// The list an edit works on within one automation, and the automation after a missing
/// envelope was added (when `create` allows it).
pub open spec fn resolve_in_automation(a: AutomationView, req: TargetRequest, create: bool, new_id: ItemId) -> (AutomationView, Option<AutomationSlot>) {
    if req.discrete {
        (a, Some(AutomationSlot::Events))
    } else {
        match req.envelope {
            None => (a, None),
            Some(er) => match first_match(a.envelopes, envelope_with(er.find)) {
                Some(e) => (a, Some(AutomationSlot::Envelope(e as usize))),
                None => if create {
                    let a2 = AutomationView { envelopes: a.envelopes.push(new_envelope(er.details, new_id)), ..a };
                    match first_match(a2.envelopes, envelope_with(er.refind)) {
                        Some(e) => (a2, Some(AutomationSlot::Envelope(e as usize))),
                        None => (a2, None),
                    }
                } else {
                    (a, None)
                },
            },
        }
    }
}

/// The list an edit works on within a riff arrangement: in the automation the
/// arrangement holds for the track, which is added when missing and the request allows.
pub open spec fn resolve_in_riff_arrangement(arr: RiffArrangementView, track_id: ItemId, req: TargetRequest, new_id: ItemId) -> (RiffArrangementView, Option<(usize, AutomationSlot)>) {
    match first_match(arr.automations, automation_for_track(track_id)) {
        Some(k) => {
            let (a2, slot) = resolve_in_automation(arr.automations[k].automation, req, req.create_in_arrangement, new_id);
            (
                RiffArrangementView {
                    automations: arr.automations.update(k, TrackAutomationView { automation: a2, ..arr.automations[k] }),
                    ..arr
                },
                match slot {
                    Some(sl) => Some((k as usize, sl)),
                    None => None,
                },
            )
        },
        None => if req.create_in_arrangement {
            let (a2, slot) = resolve_in_automation(empty_automation(), req, true, new_id);
            (
                RiffArrangementView {
                    automations: arr.automations.push(TrackAutomationView { track_id, automation: a2 }),
                    ..arr
                },
                match slot {
                    Some(sl) => Some((arr.automations.len() as usize, sl)),
                    None => None,
                },
            )
        } else {
            (arr, None)
        },
    }
}

pub open spec fn with_arrangement(s: RiffDAWStateView, a: int, arr: RiffArrangementView) -> RiffDAWStateView {
    RiffDAWStateView {
        song: SongView { riff_arrangements: s.song.riff_arrangements.update(a, arr), ..s.song },
        ..s
    }
}

pub open spec fn with_track(s: RiffDAWStateView, t: int, track: TrackView) -> RiffDAWStateView {
    RiffDAWStateView { song: SongView { tracks: s.song.tracks.update(t, track), ..s.song }, ..s }
}

/// The state after an edit's request was resolved (with whatever it created), and the
/// location of the list the edit works on, if there is one.
pub open spec fn resolve_target(s: RiffDAWStateView, req: TargetRequest, new_id: ItemId) -> (RiffDAWStateView, Option<EventsLocation>) {
    match selected_track_index(s) {
        None => (s, None),
        Some(t) => {
            let track = s.song.tracks[t];
            if !track_accepted(req.tracks, track.kind) {
                (s, None)
            } else if s.current_view == CurrentView::RiffArrangement {
                match s.selected_riff_arrangement_uuid {
                    None => (s, None),
                    Some(aid) => match first_match(s.song.riff_arrangements, arrangement_has_id(aid)) {
                        None => (s, None),
                        Some(a) => {
                            let (arr2, found) = resolve_in_riff_arrangement(s.song.riff_arrangements[a], track.id, req, new_id);
                            (
                                with_arrangement(s, a, arr2),
                                match found {
                                    Some((k, sl)) => Some(EventsLocation::Arrangement(a as usize, k, sl)),
                                    None => None,
                                },
                            )
                        },
                    },
                }
            } else {
                match s.automation_edit_type {
                    AutomationEditType::Track => {
                        let (a2, slot) = resolve_in_automation(track.automation, req, true, new_id);
                        (
                            with_track(s, t, TrackView { automation: a2, ..track }),
                            match slot {
                                Some(sl) => Some(EventsLocation::Track(t as usize, sl)),
                                None => None,
                            },
                        )
                    },
                    AutomationEditType::Riff => match selected_riff_of(s, track.id) {
                        None => (s, None),
                        Some(rid) => match first_match(track.riffs, riff_has_id(rid)) {
                            Some(r) => (s, Some(EventsLocation::Riff(t as usize, r as usize))),
                            None => (s, None),
                        },
                    },
                }
            }
        },
    }
}

/// Resolving a request changes nothing but the song.
pub proof fn lemma_resolve_changes_only_song(s: RiffDAWStateView, req: TargetRequest, new_id: ItemId)
    ensures
        resolve_target(s, req, new_id).0 == (RiffDAWStateView { song: resolve_target(s, req, new_id).0.song, ..s }),
{
    match selected_track_index(s) {
        None => {},
        Some(t) => {
            let track = s.song.tracks[t];
            if !track_accepted(req.tracks, track.kind) {
            } else if s.current_view == CurrentView::RiffArrangement {
                match s.selected_riff_arrangement_uuid {
                    None => {},
                    Some(aid) => match first_match(s.song.riff_arrangements, arrangement_has_id(aid)) {
                        None => {},
                        Some(a) => {
                            let (arr2, found) = resolve_in_riff_arrangement(s.song.riff_arrangements[a], track.id, req, new_id);
                            assert(with_arrangement(s, a, arr2) == (RiffDAWStateView { song: with_arrangement(s, a, arr2).song, ..s }));
                        },
                    },
                }
            } else {
                match s.automation_edit_type {
                    AutomationEditType::Track => {
                        let (a2, slot) = resolve_in_automation(track.automation, req, true, new_id);
                        let s2 = with_track(s, t, TrackView { automation: a2, ..track });
                        assert(s2 == (RiffDAWStateView { song: s2.song, ..s }));
                    },
                    AutomationEditType::Riff => {},
                }
            }
        },
    }
}

/// Replacing a list changes nothing but the song.
pub proof fn lemma_with_events_changes_only_song(s: RiffDAWStateView, l: EventsLocation, evs: Seq<TrackEvent>)
    ensures
        with_events_at(s, l, evs) == (RiffDAWStateView { song: with_events_at(s, l, evs).song, ..s }),
{
}

// ---------------------------------------------------------------------------
// Reading and replacing the list at a location.
// ---------------------------------------------------------------------------

pub open spec fn slot_valid(a: AutomationView, slot: AutomationSlot) -> bool {
    match slot {
        AutomationSlot::Events => true,
        AutomationSlot::Envelope(e) => e < a.envelopes.len(),
    }
}

pub open spec fn slot_events(a: AutomationView, slot: AutomationSlot) -> Seq<TrackEvent> {
    match slot {
        AutomationSlot::Events => a.events,
        AutomationSlot::Envelope(e) => a.envelopes[e as int].events,
    }
}

pub open spec fn with_slot_events(a: AutomationView, slot: AutomationSlot, evs: Seq<TrackEvent>) -> AutomationView {
    match slot {
        AutomationSlot::Events => AutomationView { events: evs, ..a },
        AutomationSlot::Envelope(e) => AutomationView {
            envelopes: a.envelopes.update(e as int, AutomationEnvelopeView { events: evs, ..a.envelopes[e as int] }),
            ..a
        },
    }
}

pub open spec fn location_valid(s: RiffDAWStateView, l: EventsLocation) -> bool {
    match l {
        EventsLocation::Arrangement(a, k, slot) => a < s.song.riff_arrangements.len()
            && k < s.song.riff_arrangements[a as int].automations.len()
            && slot_valid(s.song.riff_arrangements[a as int].automations[k as int].automation, slot),
        EventsLocation::Track(t, slot) => t < s.song.tracks.len() && slot_valid(s.song.tracks[t as int].automation, slot),
        EventsLocation::Riff(t, r) => t < s.song.tracks.len() && r < s.song.tracks[t as int].riffs.len(),
    }
}

/// The event list at a location.
pub open spec fn events_at(s: RiffDAWStateView, l: EventsLocation) -> Seq<TrackEvent> {
    match l {
        EventsLocation::Arrangement(a, k, slot) => slot_events(s.song.riff_arrangements[a as int].automations[k as int].automation, slot),
        EventsLocation::Track(t, slot) => slot_events(s.song.tracks[t as int].automation, slot),
        EventsLocation::Riff(t, r) => s.song.tracks[t as int].riffs[r as int].events,
    }
}

/// The state with the event list at a location replaced, and nothing else changed.
pub open spec fn with_events_at(s: RiffDAWStateView, l: EventsLocation, evs: Seq<TrackEvent>) -> RiffDAWStateView {
    match l {
        EventsLocation::Arrangement(a, k, slot) => {
            let arr = s.song.riff_arrangements[a as int];
            let ta = arr.automations[k as int];
            with_arrangement(s, a as int, RiffArrangementView {
                automations: arr.automations.update(k as int, TrackAutomationView {
                    automation: with_slot_events(ta.automation, slot, evs),
                    ..ta
                }),
                ..arr
            })
        },
        EventsLocation::Track(t, slot) => {
            let track = s.song.tracks[t as int];
            with_track(s, t as int, TrackView { automation: with_slot_events(track.automation, slot, evs), ..track })
        },
        EventsLocation::Riff(t, r) => {
            let track = s.song.tracks[t as int];
            with_track(s, t as int, TrackView {
                riffs: track.riffs.update(r as int, RiffView { events: evs, ..track.riffs[r as int] }),
                ..track
            })
        },
    }
}

/// Replacing a slot's list twice is replacing it with the second list.
proof fn lemma_with_slot_events(a: AutomationView, slot: AutomationSlot, x: Seq<TrackEvent>, y: Seq<TrackEvent>)
    requires
        slot_valid(a, slot),
    ensures
        slot_valid(with_slot_events(a, slot, x), slot),
        slot_events(with_slot_events(a, slot, x), slot) == x,
        with_slot_events(with_slot_events(a, slot, x), slot, y) == with_slot_events(a, slot, y),
        with_slot_events(a, slot, slot_events(a, slot)) == a,
{
    match slot {
        AutomationSlot::Events => {},
        AutomationSlot::Envelope(e) => {
            assert(a.envelopes.update(e as int, a.envelopes[e as int]) =~= a.envelopes);
            assert(with_slot_events(with_slot_events(a, slot, x), slot, y).envelopes =~= with_slot_events(a, slot, y).envelopes);
        },
    }
}

proof fn lemma_with_events_in_arrangement(s: RiffDAWStateView, a: usize, k: usize, slot: AutomationSlot, x: Seq<TrackEvent>, y: Seq<TrackEvent>)
    requires
        location_valid(s, EventsLocation::Arrangement(a, k, slot)),
    ensures
        ({
            let l = EventsLocation::Arrangement(a, k, slot);
            &&& location_valid(with_events_at(s, l, x), l)
            &&& events_at(with_events_at(s, l, x), l) == x
            &&& with_events_at(with_events_at(s, l, x), l, y) == with_events_at(s, l, y)
            &&& with_events_at(s, l, events_at(s, l)) == s
        }),
{
    let l = EventsLocation::Arrangement(a, k, slot);
    let arr = s.song.riff_arrangements[a as int];
    let ta = arr.automations[k as int];
    lemma_with_slot_events(ta.automation, slot, x, y);
    assert(arr.automations.update(k as int, ta) =~= arr.automations);
    assert(s.song.riff_arrangements.update(a as int, arr) =~= s.song.riff_arrangements);
    let s1 = with_events_at(s, l, x);
    assert(with_events_at(s1, l, y).song.riff_arrangements[a as int].automations =~= with_events_at(s, l, y).song.riff_arrangements[a as int].automations);
    assert(with_events_at(s1, l, y).song.riff_arrangements =~= with_events_at(s, l, y).song.riff_arrangements);
}

proof fn lemma_with_events_in_track(s: RiffDAWStateView, t: usize, slot: AutomationSlot, x: Seq<TrackEvent>, y: Seq<TrackEvent>)
    requires
        location_valid(s, EventsLocation::Track(t, slot)),
    ensures
        ({
            let l = EventsLocation::Track(t, slot);
            &&& location_valid(with_events_at(s, l, x), l)
            &&& events_at(with_events_at(s, l, x), l) == x
            &&& with_events_at(with_events_at(s, l, x), l, y) == with_events_at(s, l, y)
            &&& with_events_at(s, l, events_at(s, l)) == s
        }),
{
    let l = EventsLocation::Track(t, slot);
    let track = s.song.tracks[t as int];
    lemma_with_slot_events(track.automation, slot, x, y);
    assert(s.song.tracks.update(t as int, track) =~= s.song.tracks);
    let s1 = with_events_at(s, l, x);
    assert(with_events_at(s1, l, y).song.tracks =~= with_events_at(s, l, y).song.tracks);
}

proof fn lemma_with_events_in_riff(s: RiffDAWStateView, t: usize, r: usize, x: Seq<TrackEvent>, y: Seq<TrackEvent>)
    requires
        location_valid(s, EventsLocation::Riff(t, r)),
    ensures
        ({
            let l = EventsLocation::Riff(t, r);
            &&& location_valid(with_events_at(s, l, x), l)
            &&& events_at(with_events_at(s, l, x), l) == x
            &&& with_events_at(with_events_at(s, l, x), l, y) == with_events_at(s, l, y)
            &&& with_events_at(s, l, events_at(s, l)) == s
        }),
{
    let l = EventsLocation::Riff(t, r);
    let track = s.song.tracks[t as int];
    assert(track.riffs.update(r as int, track.riffs[r as int]) =~= track.riffs);
    assert(s.song.tracks.update(t as int, track) =~= s.song.tracks);
    let s1 = with_events_at(s, l, x);
    assert(with_events_at(s1, l, y).song.tracks[t as int].riffs =~= with_events_at(s, l, y).song.tracks[t as int].riffs);
    assert(with_events_at(s1, l, y).song.tracks =~= with_events_at(s, l, y).song.tracks);
}

/// Replacing a list twice is replacing it with the second list; the location stays
/// valid and holds what was put there; putting back what is there changes nothing.
pub proof fn lemma_with_events_at(s: RiffDAWStateView, l: EventsLocation, x: Seq<TrackEvent>, y: Seq<TrackEvent>)
    requires
        location_valid(s, l),
    ensures
        location_valid(with_events_at(s, l, x), l),
        events_at(with_events_at(s, l, x), l) == x,
        with_events_at(with_events_at(s, l, x), l, y) == with_events_at(s, l, y),
        with_events_at(s, l, events_at(s, l)) == s,
{
    match l {
        EventsLocation::Arrangement(a, k, slot) => lemma_with_events_in_arrangement(s, a, k, slot, x, y),
        EventsLocation::Track(t, slot) => lemma_with_events_in_track(s, t, slot, x, y),
        EventsLocation::Riff(t, r) => lemma_with_events_in_riff(s, t, r, x, y),
    }
}

// ---------------------------------------------------------------------------
// Exec: resolving a request and swapping lists in and out.
// ---------------------------------------------------------------------------

/// Views of a vector after one element changed: the other elements keep their views.
proof fn lemma_map_values_update<T, V>(before: Seq<T>, after: Seq<T>, i: int, f: spec_fn(T) -> V)
    requires
        0 <= i < before.len(),
        after.len() == before.len(),
        forall|j: int| 0 <= j < before.len() && j != i ==> after[j] == before[j],
    ensures
        after.map_values(f) == before.map_values(f).update(i, f(after[i])),
{
    assert(after.map_values(f) =~= before.map_values(f).update(i, f(after[i])));
}

fn track_accepts(f: TrackFilter, k: TrackKind) -> (r: bool)
    ensures
        r == track_accepted(f, k),
{
    match f {
        TrackFilter::Instrument => k == TrackKind::Instrument,
        TrackFilter::InstrumentOrAudio => k == TrackKind::Instrument || k == TrackKind::Audio,
        TrackFilter::Any => true,
    }
}

fn resolve_in_automation_exec(a: &mut Automation, req: &TargetRequest, create: bool, new_id: ItemId) -> (r: Option<AutomationSlot>)
    ensures
        (final(a)@, r) == resolve_in_automation(old(a)@, *req, create, new_id),
        r matches Some(sl) ==> slot_valid(final(a)@, sl),
{
    if req.discrete {
        return Some(AutomationSlot::Events);
    }
    match req.envelope {
        None => None,
        Some(er) => match find_envelope(&a.envelopes, &er.find) {
            Some(e) => Some(AutomationSlot::Envelope(e)),
            None => {
                if create {
                    let mut details = er.details;
                    details.set_id(new_id);
                    a.envelopes.push(AutomationEnvelope { event_details: details, events: Vec::new() });
                    proof {
                        assert(a@.envelopes =~= old(a)@.envelopes.push(new_envelope(er.details, new_id)));
                    }
                    match find_envelope(&a.envelopes, &er.refind) {
                        Some(e) => Some(AutomationSlot::Envelope(e)),
                        None => None,
                    }
                } else {
                    None
                }
            },
        },
    }
}

fn resolve_in_riff_arrangement_exec(arr: &mut RiffArrangement, track_id: ItemId, req: &TargetRequest, new_id: ItemId) -> (r: Option<(usize, AutomationSlot)>)
    ensures
        (final(arr)@, r) == resolve_in_riff_arrangement(old(arr)@, track_id, *req, new_id),
        r matches Some((k, sl)) ==> k < final(arr)@.automations.len() && slot_valid(final(arr)@.automations[k as int].automation, sl),
{
    match find_track_automation(&arr.automations, track_id) {
        Some(k) => {
            let ghost before = arr.automations@;
            let slot = resolve_in_automation_exec(&mut arr.automations[k].automation, req, req.create_in_arrangement, new_id);
            proof {
                lemma_map_values_update(before, arr.automations@, k as int, |t: TrackAutomation| t@);
            }
            match slot {
                Some(sl) => Some((k, sl)),
                None => None,
            }
        },
        None => {
            if req.create_in_arrangement {
                let mut a = Automation::new();
                let slot = resolve_in_automation_exec(&mut a, req, true, new_id);
                let k = arr.automations.len();
                arr.automations.push(TrackAutomation { track_id, automation: a });
                proof {
                    assert(arr@.automations =~= old(arr)@.automations.push(TrackAutomationView { track_id, automation: a@ }));
                }
                match slot {
                    Some(sl) => Some((k, sl)),
                    None => None,
                }
            } else {
                None
            }
        },
    }
}

/// Resolves an edit's request: finds the list it works on, creating what the request
/// allows on the way.
pub fn resolve_target_exec(state: &mut RiffDAWState, req: &TargetRequest, new_id: ItemId) -> (r: Option<EventsLocation>)
    ensures
        (final(state)@, r) == resolve_target(old(state)@, *req, new_id),
        r matches Some(l) ==> location_valid(final(state)@, l),
{
    let t = match state.selected_track {
        None => {
            return None;
        },
        Some(id) => match find_track(&state.song.tracks, id) {
            None => {
                return None;
            },
            Some(t) => t,
        },
    };
    if !track_accepts(req.tracks, state.song.tracks[t].kind) {
        return None;
    }
    let track_id = state.song.tracks[t].id;
    match state.current_view {
        CurrentView::RiffArrangement => match state.selected_riff_arrangement_uuid {
            None => None,
            Some(aid) => match find_arrangement(&state.song.riff_arrangements, aid) {
                None => None,
                Some(a) => {
                    let ghost before = state.song.riff_arrangements@;
                    let found = resolve_in_riff_arrangement_exec(&mut state.song.riff_arrangements[a], track_id, req, new_id);
                    proof {
                        lemma_map_values_update(before, state.song.riff_arrangements@, a as int, |t: RiffArrangement| t@);
                    }
                    match found {
                        Some((k, sl)) => Some(EventsLocation::Arrangement(a, k, sl)),
                        None => None,
                    }
                },
            },
        },
        _ => match state.automation_edit_type {
            AutomationEditType::Track => {
                let ghost before = state.song.tracks@;
                let slot = resolve_in_automation_exec(&mut state.song.tracks[t].automation, req, true, new_id);
                proof {
                    lemma_map_values_update(before, state.song.tracks@, t as int, |t: Track| t@);
                }
                match slot {
                    Some(sl) => Some(EventsLocation::Track(t, sl)),
                    None => None,
                }
            },
            AutomationEditType::Riff => match state.selected_riff_uuid(track_id) {
                None => None,
                Some(rid) => match find_riff(&state.song.tracks[t].riffs, rid) {
                    Some(r) => Some(EventsLocation::Riff(t, r)),
                    None => None,
                },
            },
        },
    }
}

fn swap_slot(a: &mut Automation, slot: AutomationSlot, v: &mut Vec<TrackEvent>)
    requires
        slot_valid(old(a)@, slot),
    ensures
        final(a)@ == with_slot_events(old(a)@, slot, old(v)@),
        final(v)@ == slot_events(old(a)@, slot),
{
    match slot {
        AutomationSlot::Events => {
            std::mem::swap(&mut a.events, v);
        },
        AutomationSlot::Envelope(e) => {
            let ghost before = a.envelopes@;
            std::mem::swap(&mut a.envelopes[e].events, v);
            proof {
                lemma_map_values_update(before, a.envelopes@, e as int, |x: AutomationEnvelope| x@);
            }
        },
    }
}

fn swap_in_arrangement(arr: &mut RiffArrangement, k: usize, slot: AutomationSlot, v: &mut Vec<TrackEvent>)
    requires
        k < old(arr)@.automations.len(),
        slot_valid(old(arr)@.automations[k as int].automation, slot),
    ensures
        final(arr)@ == (RiffArrangementView {
            automations: old(arr)@.automations.update(k as int, TrackAutomationView {
                automation: with_slot_events(old(arr)@.automations[k as int].automation, slot, old(v)@),
                ..old(arr)@.automations[k as int]
            }),
            ..old(arr)@
        }),
        final(v)@ == slot_events(old(arr)@.automations[k as int].automation, slot),
{
    let ghost before = arr.automations@;
    swap_slot(&mut arr.automations[k].automation, slot, v);
    proof {
        lemma_map_values_update(before, arr.automations@, k as int, |t: TrackAutomation| t@);
    }
}

fn swap_in_track(track: &mut Track, slot: AutomationSlot, v: &mut Vec<TrackEvent>)
    requires
        slot_valid(old(track)@.automation, slot),
    ensures
        final(track)@ == (TrackView { automation: with_slot_events(old(track)@.automation, slot, old(v)@), ..old(track)@ }),
        final(v)@ == slot_events(old(track)@.automation, slot),
{
    swap_slot(&mut track.automation, slot, v);
}

fn swap_in_riff(track: &mut Track, r: usize, v: &mut Vec<TrackEvent>)
    requires
        r < old(track)@.riffs.len(),
    ensures
        final(track)@ == (TrackView {
            riffs: old(track)@.riffs.update(r as int, RiffView { events: old(v)@, ..old(track)@.riffs[r as int] }),
            ..old(track)@
        }),
        final(v)@ == old(track)@.riffs[r as int].events,
{
    let ghost before = track.riffs@;
    std::mem::swap(&mut track.riffs[r].events, v);
    proof {
        lemma_map_values_update(before, track.riffs@, r as int, |x: crate::domain::Riff| x@);
    }
}

/// Exchanges the list at a location with `v`.
fn swap_events_at(state: &mut RiffDAWState, l: EventsLocation, v: &mut Vec<TrackEvent>)
    requires
        location_valid(old(state)@, l),
    ensures
        final(state)@ == with_events_at(old(state)@, l, old(v)@),
        final(v)@ == events_at(old(state)@, l),
{
    match l {
        EventsLocation::Arrangement(a, k, slot) => {
            let ghost before = state.song.riff_arrangements@;
            swap_in_arrangement(&mut state.song.riff_arrangements[a], k, slot, v);
            proof {
                lemma_map_values_update(before, state.song.riff_arrangements@, a as int, |t: RiffArrangement| t@);
            }
        },
        EventsLocation::Track(t, slot) => {
            let ghost before = state.song.tracks@;
            swap_in_track(&mut state.song.tracks[t], slot, v);
            proof {
                lemma_map_values_update(before, state.song.tracks@, t as int, |t: Track| t@);
            }
        },
        EventsLocation::Riff(t, r) => {
            let ghost before = state.song.tracks@;
            swap_in_riff(&mut state.song.tracks[t], r, v);
            proof {
                lemma_map_values_update(before, state.song.tracks@, t as int, |t: Track| t@);
            }
        },
    }
}

/// Takes the list at a location out, leaving an empty one.
pub fn take_events_at(state: &mut RiffDAWState, l: EventsLocation) -> (r: Vec<TrackEvent>)
    requires
        location_valid(old(state)@, l),
    ensures
        final(state)@ == with_events_at(old(state)@, l, Seq::empty()),
        r@ == events_at(old(state)@, l),
        location_valid(final(state)@, l),
{
    let mut v: Vec<TrackEvent> = Vec::new();
    swap_events_at(state, l, &mut v);
    proof { lemma_with_events_at(old(state)@, l, Seq::empty(), Seq::empty()); }
    v
}

/// Puts a list at a location, in place of what is there.
pub fn put_events_at(state: &mut RiffDAWState, l: EventsLocation, v: Vec<TrackEvent>)
    requires
        location_valid(old(state)@, l),
    ensures
        final(state)@ == with_events_at(old(state)@, l, v@),
{
    let mut v = v;
    swap_events_at(state, l, &mut v);
}

/// The list at a location, for reading.
pub fn events_ref_at(state: &RiffDAWState, l: EventsLocation) -> (r: &Vec<TrackEvent>)
    requires
        location_valid(state@, l),
    ensures
        r@ == events_at(state@, l),
{
    match l {
        EventsLocation::Arrangement(a, k, slot) => {
            let automation = &state.song.riff_arrangements[a].automations[k].automation;
            match slot {
                AutomationSlot::Events => &automation.events,
                AutomationSlot::Envelope(e) => &automation.envelopes[e].events,
            }
        },
        EventsLocation::Track(t, slot) => {
            let automation = &state.song.tracks[t].automation;
            match slot {
                AutomationSlot::Events => &automation.events,
                AutomationSlot::Envelope(e) => &automation.envelopes[e].events,
            }
        },
        EventsLocation::Riff(t, r) => &state.song.tracks[t].riffs[r].events,
    }
}

/// The song's lists are no longer than a machine index can count, as they are in a state
/// held in memory.
pub open spec fn lists_fit(s: RiffDAWStateView) -> bool {
    &&& s.song.tracks.len() <= usize::MAX
    &&& forall|t: int| 0 <= t < s.song.tracks.len() ==> (#[trigger] s.song.tracks[t]).riffs.len() <= usize::MAX
    &&& s.song.riff_arrangements.len() <= usize::MAX
    &&& forall|a: int| 0 <= a < s.song.riff_arrangements.len() ==> (#[trigger] s.song.riff_arrangements[a]).automations.len() <= usize::MAX
}

/// The lists of a state held in memory fit a machine index.
pub proof fn lemma_state_lists_fit(state: &RiffDAWState)
    ensures
        lists_fit(state@),
{
    broadcast use vstd::std_specs::vec::axiom_spec_len;
    let s = state@;
    assert(state.song.tracks.len() == state.song.tracks@.len());
    assert(state.song.riff_arrangements.len() == state.song.riff_arrangements@.len());
    assert forall|t: int| 0 <= t < s.song.tracks.len() implies (#[trigger] s.song.tracks[t]).riffs.len() <= usize::MAX by {
        let tr = state.song.tracks@[t];
        assert(tr.riffs.len() == tr.riffs@.len());
        assert(s.song.tracks[t] == tr@);
    }
    assert forall|a: int| 0 <= a < s.song.riff_arrangements.len() implies (#[trigger] s.song.riff_arrangements[a]).automations.len() <= usize::MAX by {
        let arr = state.song.riff_arrangements@[a];
        assert(arr.automations.len() == arr.automations@.len());
        assert(s.song.riff_arrangements[a] == arr@);
    }
}

/// A request for discrete events that creates nothing changes nothing when resolved, finds
/// a valid location, and after that list is replaced resolves to the same location again.
pub proof fn lemma_discrete_resolution(s: RiffDAWStateView, req: TargetRequest, new_id: ItemId, evs: Seq<TrackEvent>)
    requires
        lists_fit(s),
        req.discrete,
        !req.create_in_arrangement,
    ensures
        resolve_target(s, req, new_id).0 == s,
        match resolve_target(s, req, new_id).1 {
            Some(l) => location_valid(s, l)
                && resolve_target(with_events_at(s, l, evs), req, new_id) == (with_events_at(s, l, evs), Some(l)),
            None => true,
        },
{
    match s.selected_track {
        None => {},
        Some(sel) => match first_match(s.song.tracks, crate::domain::track_has_id(sel)) {
            None => {},
            Some(t) => {
                lemma_first_match(s.song.tracks, crate::domain::track_has_id(sel));
                let track = s.song.tracks[t];
                if !track_accepted(req.tracks, track.kind) {
                } else if s.current_view == CurrentView::RiffArrangement {
                    match s.selected_riff_arrangement_uuid {
                        None => {},
                        Some(aid) => match first_match(s.song.riff_arrangements, arrangement_has_id(aid)) {
                            None => {},
                            Some(a) => {
                                lemma_first_match(s.song.riff_arrangements, arrangement_has_id(aid));
                                let arr = s.song.riff_arrangements[a];
                                match first_match(arr.automations, automation_for_track(track.id)) {
                                    Some(k) => {
                                        lemma_first_match(arr.automations, automation_for_track(track.id));
                                        let ta = arr.automations[k];
                                        assert(arr.automations.update(k, TrackAutomationView { automation: ta.automation, ..ta }) =~= arr.automations);
                                        assert(s.song.riff_arrangements.update(a, arr) =~= s.song.riff_arrangements);
                                        assert(resolve_target(s, req, new_id).0 == s);
                                        let l = EventsLocation::Arrangement(a as usize, k as usize, AutomationSlot::Events);
                                        assert(resolve_target(s, req, new_id).1 == Some(l));
                                        let s2 = with_events_at(s, l, evs);
                                        let arrs2 = s2.song.riff_arrangements;
                                        assert(s2.song.tracks == s.song.tracks);
                                        assert forall|i: int| 0 <= i < arrs2.len() implies (arrangement_has_id(aid))(#[trigger] arrs2[i])
                                            == (arrangement_has_id(aid))(s.song.riff_arrangements[i]) by {
                                            if i != a {
                                                assert(arrs2[i] == s.song.riff_arrangements[i]);
                                            }
                                        }
                                        lemma_first_match_alike(arrs2, arrangement_has_id(aid), s.song.riff_arrangements, arrangement_has_id(aid));
                                        let arr2 = arrs2[a];
                                        assert forall|i: int| 0 <= i < arr2.automations.len() implies (automation_for_track(track.id))(#[trigger] arr2.automations[i])
                                            == (automation_for_track(track.id))(arr.automations[i]) by {
                                            if i != k {
                                                assert(arr2.automations[i] == arr.automations[i]);
                                            }
                                        }
                                        lemma_first_match_alike(arr2.automations, automation_for_track(track.id), arr.automations, automation_for_track(track.id));
                                        let ta2 = arr2.automations[k];
                                        assert(arr2.automations.update(k, TrackAutomationView { automation: ta2.automation, ..ta2 }) =~= arr2.automations);
                                        assert(arrs2.update(a, arr2) =~= arrs2);
                                    },
                                    None => {
                                        assert(s.song.riff_arrangements.update(a, arr) =~= s.song.riff_arrangements);
                                    },
                                }
                            },
                        },
                    }
                } else {
                    match s.automation_edit_type {
                        AutomationEditType::Track => {
                            assert(s.song.tracks.update(t, TrackView { automation: track.automation, ..track }) =~= s.song.tracks);
                            let l = EventsLocation::Track(t as usize, AutomationSlot::Events);
                            let s2 = with_events_at(s, l, evs);
                            let tracks2 = s2.song.tracks;
                            assert forall|i: int| 0 <= i < tracks2.len() implies (crate::domain::track_has_id(sel))(#[trigger] tracks2[i])
                                == (crate::domain::track_has_id(sel))(s.song.tracks[i]) by {
                                if i != t {
                                    assert(tracks2[i] == s.song.tracks[i]);
                                }
                            }
                            lemma_first_match_alike(tracks2, crate::domain::track_has_id(sel), s.song.tracks, crate::domain::track_has_id(sel));
                            let track2 = tracks2[t];
                            assert(tracks2.update(t, TrackView { automation: track2.automation, ..track2 }) =~= tracks2);
                        },
                        AutomationEditType::Riff => match selected_riff_of(s, track.id) {
                            None => {},
                            Some(rid) => match first_match(track.riffs, riff_has_id(rid)) {
                                None => {},
                                Some(r) => {
                                    lemma_first_match(track.riffs, riff_has_id(rid));
                                    let l = EventsLocation::Riff(t as usize, r as usize);
                                    let s2 = with_events_at(s, l, evs);
                                    let tracks2 = s2.song.tracks;
                                    assert forall|i: int| 0 <= i < tracks2.len() implies (crate::domain::track_has_id(sel))(#[trigger] tracks2[i])
                                        == (crate::domain::track_has_id(sel))(s.song.tracks[i]) by {
                                        if i != t {
                                            assert(tracks2[i] == s.song.tracks[i]);
                                        }
                                    }
                                    lemma_first_match_alike(tracks2, crate::domain::track_has_id(sel), s.song.tracks, crate::domain::track_has_id(sel));
                                    let track2 = tracks2[t];
                                    assert(selected_riff_of(s2, track2.id) == selected_riff_of(s, track.id));
                                    assert forall|i: int| 0 <= i < track2.riffs.len() implies (riff_has_id(rid))(#[trigger] track2.riffs[i])
                                        == (riff_has_id(rid))(track.riffs[i]) by {
                                        if i != r {
                                            assert(track2.riffs[i] == track.riffs[i]);
                                        }
                                    }
                                    lemma_first_match_alike(track2.riffs, riff_has_id(rid), track.riffs, riff_has_id(rid));
                                },
                            },
                        },
                    }
                }
            },
        },
    }
}

} // verus!
