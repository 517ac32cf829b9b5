//! The song model: events, riffs, tracks, loops, riff sets, sequences, grids and
//! arrangements, each with a mathematical view.
//!
//! Positions and lengths are counted in thousandths of a beat; continuous
//! parameter values are counted in thousandths of their full scale.
use vstd::prelude::*;
use crate::seq_search::{first_match, lemma_first_match_at, lemma_first_match_none};

verus! {

/// Identifier of a song item (the 128 bits of a UUID).
pub type ItemId = u128;

/// Thousandths of a beat in one beat.
pub const MILLIBEATS_PER_BEAT: i64 = 1000;

/// The kinds of note expression that an envelope can carry.
#[derive(Clone, Copy, PartialEq, Eq, Structural, Debug)]
pub enum NoteExpressionType {
    Volume,
    Pan,
    Tuning,
    Vibrato,
    Expression,
    Brightness,
    Pressure,
}

#[derive(Clone, Copy, PartialEq, Eq, Structural, Debug)]
pub struct Note {
    pub id: ItemId,
    pub position: i64,
    pub note: i32,
    pub velocity: i32,
    pub length: i64,
    pub note_id: i32,
}

#[derive(Clone, Copy, PartialEq, Eq, Structural, Debug)]
pub struct NoteExpression {
    pub id: ItemId,
    pub position: i64,
    pub expression_type: NoteExpressionType,
    pub port: i16,
    pub channel: i16,
    pub note_id: i32,
    pub key: i16,
    pub value: i32,
}

#[derive(Clone, Copy, PartialEq, Eq, Structural, Debug)]
pub struct Controller {
    pub id: ItemId,
    pub position: i64,
    pub controller: i32,
    pub value: i32,
}

#[derive(Clone, Copy, PartialEq, Eq, Structural, Debug)]
pub struct PitchBend {
    pub id: ItemId,
    pub position: i64,
    pub value: i32,
}

#[derive(Clone, Copy, PartialEq, Eq, Structural, Debug)]
pub struct PluginParameter {
    pub id: ItemId,
    pub plugin_uuid: ItemId,
    pub instrument: bool,
    pub position: i64,
    pub index: i32,
    pub value: i32,
}

/// An event of a riff, of a track's automation or of an envelope.
#[derive(Clone, Copy, PartialEq, Eq, Structural, Debug)]
pub enum TrackEvent {
    Note(Note),
    NoteExpression(NoteExpression),
    Controller(Controller),
    PitchBend(PitchBend),
    AudioPluginParameter(PluginParameter),
}

impl TrackEvent {
    pub open spec fn pos(self) -> i64 {
        match self {
            TrackEvent::Note(e) => e.position,
            TrackEvent::NoteExpression(e) => e.position,
            TrackEvent::Controller(e) => e.position,
            TrackEvent::PitchBend(e) => e.position,
            TrackEvent::AudioPluginParameter(e) => e.position,
        }
    }

    pub open spec fn ident(self) -> ItemId {
        match self {
            TrackEvent::Note(e) => e.id,
            TrackEvent::NoteExpression(e) => e.id,
            TrackEvent::Controller(e) => e.id,
            TrackEvent::PitchBend(e) => e.id,
            TrackEvent::AudioPluginParameter(e) => e.id,
        }
    }

    /// The event with its position replaced.
    pub open spec fn with_pos(self, p: i64) -> TrackEvent {
        match self {
            TrackEvent::Note(e) => TrackEvent::Note(Note { position: p, ..e }),
            TrackEvent::NoteExpression(e) => TrackEvent::NoteExpression(NoteExpression { position: p, ..e }),
            TrackEvent::Controller(e) => TrackEvent::Controller(Controller { position: p, ..e }),
            TrackEvent::PitchBend(e) => TrackEvent::PitchBend(PitchBend { position: p, ..e }),
            TrackEvent::AudioPluginParameter(e) => TrackEvent::AudioPluginParameter(PluginParameter { position: p, ..e }),
        }
    }

    /// The event with its identifier replaced.
    pub open spec fn with_ident(self, i: ItemId) -> TrackEvent {
        match self {
            TrackEvent::Note(e) => TrackEvent::Note(Note { id: i, ..e }),
            TrackEvent::NoteExpression(e) => TrackEvent::NoteExpression(NoteExpression { id: i, ..e }),
            TrackEvent::Controller(e) => TrackEvent::Controller(Controller { id: i, ..e }),
            TrackEvent::PitchBend(e) => TrackEvent::PitchBend(PitchBend { id: i, ..e }),
            TrackEvent::AudioPluginParameter(e) => TrackEvent::AudioPluginParameter(PluginParameter { id: i, ..e }),
        }
    }

    pub fn position(&self) -> (r: i64)
        ensures
            r == self.pos(),
    {
        match self {
            TrackEvent::Note(e) => e.position,
            TrackEvent::NoteExpression(e) => e.position,
            TrackEvent::Controller(e) => e.position,
            TrackEvent::PitchBend(e) => e.position,
            TrackEvent::AudioPluginParameter(e) => e.position,
        }
    }

    pub fn id(&self) -> (r: ItemId)
        ensures
            r == self.ident(),
    {
        match self {
            TrackEvent::Note(e) => e.id,
            TrackEvent::NoteExpression(e) => e.id,
            TrackEvent::Controller(e) => e.id,
            TrackEvent::PitchBend(e) => e.id,
            TrackEvent::AudioPluginParameter(e) => e.id,
        }
    }

    pub fn set_position(&mut self, p: i64)
        ensures
            *final(self) == old(self).with_pos(p),
    {
        match self {
            TrackEvent::Note(e) => e.position = p,
            TrackEvent::NoteExpression(e) => e.position = p,
            TrackEvent::Controller(e) => e.position = p,
            TrackEvent::PitchBend(e) => e.position = p,
            TrackEvent::AudioPluginParameter(e) => e.position = p,
        }
    }

    pub fn set_id(&mut self, i: ItemId)
        ensures
            *final(self) == old(self).with_ident(i),
    {
        match self {
            TrackEvent::Note(e) => e.id = i,
            TrackEvent::NoteExpression(e) => e.id = i,
            TrackEvent::Controller(e) => e.id = i,
            TrackEvent::PitchBend(e) => e.id = i,
            TrackEvent::AudioPluginParameter(e) => e.id = i,
        }
    }
}

/// An automation envelope: its kind (given by an event's details) and its points.
pub struct AutomationEnvelope {
    pub event_details: TrackEvent,
    pub events: Vec<TrackEvent>,
}

pub struct AutomationEnvelopeView {
    pub event_details: TrackEvent,
    pub events: Seq<TrackEvent>,
}

impl View for AutomationEnvelope {
    type V = AutomationEnvelopeView;

    open spec fn view(&self) -> AutomationEnvelopeView {
        AutomationEnvelopeView { event_details: self.event_details, events: self.events@ }
    }
}

/// Discrete automation events and continuous envelopes.
pub struct Automation {
    pub events: Vec<TrackEvent>,
    pub envelopes: Vec<AutomationEnvelope>,
}

pub struct AutomationView {
    pub events: Seq<TrackEvent>,
    pub envelopes: Seq<AutomationEnvelopeView>,
}

impl View for Automation {
    type V = AutomationView;

    open spec fn view(&self) -> AutomationView {
        AutomationView {
            events: self.events@,
            envelopes: self.envelopes@.map_values(|e: AutomationEnvelope| e@),
        }
    }
}

pub open spec fn empty_automation() -> AutomationView {
    AutomationView { events: Seq::empty(), envelopes: Seq::empty() }
}

impl Automation {
    pub fn new() -> (r: Automation)
        ensures
            r@ == empty_automation(),
    {
        let r = Automation { events: Vec::new(), envelopes: Vec::new() };
        assert(r@.envelopes =~= Seq::<AutomationEnvelopeView>::empty());
        r
    }
}

/// A riff: a named, fixed-length run of events.
pub struct Riff {
    pub id: ItemId,
    pub name: String,
    pub length: i64,
    pub events: Vec<TrackEvent>,
}

pub struct RiffView {
    pub id: ItemId,
    pub name: Seq<char>,
    pub length: i64,
    pub events: Seq<TrackEvent>,
}

impl View for Riff {
    type V = RiffView;

    open spec fn view(&self) -> RiffView {
        RiffView { id: self.id, name: self.name@, length: self.length, events: self.events@ }
    }
}

/// A placement of a riff at a position.
#[derive(Clone, Copy, PartialEq, Eq, Structural, Debug)]
pub struct RiffReference {
    pub id: ItemId,
    pub linked_to: ItemId,
    pub position: i64,
}

/// An audio plugin's description.
pub struct AudioPlugin {
    pub id: ItemId,
    pub name: String,
    pub descriptive_name: String,
    pub file: String,
    pub format: String,
    pub category: String,
    pub manufacturer: String,
    pub version: String,
    pub is_instrument: bool,
    pub plugin_type: String,
    pub preset_data: String,
}

pub struct AudioPluginView {
    pub id: ItemId,
    pub name: Seq<char>,
    pub descriptive_name: Seq<char>,
    pub file: Seq<char>,
    pub format: Seq<char>,
    pub category: Seq<char>,
    pub manufacturer: Seq<char>,
    pub version: Seq<char>,
    pub is_instrument: bool,
    pub plugin_type: Seq<char>,
    pub preset_data: Seq<char>,
}

impl View for AudioPlugin {
    type V = AudioPluginView;

    open spec fn view(&self) -> AudioPluginView {
        AudioPluginView {
            id: self.id,
            name: self.name@,
            descriptive_name: self.descriptive_name@,
            file: self.file@,
            format: self.format@,
            category: self.category@,
            manufacturer: self.manufacturer@,
            version: self.version@,
            is_instrument: self.is_instrument,
            plugin_type: self.plugin_type@,
            preset_data: self.preset_data@,
        }
    }
}

/// The three kinds of track.
#[derive(Clone, Copy, PartialEq, Eq, Structural, Debug)]
pub enum TrackKind {
    Instrument,
    Audio,
    Midi,
}

/// A track with its riffs, riff placements and automation.
pub struct Track {
    pub id: ItemId,
    pub kind: TrackKind,
    pub name: String,
    pub midi_channel: i32,
    pub mute: bool,
    pub solo: bool,
    pub pan: i32,
    pub instrument: AudioPlugin,
    pub effects: Vec<AudioPlugin>,
    pub riffs: Vec<Riff>,
    pub riff_refs: Vec<RiffReference>,
    pub automation: Automation,
}

pub struct TrackView {
    pub id: ItemId,
    pub kind: TrackKind,
    pub name: Seq<char>,
    pub midi_channel: i32,
    pub mute: bool,
    pub solo: bool,
    pub pan: i32,
    pub instrument: AudioPluginView,
    pub effects: Seq<AudioPluginView>,
    pub riffs: Seq<RiffView>,
    pub riff_refs: Seq<RiffReference>,
    pub automation: AutomationView,
}

impl View for Track {
    type V = TrackView;

    open spec fn view(&self) -> TrackView {
        TrackView {
            id: self.id,
            kind: self.kind,
            name: self.name@,
            midi_channel: self.midi_channel,
            mute: self.mute,
            solo: self.solo,
            pan: self.pan,
            instrument: self.instrument@,
            effects: self.effects@.map_values(|p: AudioPlugin| p@),
            riffs: self.riffs@.map_values(|r: Riff| r@),
            riff_refs: self.riff_refs@,
            automation: self.automation@,
        }
    }
}

/// A loop: a named stretch of the song.
pub struct Loop {
    pub id: ItemId,
    pub name: String,
    pub start_position: u64,
    pub end_position: u64,
}

pub struct LoopView {
    pub id: ItemId,
    pub name: Seq<char>,
    pub start_position: u64,
    pub end_position: u64,
}

impl View for Loop {
    type V = LoopView;

    open spec fn view(&self) -> LoopView {
        LoopView {
            id: self.id,
            name: self.name@,
            start_position: self.start_position,
            end_position: self.end_position,
        }
    }
}

/// What a riff item of an arrangement or sequence refers to.
#[derive(Clone, Copy, PartialEq, Eq, Structural, Debug)]
pub enum RiffItemType {
    RiffSet,
    RiffSequence,
    RiffGrid,
}

/// An entry of a riff arrangement or sequence.
#[derive(Clone, Copy, PartialEq, Eq, Structural, Debug)]
pub struct RiffItem {
    pub id: ItemId,
    pub item_type: RiffItemType,
    pub item_uuid: ItemId,
}

/// The riff a riff set plays on one track.
#[derive(Clone, Copy, PartialEq, Eq, Structural, Debug)]
pub struct TrackRiffReference {
    pub track_id: ItemId,
    pub riff_ref: RiffReference,
}

pub struct RiffSet {
    pub id: ItemId,
    pub name: String,
    pub riff_refs: Vec<TrackRiffReference>,
}

pub struct RiffSetView {
    pub id: ItemId,
    pub name: Seq<char>,
    pub riff_refs: Seq<TrackRiffReference>,
}

impl View for RiffSet {
    type V = RiffSetView;

    open spec fn view(&self) -> RiffSetView {
        RiffSetView { id: self.id, name: self.name@, riff_refs: self.riff_refs@ }
    }
}

pub struct RiffSequence {
    pub id: ItemId,
    pub name: String,
    pub riff_sets: Vec<RiffItem>,
}

pub struct RiffSequenceView {
    pub id: ItemId,
    pub name: Seq<char>,
    pub riff_sets: Seq<RiffItem>,
}

impl View for RiffSequence {
    type V = RiffSequenceView;

    open spec fn view(&self) -> RiffSequenceView {
        RiffSequenceView { id: self.id, name: self.name@, riff_sets: self.riff_sets@ }
    }
}

/// The riff placements of one track in a riff grid.
pub struct TrackRiffReferences {
    pub track_id: ItemId,
    pub riff_refs: Vec<RiffReference>,
}

pub struct TrackRiffReferencesView {
    pub track_id: ItemId,
    pub riff_refs: Seq<RiffReference>,
}

impl View for TrackRiffReferences {
    type V = TrackRiffReferencesView;

    open spec fn view(&self) -> TrackRiffReferencesView {
        TrackRiffReferencesView { track_id: self.track_id, riff_refs: self.riff_refs@ }
    }
}

pub struct RiffGrid {
    pub id: ItemId,
    pub name: String,
    pub tracks: Vec<TrackRiffReferences>,
}

pub struct RiffGridView {
    pub id: ItemId,
    pub name: Seq<char>,
    pub tracks: Seq<TrackRiffReferencesView>,
}

impl View for RiffGrid {
    type V = RiffGridView;

    open spec fn view(&self) -> RiffGridView {
        RiffGridView {
            id: self.id,
            name: self.name@,
            tracks: self.tracks@.map_values(|t: TrackRiffReferences| t@),
        }
    }
}

/// The automation a riff arrangement holds for one track.
pub struct TrackAutomation {
    pub track_id: ItemId,
    pub automation: Automation,
}

pub struct TrackAutomationView {
    pub track_id: ItemId,
    pub automation: AutomationView,
}

impl View for TrackAutomation {
    type V = TrackAutomationView;

    open spec fn view(&self) -> TrackAutomationView {
        TrackAutomationView { track_id: self.track_id, automation: self.automation@ }
    }
}

pub struct RiffArrangement {
    pub id: ItemId,
    pub name: String,
    pub items: Vec<RiffItem>,
    pub automations: Vec<TrackAutomation>,
}

pub struct RiffArrangementView {
    pub id: ItemId,
    pub name: Seq<char>,
    pub items: Seq<RiffItem>,
    pub automations: Seq<TrackAutomationView>,
}

impl View for RiffArrangement {
    type V = RiffArrangementView;

    open spec fn view(&self) -> RiffArrangementView {
        RiffArrangementView {
            id: self.id,
            name: self.name@,
            items: self.items@,
            automations: self.automations@.map_values(|a: TrackAutomation| a@),
        }
    }
}

/// The song: tempo, time signature and all its parts.
pub struct Song {
    pub name: String,
    pub tempo: u32,
    pub time_signature_numerator: i32,
    pub time_signature_denominator: i32,
    pub tracks: Vec<Track>,
    pub loops: Vec<Loop>,
    pub riff_sets: Vec<RiffSet>,
    pub riff_sequences: Vec<RiffSequence>,
    pub riff_grids: Vec<RiffGrid>,
    pub riff_arrangements: Vec<RiffArrangement>,
}

pub struct SongView {
    pub name: Seq<char>,
    pub tempo: u32,
    pub time_signature_numerator: i32,
    pub time_signature_denominator: i32,
    pub tracks: Seq<TrackView>,
    pub loops: Seq<LoopView>,
    pub riff_sets: Seq<RiffSetView>,
    pub riff_sequences: Seq<RiffSequenceView>,
    pub riff_grids: Seq<RiffGridView>,
    pub riff_arrangements: Seq<RiffArrangementView>,
}

impl View for Song {
    type V = SongView;

    open spec fn view(&self) -> SongView {
        SongView {
            name: self.name@,
            tempo: self.tempo,
            time_signature_numerator: self.time_signature_numerator,
            time_signature_denominator: self.time_signature_denominator,
            tracks: self.tracks@.map_values(|t: Track| t@),
            loops: self.loops@.map_values(|l: Loop| l@),
            riff_sets: self.riff_sets@.map_values(|r: RiffSet| r@),
            riff_sequences: self.riff_sequences@.map_values(|r: RiffSequence| r@),
            riff_grids: self.riff_grids@.map_values(|r: RiffGrid| r@),
            riff_arrangements: self.riff_arrangements@.map_values(|r: RiffArrangement| r@),
        }
    }
}

// ---------------------------------------------------------------------------
// Lookup predicates, shared by the contracts of the handlers.
// ---------------------------------------------------------------------------

pub open spec fn track_has_id(id: ItemId) -> spec_fn(TrackView) -> bool {
    |t: TrackView| t.id == id
}

pub open spec fn riff_has_id(id: ItemId) -> spec_fn(RiffView) -> bool {
    |r: RiffView| r.id == id
}

pub open spec fn loop_has_id(id: ItemId) -> spec_fn(LoopView) -> bool {
    |l: LoopView| l.id == id
}

pub open spec fn arrangement_has_id(id: ItemId) -> spec_fn(RiffArrangementView) -> bool {
    |a: RiffArrangementView| a.id == id
}

pub open spec fn automation_for_track(id: ItemId) -> spec_fn(TrackAutomationView) -> bool {
    |a: TrackAutomationView| a.track_id == id
}

pub open spec fn item_has_id(id: ItemId) -> spec_fn(RiffItem) -> bool {
    |i: RiffItem| i.id == id
}

pub open spec fn event_has_id(id: ItemId) -> spec_fn(TrackEvent) -> bool {
    |e: TrackEvent| e.ident() == id
}

pub open spec fn riff_set_has_id(id: ItemId) -> spec_fn(RiffSetView) -> bool {
    |r: RiffSetView| r.id == id
}

pub open spec fn riff_sequence_has_id(id: ItemId) -> spec_fn(RiffSequenceView) -> bool {
    |r: RiffSequenceView| r.id == id
}

pub open spec fn riff_grid_has_id(id: ItemId) -> spec_fn(RiffGridView) -> bool {
    |r: RiffGridView| r.id == id
}

// ---------------------------------------------------------------------------
// Exec lookups.
// ---------------------------------------------------------------------------

/// The index of the first track with the given id.
pub fn find_track(tracks: &Vec<Track>, id: ItemId) -> (r: Option<usize>)
    ensures
        r matches Some(i) ==> first_match(tracks@.map_values(|t: Track| t@), track_has_id(id)) == Some(i as int),
        r is None ==> first_match(tracks@.map_values(|t: Track| t@), track_has_id(id)) is None,
        r matches Some(i) ==> i < tracks@.len(),
{
    let ghost s = tracks@.map_values(|t: Track| t@);
    let mut i: usize = 0;
    while i < tracks.len()
        invariant
            i <= tracks@.len(),
            s == tracks@.map_values(|t: Track| t@),
            forall|j: int| 0 <= j < i ==> !track_has_id(id)(#[trigger] s[j]),
        decreases tracks@.len() - i,
    {
        if tracks[i].id == id {
            proof { lemma_first_match_at(s, track_has_id(id), i as int); }
            return Some(i);
        }
        i = i + 1;
    }
    proof { lemma_first_match_none(s, track_has_id(id)); }
    None
}

/// The index of the first riff with the given id.
pub fn find_riff(riffs: &Vec<Riff>, id: ItemId) -> (r: Option<usize>)
    ensures
        r matches Some(i) ==> first_match(riffs@.map_values(|t: Riff| t@), riff_has_id(id)) == Some(i as int),
        r is None ==> first_match(riffs@.map_values(|t: Riff| t@), riff_has_id(id)) is None,
        r matches Some(i) ==> i < riffs@.len(),
{
    let ghost s = riffs@.map_values(|t: Riff| t@);
    let mut i: usize = 0;
    while i < riffs.len()
        invariant
            i <= riffs@.len(),
            s == riffs@.map_values(|t: Riff| t@),
            forall|j: int| 0 <= j < i ==> !riff_has_id(id)(#[trigger] s[j]),
        decreases riffs@.len() - i,
    {
        if riffs[i].id == id {
            proof { lemma_first_match_at(s, riff_has_id(id), i as int); }
            return Some(i);
        }
        i = i + 1;
    }
    proof { lemma_first_match_none(s, riff_has_id(id)); }
    None
}

/// The index of the first loop with the given id.
pub fn find_loop(loops: &Vec<Loop>, id: ItemId) -> (r: Option<usize>)
    ensures
        r matches Some(i) ==> first_match(loops@.map_values(|t: Loop| t@), loop_has_id(id)) == Some(i as int),
        r is None ==> first_match(loops@.map_values(|t: Loop| t@), loop_has_id(id)) is None,
        r matches Some(i) ==> i < loops@.len(),
{
    let ghost s = loops@.map_values(|t: Loop| t@);
    let mut i: usize = 0;
    while i < loops.len()
        invariant
            i <= loops@.len(),
            s == loops@.map_values(|t: Loop| t@),
            forall|j: int| 0 <= j < i ==> !loop_has_id(id)(#[trigger] s[j]),
        decreases loops@.len() - i,
    {
        if loops[i].id == id {
            proof { lemma_first_match_at(s, loop_has_id(id), i as int); }
            return Some(i);
        }
        i = i + 1;
    }
    proof { lemma_first_match_none(s, loop_has_id(id)); }
    None
}

/// The index of the first riff arrangement with the given id.
pub fn find_arrangement(arrangements: &Vec<RiffArrangement>, id: ItemId) -> (r: Option<usize>)
    ensures
        r matches Some(i) ==> first_match(arrangements@.map_values(|t: RiffArrangement| t@), arrangement_has_id(id)) == Some(i as int),
        r is None ==> first_match(arrangements@.map_values(|t: RiffArrangement| t@), arrangement_has_id(id)) is None,
        r matches Some(i) ==> i < arrangements@.len(),
{
    let ghost s = arrangements@.map_values(|t: RiffArrangement| t@);
    let mut i: usize = 0;
    while i < arrangements.len()
        invariant
            i <= arrangements@.len(),
            s == arrangements@.map_values(|t: RiffArrangement| t@),
            forall|j: int| 0 <= j < i ==> !arrangement_has_id(id)(#[trigger] s[j]),
        decreases arrangements@.len() - i,
    {
        if arrangements[i].id == id {
            proof { lemma_first_match_at(s, arrangement_has_id(id), i as int); }
            return Some(i);
        }
        i = i + 1;
    }
    proof { lemma_first_match_none(s, arrangement_has_id(id)); }
    None
}

/// The index of the first automation of an arrangement that belongs to the given track.
pub fn find_track_automation(automations: &Vec<TrackAutomation>, id: ItemId) -> (r: Option<usize>)
    ensures
        r matches Some(i) ==> first_match(automations@.map_values(|t: TrackAutomation| t@), automation_for_track(id)) == Some(i as int),
        r is None ==> first_match(automations@.map_values(|t: TrackAutomation| t@), automation_for_track(id)) is None,
        r matches Some(i) ==> i < automations@.len(),
{
    let ghost s = automations@.map_values(|t: TrackAutomation| t@);
    let mut i: usize = 0;
    while i < automations.len()
        invariant
            i <= automations@.len(),
            s == automations@.map_values(|t: TrackAutomation| t@),
            forall|j: int| 0 <= j < i ==> !automation_for_track(id)(#[trigger] s[j]),
        decreases automations@.len() - i,
    {
        if automations[i].track_id == id {
            proof { lemma_first_match_at(s, automation_for_track(id), i as int); }
            return Some(i);
        }
        i = i + 1;
    }
    proof { lemma_first_match_none(s, automation_for_track(id)); }
    None
}

/// The index of the first riff item with the given id.
pub fn find_item(items: &Vec<RiffItem>, id: ItemId) -> (r: Option<usize>)
    ensures
        r matches Some(i) ==> first_match(items@, item_has_id(id)) == Some(i as int),
        r is None ==> first_match(items@, item_has_id(id)) is None,
        r matches Some(i) ==> i < items@.len(),
{
    let mut i: usize = 0;
    while i < items.len()
        invariant
            i <= items@.len(),
            forall|j: int| 0 <= j < i ==> !item_has_id(id)(#[trigger] items@[j]),
        decreases items@.len() - i,
    {
        if items[i].id == id {
            proof { lemma_first_match_at(items@, item_has_id(id), i as int); }
            return Some(i);
        }
        i = i + 1;
    }
    proof { lemma_first_match_none(items@, item_has_id(id)); }
    None
}

/// The index of the first event with the given id.
pub fn find_event(events: &Vec<TrackEvent>, id: ItemId) -> (r: Option<usize>)
    ensures
        r matches Some(i) ==> first_match(events@, event_has_id(id)) == Some(i as int),
        r is None ==> first_match(events@, event_has_id(id)) is None,
        r matches Some(i) ==> i < events@.len(),
{
    let mut i: usize = 0;
    while i < events.len()
        invariant
            i <= events@.len(),
            forall|j: int| 0 <= j < i ==> !event_has_id(id)(#[trigger] events@[j]),
        decreases events@.len() - i,
    {
        if events[i].id() == id {
            proof { lemma_first_match_at(events@, event_has_id(id), i as int); }
            return Some(i);
        }
        i = i + 1;
    }
    proof { lemma_first_match_none(events@, event_has_id(id)); }
    None
}

/// The index of the first riff set with the given id.
pub fn find_riff_set(sets: &Vec<RiffSet>, id: ItemId) -> (r: Option<usize>)
    ensures
        r matches Some(i) ==> first_match(sets@.map_values(|t: RiffSet| t@), riff_set_has_id(id)) == Some(i as int),
        r is None ==> first_match(sets@.map_values(|t: RiffSet| t@), riff_set_has_id(id)) is None,
        r matches Some(i) ==> i < sets@.len(),
{
    let ghost s = sets@.map_values(|t: RiffSet| t@);
    let mut i: usize = 0;
    while i < sets.len()
        invariant
            i <= sets@.len(),
            s == sets@.map_values(|t: RiffSet| t@),
            forall|j: int| 0 <= j < i ==> !riff_set_has_id(id)(#[trigger] s[j]),
        decreases sets@.len() - i,
    {
        if sets[i].id == id {
            proof { lemma_first_match_at(s, riff_set_has_id(id), i as int); }
            return Some(i);
        }
        i = i + 1;
    }
    proof { lemma_first_match_none(s, riff_set_has_id(id)); }
    None
}

/// The index of the first riff sequence with the given id.
pub fn find_riff_sequence(seqs: &Vec<RiffSequence>, id: ItemId) -> (r: Option<usize>)
    ensures
        r matches Some(i) ==> first_match(seqs@.map_values(|t: RiffSequence| t@), riff_sequence_has_id(id)) == Some(i as int),
        r is None ==> first_match(seqs@.map_values(|t: RiffSequence| t@), riff_sequence_has_id(id)) is None,
        r matches Some(i) ==> i < seqs@.len(),
{
    let ghost s = seqs@.map_values(|t: RiffSequence| t@);
    let mut i: usize = 0;
    while i < seqs.len()
        invariant
            i <= seqs@.len(),
            s == seqs@.map_values(|t: RiffSequence| t@),
            forall|j: int| 0 <= j < i ==> !riff_sequence_has_id(id)(#[trigger] s[j]),
        decreases seqs@.len() - i,
    {
        if seqs[i].id == id {
            proof { lemma_first_match_at(s, riff_sequence_has_id(id), i as int); }
            return Some(i);
        }
        i = i + 1;
    }
    proof { lemma_first_match_none(s, riff_sequence_has_id(id)); }
    None
}

/// The index of the first riff grid with the given id.
pub fn find_riff_grid(grids: &Vec<RiffGrid>, id: ItemId) -> (r: Option<usize>)
    ensures
        r matches Some(i) ==> first_match(grids@.map_values(|t: RiffGrid| t@), riff_grid_has_id(id)) == Some(i as int),
        r is None ==> first_match(grids@.map_values(|t: RiffGrid| t@), riff_grid_has_id(id)) is None,
        r matches Some(i) ==> i < grids@.len(),
{
    let ghost s = grids@.map_values(|t: RiffGrid| t@);
    let mut i: usize = 0;
    while i < grids.len()
        invariant
            i <= grids@.len(),
            s == grids@.map_values(|t: RiffGrid| t@),
            forall|j: int| 0 <= j < i ==> !riff_grid_has_id(id)(#[trigger] s[j]),
        decreases grids@.len() - i,
    {
        if grids[i].id == id {
            proof { lemma_first_match_at(s, riff_grid_has_id(id), i as int); }
            return Some(i);
        }
        i = i + 1;
    }
    proof { lemma_first_match_none(s, riff_grid_has_id(id)); }
    None
}

// ---------------------------------------------------------------------------
// Copies.
// ---------------------------------------------------------------------------

/// A copy of a vector of plain values.
pub fn copy_vec<T: Copy>(v: &Vec<T>) -> (r: Vec<T>)
    ensures
        r@ == v@,
{
    let mut out: Vec<T> = Vec::new();
    let mut i: usize = 0;
    while i < v.len()
        invariant
            i <= v@.len(),
            out@ == v@.take(i as int),
        decreases v@.len() - i,
    {
        out.push(v[i]);
        assert(v@.take(i + 1) =~= v@.take(i as int).push(v@[i as int]));
        i = i + 1;
    }
    assert(v@.take(v@.len() as int) =~= v@);
    out
}

impl Automation {
    /// A copy of the automation.
    pub fn duplicate(&self) -> (r: Automation)
        ensures
            r@ == self@,
    {
        let mut envelopes: Vec<AutomationEnvelope> = Vec::new();
        let mut i: usize = 0;
        while i < self.envelopes.len()
            invariant
                i <= self.envelopes@.len(),
                envelopes@.map_values(|e: AutomationEnvelope| e@) == self.envelopes@.map_values(|e: AutomationEnvelope| e@).take(i as int),
            decreases self.envelopes@.len() - i,
        {
            let e = &self.envelopes[i];
            let copy = AutomationEnvelope { event_details: e.event_details, events: copy_vec(&e.events) };
            assert(copy@ == e@);
            let ghost before = envelopes@;
            envelopes.push(copy);
            assert(envelopes@.map_values(|e: AutomationEnvelope| e@) =~= before.map_values(|e: AutomationEnvelope| e@).push(copy@));
            assert(envelopes@.map_values(|e: AutomationEnvelope| e@) =~= self.envelopes@.map_values(|e: AutomationEnvelope| e@).take(i + 1));
            i = i + 1;
        }
        assert(self.envelopes@.map_values(|e: AutomationEnvelope| e@).take(self.envelopes@.len() as int) =~= self.envelopes@.map_values(|e: AutomationEnvelope| e@));
        Automation { events: copy_vec(&self.events), envelopes }
    }
}

impl RiffArrangement {
    /// A copy of the arrangement.
    pub fn duplicate(&self) -> (r: RiffArrangement)
        ensures
            r@ == self@,
    {
        let mut automations: Vec<TrackAutomation> = Vec::new();
        let mut i: usize = 0;
        while i < self.automations.len()
            invariant
                i <= self.automations@.len(),
                automations@.map_values(|a: TrackAutomation| a@) == self.automations@.map_values(|a: TrackAutomation| a@).take(i as int),
            decreases self.automations@.len() - i,
        {
            let a = &self.automations[i];
            let copy = TrackAutomation { track_id: a.track_id, automation: a.automation.duplicate() };
            assert(copy@ == a@);
            let ghost before = automations@;
            automations.push(copy);
            assert(automations@.map_values(|a: TrackAutomation| a@) =~= before.map_values(|a: TrackAutomation| a@).push(copy@));
            assert(automations@.map_values(|a: TrackAutomation| a@) =~= self.automations@.map_values(|a: TrackAutomation| a@).take(i + 1));
            i = i + 1;
        }
        assert(self.automations@.map_values(|a: TrackAutomation| a@).take(self.automations@.len() as int) =~= self.automations@.map_values(|a: TrackAutomation| a@));
        RiffArrangement { id: self.id, name: self.name.clone(), items: copy_vec(&self.items), automations }
    }
}

} // verus!
