//! The application state that the handlers read and change, with its view.
use vstd::prelude::*;
use crate::domain::{ItemId, NoteExpressionType, Song, SongView, Track, TrackEvent, TrackKind, TrackView, track_has_id};
use crate::event::{
    AudioLayerEvent, AutomationEditType, AutomationViewMode, Command, CurrentView,
    MidiPolyphonicExpressionNoteId, PlayMode, TrackBackgroundProcessorInwardEvent,
};

verus! {

/// A plugin found by a scan: its details (library path and more, `:`-separated) and its name.
pub struct ScannedPlugin {
    pub details: String,
    pub name: String,
}

pub struct ScannedPluginView {
    pub details: Seq<char>,
    pub name: Seq<char>,
}

impl View for ScannedPlugin {
    type V = ScannedPluginView;

    open spec fn view(&self) -> ScannedPluginView {
        ScannedPluginView { details: self.details@, name: self.name@ }
    }
}

/// Audio settings and plugin search paths.
pub struct Configuration {
    pub sample_rate: i32,
    pub block_size: i32,
    pub vst24_plugin_paths: Vec<String>,
    pub clap_plugin_paths: Vec<String>,
    pub vst3_plugin_paths: Vec<String>,
    pub scanned_instrument_plugins: Vec<ScannedPlugin>,
    pub scanned_effect_plugins: Vec<ScannedPlugin>,
}

pub struct ConfigurationView {
    pub sample_rate: i32,
    pub block_size: i32,
    pub vst24_plugin_paths: Seq<Seq<char>>,
    pub clap_plugin_paths: Seq<Seq<char>>,
    pub vst3_plugin_paths: Seq<Seq<char>>,
    pub scanned_instrument_plugins: Seq<ScannedPluginView>,
    pub scanned_effect_plugins: Seq<ScannedPluginView>,
}

impl View for Configuration {
    type V = ConfigurationView;

    open spec fn view(&self) -> ConfigurationView {
        ConfigurationView {
            sample_rate: self.sample_rate,
            block_size: self.block_size,
            vst24_plugin_paths: self.vst24_plugin_paths@.map_values(|s: String| s@),
            clap_plugin_paths: self.clap_plugin_paths@.map_values(|s: String| s@),
            vst3_plugin_paths: self.vst3_plugin_paths@.map_values(|s: String| s@),
            scanned_instrument_plugins: self.scanned_instrument_plugins@.map_values(|p: ScannedPlugin| p@),
            scanned_effect_plugins: self.scanned_effect_plugins@.map_values(|p: ScannedPlugin| p@),
        }
    }
}

/// The riff selected on a track.
#[derive(Clone, Copy, PartialEq, Eq, Structural, Debug)]
pub struct TrackRiffSelection {
    pub track_id: ItemId,
    pub riff_id: ItemId,
}

/// A note being recorded: its number and where it started.
#[derive(Clone, Copy, PartialEq, Eq, Structural, Debug)]
pub struct RecordedNote {
    pub note: i32,
    pub position: i64,
}

/// The whole state of the application that the handlers work on.
pub struct RiffDAWState {
    pub configuration: Configuration,
    pub song: Song,
    pub selected_track: Option<ItemId>,
    pub selected_riffs: Vec<TrackRiffSelection>,
    pub selected_riff_events: Vec<ItemId>,
    pub selected_automation: Vec<ItemId>,
    pub current_view: CurrentView,
    pub automation_view_mode: AutomationViewMode,
    pub automation_edit_type: AutomationEditType,
    pub automation_discrete: bool,
    pub controller_type_index: Option<i32>,
    pub instrument_parameter_type: Option<i32>,
    pub effect_parameter_type: Option<i32>,
    pub view_note_expression_type: NoteExpressionType,
    pub note_expression_type: NoteExpressionType,
    pub note_expression_id: i32,
    pub note_expression_port_index: i16,
    pub note_expression_channel: i16,
    pub note_expression_key: i16,
    pub selected_effect_plugin_uuid: Option<ItemId>,
    pub piano_roll_mpe_note_id: MidiPolyphonicExpressionNoteId,
    pub looping: bool,
    pub active_loop: Option<ItemId>,
    pub playing: bool,
    pub recording: bool,
    pub play_mode: PlayMode,
    pub playing_riff_set: Option<ItemId>,
    pub play_position_in_frames: u32,
    pub selected_riff_arrangement_uuid: Option<ItemId>,
    pub playing_riff_arrangement: Option<ItemId>,
    pub riff_arrangement_riff_item_selected: Option<(ItemId, ItemId)>,
    pub add_riff_arrangement_name: String,
    pub recorded_playing_notes: Vec<RecordedNote>,
    pub automation_event_copy_buffer: Vec<TrackEvent>,
    pub current_file_path: Option<String>,
    pub track_grid_edit_cursor_position: i64,
    pub audio_layer_connected: bool,
    pub outbox: Vec<Command>,
}

pub struct RiffDAWStateView {
    pub configuration: ConfigurationView,
    pub song: SongView,
    pub selected_track: Option<ItemId>,
    pub selected_riffs: Seq<TrackRiffSelection>,
    pub selected_riff_events: Seq<ItemId>,
    pub selected_automation: Seq<ItemId>,
    pub current_view: CurrentView,
    pub automation_view_mode: AutomationViewMode,
    pub automation_edit_type: AutomationEditType,
    pub automation_discrete: bool,
    pub controller_type_index: Option<i32>,
    pub instrument_parameter_type: Option<i32>,
    pub effect_parameter_type: Option<i32>,
    pub view_note_expression_type: NoteExpressionType,
    pub note_expression_type: NoteExpressionType,
    pub note_expression_id: i32,
    pub note_expression_port_index: i16,
    pub note_expression_channel: i16,
    pub note_expression_key: i16,
    pub selected_effect_plugin_uuid: Option<ItemId>,
    pub piano_roll_mpe_note_id: MidiPolyphonicExpressionNoteId,
    pub looping: bool,
    pub active_loop: Option<ItemId>,
    pub playing: bool,
    pub recording: bool,
    pub play_mode: PlayMode,
    pub playing_riff_set: Option<ItemId>,
    pub play_position_in_frames: u32,
    pub selected_riff_arrangement_uuid: Option<ItemId>,
    pub playing_riff_arrangement: Option<ItemId>,
    pub riff_arrangement_riff_item_selected: Option<(ItemId, ItemId)>,
    pub add_riff_arrangement_name: Seq<char>,
    pub recorded_playing_notes: Seq<RecordedNote>,
    pub automation_event_copy_buffer: Seq<TrackEvent>,
    pub current_file_path: Option<Seq<char>>,
    pub track_grid_edit_cursor_position: i64,
    pub audio_layer_connected: bool,
    pub outbox: Seq<Command>,
}

pub open spec fn opt_string_view(s: Option<String>) -> Option<Seq<char>> {
    match s {
        Some(s) => Some(s@),
        None => None,
    }
}

impl View for RiffDAWState {
    type V = RiffDAWStateView;

    open spec fn view(&self) -> RiffDAWStateView {
        RiffDAWStateView {
            configuration: self.configuration@,
            song: self.song@,
            selected_track: self.selected_track,
            selected_riffs: self.selected_riffs@,
            selected_riff_events: self.selected_riff_events@,
            selected_automation: self.selected_automation@,
            current_view: self.current_view,
            automation_view_mode: self.automation_view_mode,
            automation_edit_type: self.automation_edit_type,
            automation_discrete: self.automation_discrete,
            controller_type_index: self.controller_type_index,
            instrument_parameter_type: self.instrument_parameter_type,
            effect_parameter_type: self.effect_parameter_type,
            view_note_expression_type: self.view_note_expression_type,
            note_expression_type: self.note_expression_type,
            note_expression_id: self.note_expression_id,
            note_expression_port_index: self.note_expression_port_index,
            note_expression_channel: self.note_expression_channel,
            note_expression_key: self.note_expression_key,
            selected_effect_plugin_uuid: self.selected_effect_plugin_uuid,
            piano_roll_mpe_note_id: self.piano_roll_mpe_note_id,
            looping: self.looping,
            active_loop: self.active_loop,
            playing: self.playing,
            recording: self.recording,
            play_mode: self.play_mode,
            playing_riff_set: self.playing_riff_set,
            play_position_in_frames: self.play_position_in_frames,
            selected_riff_arrangement_uuid: self.selected_riff_arrangement_uuid,
            playing_riff_arrangement: self.playing_riff_arrangement,
            riff_arrangement_riff_item_selected: self.riff_arrangement_riff_item_selected,
            add_riff_arrangement_name: self.add_riff_arrangement_name@,
            recorded_playing_notes: self.recorded_playing_notes@,
            automation_event_copy_buffer: self.automation_event_copy_buffer@,
            current_file_path: opt_string_view(self.current_file_path),
            track_grid_edit_cursor_position: self.track_grid_edit_cursor_position,
            audio_layer_connected: self.audio_layer_connected,
            outbox: self.outbox@,
        }
    }
}

// ---------------------------------------------------------------------------
// Selection queries.
// ---------------------------------------------------------------------------

pub open spec fn selection_for_track(track_id: ItemId) -> spec_fn(TrackRiffSelection) -> bool {
    |s: TrackRiffSelection| s.track_id == track_id
}

/// The riff selected on a track, if any.
pub open spec fn selected_riff_of(s: RiffDAWStateView, track_id: ItemId) -> Option<ItemId> {
    match crate::seq_search::first_match(s.selected_riffs, selection_for_track(track_id)) {
        Some(i) => Some(s.selected_riffs[i].riff_id),
        None => None,
    }
}

impl RiffDAWState {
    /// The riff selected on a track, if any.
    pub fn selected_riff_uuid(&self, track_id: ItemId) -> (r: Option<ItemId>)
        ensures
            r == selected_riff_of(self@, track_id),
    {
        let mut i: usize = 0;
        while i < self.selected_riffs.len()
            invariant
                i <= self.selected_riffs@.len(),
                forall|j: int| 0 <= j < i ==> !selection_for_track(track_id)(#[trigger] self.selected_riffs@[j]),
            decreases self.selected_riffs@.len() - i,
        {
            if self.selected_riffs[i].track_id == track_id {
                proof {
                    crate::seq_search::lemma_first_match_at(self.selected_riffs@, selection_for_track(track_id), i as int);
                }
                return Some(self.selected_riffs[i].riff_id);
            }
            i = i + 1;
        }
        proof { crate::seq_search::lemma_first_match_none(self.selected_riffs@, selection_for_track(track_id)); }
        None
    }

    /// Hand a command on to the application.
    pub fn send(&mut self, c: Command)
        ensures
            final(self)@ == (RiffDAWStateView { outbox: old(self)@.outbox.push(c), ..old(self)@ }),
    {
        self.outbox.push(c);
    }

    /// Hand an event on to a track's background processor.
    pub fn send_to_track_background_processor(&mut self, track_id: ItemId, e: TrackBackgroundProcessorInwardEvent)
        ensures
            final(self)@ == (RiffDAWStateView {
                outbox: old(self)@.outbox.push(Command::ToTrack(track_id, e)),
                ..old(self)@
            }),
    {
        self.outbox.push(Command::ToTrack(track_id, e));
    }

    /// Hand an event on to the audio layer, when one is connected.
    pub fn send_to_audio_layer(&mut self, e: AudioLayerEvent)
        ensures
            final(self)@ == (RiffDAWStateView {
                outbox: with_audio(old(self)@.outbox, old(self)@.audio_layer_connected, e),
                ..old(self)@
            }),
    {
        if self.audio_layer_connected {
            self.outbox.push(Command::ToAudioLayer(e));
        }
    }
}

/// The outbox after an event for the audio layer was offered: it is sent only when
/// an audio layer is connected.
pub open spec fn with_audio(outbox: Seq<Command>, connected: bool, e: AudioLayerEvent) -> Seq<Command> {
    if connected {
        outbox.push(Command::ToAudioLayer(e))
    } else {
        outbox
    }
}

/// The MIDI channel the immediate notes of a track go out on: a MIDI track's own, 0 for others.
pub open spec fn midi_channel_of(t: TrackView) -> i32 {
    if t.kind == TrackKind::Midi {
        t.midi_channel
    } else {
        0
    }
}

pub fn track_midi_channel(t: &Track) -> (r: i32)
    ensures
        r == midi_channel_of(t@),
{
    match t.kind {
        TrackKind::Midi => t.midi_channel,
        _ => 0,
    }
}

/// The commands made for each track in turn, concatenated.
pub open spec fn per_track(tracks: Seq<TrackView>, f: spec_fn(TrackView) -> Seq<Command>) -> Seq<Command>
    decreases tracks.len(),
{
    if tracks.len() == 0 {
        Seq::empty()
    } else {
        per_track(tracks.drop_last(), f) + f(tracks.last())
    }
}

pub proof fn lemma_per_track_step(tracks: Seq<TrackView>, f: spec_fn(TrackView) -> Seq<Command>, i: int)
    requires
        0 <= i < tracks.len(),
    ensures
        per_track(tracks.take(i + 1), f) == per_track(tracks.take(i), f) + f(tracks[i]),
{
    assert(tracks.take(i + 1).drop_last() =~= tracks.take(i));
}

pub proof fn lemma_per_track_all(tracks: Seq<TrackView>, f: spec_fn(TrackView) -> Seq<Command>)
    ensures
        per_track(tracks.take(tracks.len() as int), f) == per_track(tracks, f),
{
    assert(tracks.take(tracks.len() as int) =~= tracks);
}

/// One command for the processor of each track.
pub open spec fn to_each_track(e: TrackBackgroundProcessorInwardEvent) -> spec_fn(TrackView) -> Seq<Command> {
    |t: TrackView| seq![Command::ToTrack(t.id, e)]
}

/// The index of the selected track in the song, if a track is selected and found.
pub open spec fn selected_track_index(s: RiffDAWStateView) -> Option<int> {
    match s.selected_track {
        Some(id) => crate::seq_search::first_match(s.song.tracks, track_has_id(id)),
        None => None,
    }
}

} // verus!
