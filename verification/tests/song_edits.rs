use riff_daw_core::actions::daw_actions::{
    daw_events_AudioConfigurationChanged,
    daw_events_MasterChannelChange, daw_events_Notification, daw_events_Panic,
    daw_events_PlayNoteImmediate, daw_events_PlayPositionInBeats, daw_events_Shutdown,
    daw_events_TrimAllNoteDurations, daw_events_Undo,
};
use riff_daw_core::actions::file_operations::{
    daw_events_ExportWaveFile, daw_events_ImportMidiFile, daw_events_NewFile,
    daw_events_OpenFile, daw_events_OpenFileLoaded, daw_events_Save, daw_events_SaveAs,
};
use riff_daw_core::actions::loop_change_actions::{
    block_of, daw_events_LoopChange, loop_change_type_ActiveLoopChanged, loop_change_type_Added,
    loop_change_type_Deleted, loop_change_type_LoopLimitLeftChanged, loop_change_type_LoopOff,
    loop_change_type_LoopOn, loop_change_type_NameChanged,
};
use riff_daw_core::actions::midi_actions::{
    midi_AudioLayerOutwardEvent_GeneralMMCEvent, midi_AudioLayerOutwardEvent_PlayPositionInFrames,
    midi_AudioLayerTimeCriticalOutwardEvent_MidiEvent,
};
use riff_daw_core::actions::piano_roll_actions::daw_events_PianoRollMPENoteIdChange;
use riff_daw_core::actions::riff_arrangement_actions::{
    daw_events_RiffArrangementAdd, daw_events_RiffArrangementCopy,
    daw_events_RiffArrangementDelete, daw_events_RiffArrangementMoveRiffItemToPosition,
    daw_events_RiffArrangementNameChange, daw_events_RiffArrangementPlay,
    daw_events_RiffArrangementRiffItemAdd, daw_events_RiffArrangementRiffItemDelete,
    daw_events_RiffArrangementRiffItemSelect, daw_events_RiffArrangementSelected,
};
use riff_daw_core::actions::riff_reference_actions::daw_events_RiffReferenceRegenerateIds;
use riff_daw_core::domain::{
    AudioPlugin, Automation, Loop, Note, Riff, RiffArrangement, RiffItem, RiffItemType,
    RiffReference, RiffSet, Song, Track, TrackEvent, TrackKind, TrackRiffReference,
};
use riff_daw_core::event::{
    AudioLayerEvent, AudioLayerInwardEvent, AudioMode, AutomationEditType, AutomationViewMode,
    Command, CurrentView, LoopChangeType, MasterChannelChangeType, MessageLevel, MidiMessage,
    MidiPolyphonicExpressionNoteId, NotificationType, PlayMode, TrackBackgroundProcessorInwardEvent,
};
use riff_daw_core::domain::NoteExpressionType;
use riff_daw_core::midi_import::{ImportedMidiEvent, MidiFileContents, TimedMidiEvent};
use riff_daw_core::state::{Configuration, RiffDAWState, TrackRiffSelection};

fn an_instrument(id: u128) -> AudioPlugin {
    AudioPlugin {
        id,
        name: String::new(),
        descriptive_name: String::new(),
        file: String::new(),
        format: String::new(),
        category: String::new(),
        manufacturer: String::new(),
        version: String::new(),
        is_instrument: true,
        plugin_type: String::new(),
        preset_data: String::new(),
    }
}

fn a_track(id: u128, kind: TrackKind, riffs: Vec<Riff>) -> Track {
    Track {
        id,
        kind,
        name: format!("track {}", id),
        midi_channel: 3,
        mute: false,
        solo: false,
        pan: 0,
        instrument: an_instrument(100 + id),
        effects: vec![],
        riffs,
        riff_refs: vec![],
        automation: Automation { events: vec![], envelopes: vec![] },
    }
}

fn a_riff(id: u128, length: i64) -> Riff {
    Riff { id, name: format!("riff {}", id), length, events: vec![] }
}

fn a_state(tracks: Vec<Track>) -> RiffDAWState {
    RiffDAWState {
        configuration: Configuration {
            sample_rate: 48000,
            block_size: 1000,
            vst24_plugin_paths: vec![],
            clap_plugin_paths: vec![],
            vst3_plugin_paths: vec![],
            scanned_instrument_plugins: vec![],
            scanned_effect_plugins: vec![],
        },
        song: Song {
            name: "song".to_string(),
            tempo: 120,
            time_signature_numerator: 3,
            time_signature_denominator: 4,
            tracks,
            loops: vec![],
            riff_sets: vec![],
            riff_sequences: vec![],
            riff_grids: vec![],
            riff_arrangements: vec![],
        },
        selected_track: None,
        selected_riffs: vec![],
        selected_riff_events: vec![],
        selected_automation: vec![],
        current_view: CurrentView::Track,
        automation_view_mode: AutomationViewMode::NoteVelocities,
        automation_edit_type: AutomationEditType::Track,
        automation_discrete: true,
        controller_type_index: None,
        instrument_parameter_type: None,
        effect_parameter_type: None,
        view_note_expression_type: NoteExpressionType::Volume,
        note_expression_type: NoteExpressionType::Volume,
        note_expression_id: -1,
        note_expression_port_index: 0,
        note_expression_channel: 0,
        note_expression_key: 0,
        selected_effect_plugin_uuid: None,
        piano_roll_mpe_note_id: MidiPolyphonicExpressionNoteId::ALL,
        looping: false,
        active_loop: None,
        playing: false,
        recording: false,
        play_mode: PlayMode::Song,
        playing_riff_set: None,
        play_position_in_frames: 0,
        selected_riff_arrangement_uuid: None,
        playing_riff_arrangement: None,
        riff_arrangement_riff_item_selected: None,
        add_riff_arrangement_name: "new".to_string(),
        recorded_playing_notes: vec![],
        automation_event_copy_buffer: vec![],
        current_file_path: None,
        track_grid_edit_cursor_position: 0,
        audio_layer_connected: true,
        outbox: vec![],
    }
}

fn is_to_track(c: &Command, track: u128, e: TrackBackgroundProcessorInwardEvent) -> bool {
    matches!(c, Command::ToTrack(t, x) if *t == track && *x == e)
}

fn is_audio(c: &Command, e: AudioLayerEvent) -> bool {
    matches!(c, Command::ToAudioLayer(x) if *x == e)
}

// ---------------------------------------------------------------------------
// General events.
// ---------------------------------------------------------------------------

#[test]
fn panic_stops_every_note_on_every_track() {
    let mut state = a_state(vec![a_track(1, TrackKind::Midi, vec![]), a_track(2, TrackKind::Instrument, vec![])]);
    daw_events_Panic(&mut state);
    assert_eq!(state.outbox.len(), 256);
    assert!(is_to_track(&state.outbox[0], 1, TrackBackgroundProcessorInwardEvent::StopNoteImmediate(0, 3)));
    assert!(is_to_track(&state.outbox[127], 1, TrackBackgroundProcessorInwardEvent::StopNoteImmediate(127, 3)));
    assert!(is_to_track(&state.outbox[128], 2, TrackBackgroundProcessorInwardEvent::StopNoteImmediate(0, 0)));
}

#[test]
fn immediate_notes_go_to_the_selected_track() {
    let mut state = a_state(vec![a_track(1, TrackKind::Midi, vec![])]);
    daw_events_PlayNoteImmediate(&mut state, 60);
    assert!(state.outbox.is_empty());
    state.selected_track = Some(1);
    daw_events_PlayNoteImmediate(&mut state, 60);
    assert!(is_to_track(&state.outbox[0], 1, TrackBackgroundProcessorInwardEvent::PlayNoteImmediate(60, 3)));
}

#[test]
fn master_channel_changes_go_to_a_connected_audio_layer() {
    let mut state = a_state(vec![]);
    daw_events_MasterChannelChange(&mut state, MasterChannelChangeType::PanChange(-5));
    assert!(is_audio(&state.outbox[0], AudioLayerEvent::AudioLayerInward(AudioLayerInwardEvent::Pan(-5))));
    state.audio_layer_connected = false;
    daw_events_MasterChannelChange(&mut state, MasterChannelChangeType::VolumeChange(3));
    assert_eq!(state.outbox.len(), 1);
}

#[test]
fn trimming_shortens_instrument_notes_only() {
    let note = |id, length| TrackEvent::Note(Note { id, position: 0, note: 60, velocity: 100, length, note_id: -1 });
    let mut riff = a_riff(5, 4000);
    riff.events = vec![note(1, 500), note(2, 5)];
    let mut midi_riff = a_riff(6, 4000);
    midi_riff.events = vec![note(3, 500)];
    let mut state = a_state(vec![a_track(1, TrackKind::Instrument, vec![riff]), a_track(2, TrackKind::Midi, vec![midi_riff])]);
    daw_events_TrimAllNoteDurations(&mut state);
    let lengths: Vec<i64> = state.song.tracks[0].riffs[0].events.iter().map(|e| match e { TrackEvent::Note(n) => n.length, _ => 0 }).collect();
    assert_eq!(lengths, vec![490, -5]);
    assert!(matches!(state.song.tracks[1].riffs[0].events[0], TrackEvent::Note(n) if n.length == 500));
}

#[test]
fn shutdown_coasts_kills_and_shuts_down() {
    let mut state = a_state(vec![a_track(1, TrackKind::Midi, vec![])]);
    daw_events_Shutdown(&mut state);
    assert_eq!(state.outbox.len(), 3);
    assert!(is_audio(&state.outbox[0], AudioLayerEvent::AudioMode(AudioMode::Coast)));
    assert!(is_to_track(&state.outbox[1], 1, TrackBackgroundProcessorInwardEvent::Kill));
    assert!(is_audio(&state.outbox[2], AudioLayerEvent::AudioLayerInward(AudioLayerInwardEvent::Shutdown)));
}

#[test]
fn undo_and_notifications_become_commands() {
    let mut state = a_state(vec![]);
    daw_events_Undo(&mut state);
    daw_events_Notification(&mut state, NotificationType::Warning, "careful".to_string());
    assert!(matches!(state.outbox[0], Command::Undo));
    assert!(matches!(&state.outbox[1], Command::ShowMessage(MessageLevel::Warning, m) if m == "careful"));
}

#[test]
fn play_position_in_beats_sets_frames_and_blocks() {
    let mut state = a_state(vec![a_track(1, TrackKind::Midi, vec![])]);
    daw_events_PlayPositionInBeats(&mut state, 4000);
    assert_eq!(state.play_position_in_frames, 96000);
    assert!(is_to_track(&state.outbox[0], 1, TrackBackgroundProcessorInwardEvent::SetBlockPosition(96)));
    state.song.tempo = 0;
    daw_events_PlayPositionInBeats(&mut state, 4000);
    assert_eq!(state.play_position_in_frames, u32::MAX);
}

// ---------------------------------------------------------------------------
// Loops.
// ---------------------------------------------------------------------------

#[test]
fn loop_blocks_round_toward_zero() {
    assert_eq!(block_of(4000, 48000, 1000), 192);
    assert_eq!(block_of(1, 48000, 1000), 0);
    assert_eq!(block_of(5, 1, 0), i32::MAX);
    assert_eq!(block_of(0, 1, 0), 0);
}

#[test]
fn looping_on_sends_the_active_loop_extents() {
    let mut state = a_state(vec![a_track(1, TrackKind::Midi, vec![])]);
    loop_change_type_Added(&mut state, "verse".to_string(), 9);
    state.song.loops[0].start_position = 1000;
    state.song.loops[0].end_position = 3000;
    state.active_loop = Some(9);
    loop_change_type_LoopOn(&mut state);
    assert!(state.looping);
    assert!(is_audio(&state.outbox[0], AudioLayerEvent::AudioLayerInward(AudioLayerInwardEvent::ExtentsChange(96))));
    assert!(is_to_track(&state.outbox[1], 1, TrackBackgroundProcessorInwardEvent::LoopExtents(48, 144)));
    assert!(is_to_track(&state.outbox[2], 1, TrackBackgroundProcessorInwardEvent::Loop(true)));
    loop_change_type_LoopOff(&mut state);
    assert!(!state.looping);
    assert!(is_to_track(&state.outbox[3], 1, TrackBackgroundProcessorInwardEvent::Loop(false)));
}

#[test]
fn looping_on_without_an_active_loop_uses_default_extents() {
    let mut state = a_state(vec![a_track(1, TrackKind::Midi, vec![])]);
    daw_events_LoopChange(&mut state, LoopChangeType::LoopOn, 0);
    assert!(is_to_track(&state.outbox[0], 1, TrackBackgroundProcessorInwardEvent::LoopExtents(0, 44)));
}

#[test]
fn loop_limits_move_and_are_sent() {
    let mut state = a_state(vec![a_track(1, TrackKind::Midi, vec![])]);
    state.song.loops = vec![Loop { id: 4, name: "l".to_string(), start_position: 0, end_position: 2000 }];
    loop_change_type_ActiveLoopChanged(&mut state, Some(4));
    assert_eq!(state.active_loop, Some(4));
    loop_change_type_LoopLimitLeftChanged(&mut state, 1000);
    assert_eq!(state.song.loops[0].start_position, 1000);
    assert!(is_to_track(&state.outbox[1], 1, TrackBackgroundProcessorInwardEvent::LoopExtents(48, 96)));
}

#[test]
fn loop_added_renamed_and_deleted() {
    let mut state = a_state(vec![]);
    loop_change_type_Added(&mut state, "a".to_string(), 1);
    loop_change_type_Added(&mut state, "b".to_string(), 2);
    loop_change_type_NameChanged(&mut state, "c".to_string(), 2);
    assert_eq!(state.song.loops[1].name, "c");
    loop_change_type_Deleted(&mut state, 1);
    assert_eq!(state.song.loops.len(), 1);
    assert_eq!(state.song.loops[0].id, 2);
    loop_change_type_Deleted(&mut state, 2);
    assert!(state.song.loops.is_empty());
}

// ---------------------------------------------------------------------------
// Riff arrangements.
// ---------------------------------------------------------------------------

fn item(id: u128, item_type: RiffItemType, item_uuid: u128) -> RiffItem {
    RiffItem { id, item_type, item_uuid }
}

#[test]
fn arrangement_add_makes_an_automation_per_track() {
    let mut state = a_state(vec![a_track(1, TrackKind::Midi, vec![]), a_track(2, TrackKind::Audio, vec![])]);
    daw_events_RiffArrangementAdd(&mut state, 50);
    let arrangement = &state.song.riff_arrangements[0];
    assert_eq!(arrangement.id, 50);
    assert_eq!(arrangement.name, "new");
    let tracks: Vec<u128> = arrangement.automations.iter().map(|a| a.track_id).collect();
    assert_eq!(tracks, vec![1, 2]);
    daw_events_RiffArrangementNameChange(&mut state, 50, "renamed".to_string());
    assert_eq!(state.song.riff_arrangements[0].name, "renamed");
    daw_events_RiffArrangementSelected(&mut state, 50);
    assert_eq!(state.selected_riff_arrangement_uuid, Some(50));
    daw_events_RiffArrangementDelete(&mut state, 50);
    assert!(state.song.riff_arrangements.is_empty());
}

#[test]
fn arrangement_items_are_added_after_the_selection_moved_and_deleted() {
    let mut state = a_state(vec![]);
    state.song.riff_arrangements = vec![RiffArrangement {
        id: 50,
        name: "a".to_string(),
        items: vec![item(1, RiffItemType::RiffSet, 10), item(2, RiffItemType::RiffSet, 11)],
        automations: vec![],
    }];
    daw_events_RiffArrangementRiffItemAdd(&mut state, 50, 12, RiffItemType::RiffGrid);
    assert_eq!(state.song.riff_arrangements[0].items[2].item_uuid, 12);
    daw_events_RiffArrangementRiffItemSelect(&mut state, 50, 1, true);
    daw_events_RiffArrangementRiffItemAdd(&mut state, 50, 13, RiffItemType::RiffSequence);
    let refs: Vec<u128> = state.song.riff_arrangements[0].items.iter().map(|i| i.item_uuid).collect();
    assert_eq!(refs, vec![10, 13, 11, 12]);
    daw_events_RiffArrangementMoveRiffItemToPosition(&mut state, 50, 2, 0);
    let ids: Vec<u128> = state.song.riff_arrangements[0].items.iter().map(|i| i.id).collect();
    assert_eq!(ids[0], 2);
    daw_events_RiffArrangementMoveRiffItemToPosition(&mut state, 50, 2, 99);
    assert_eq!(state.song.riff_arrangements[0].items[3].id, 2);
    daw_events_RiffArrangementRiffItemDelete(&mut state, 50, 1);
    assert_eq!(state.song.riff_arrangements[0].items.len(), 3);
    daw_events_RiffArrangementRiffItemSelect(&mut state, 50, 1, false);
    assert_eq!(state.riff_arrangement_riff_item_selected, None);
}

#[test]
fn deselecting_another_item_keeps_the_selection() {
    let mut state = a_state(vec![]);
    daw_events_RiffArrangementRiffItemSelect(&mut state, 50, 1, true);
    daw_events_RiffArrangementRiffItemSelect(&mut state, 50, 2, false);
    assert_eq!(state.riff_arrangement_riff_item_selected, Some((50, 1)));
}

#[test]
fn arrangement_copy_is_named_selected_and_added() {
    let mut state = a_state(vec![]);
    state.song.riff_arrangements = vec![RiffArrangement { id: 50, name: "Chorus".to_string(), items: vec![item(1, RiffItemType::RiffSet, 10)], automations: vec![] }];
    daw_events_RiffArrangementCopy(&mut state, 50);
    assert_eq!(state.song.riff_arrangements.len(), 2);
    let copy = &state.song.riff_arrangements[1];
    assert_eq!(copy.name, "Copy of Chorus");
    assert_ne!(copy.id, 50);
    assert_eq!(copy.items.len(), 1);
    assert_eq!(state.selected_riff_arrangement_uuid, Some(copy.id));
}

#[test]
fn arrangement_play_starts_after_its_items() {
    let mut state = a_state(vec![a_track(1, TrackKind::Instrument, vec![a_riff(20, 3000), a_riff(21, 4000)])]);
    let rr = |track_id, linked_to| TrackRiffReference { track_id, riff_ref: RiffReference { id: 0, linked_to, position: 0 } };
    state.song.riff_sets = vec![RiffSet { id: 30, name: "s".to_string(), riff_refs: vec![rr(1, 20), rr(1, 21)] }];
    state.song.riff_arrangements = vec![RiffArrangement {
        id: 50,
        name: "a".to_string(),
        items: vec![item(1, RiffItemType::RiffSet, 30), item(2, RiffItemType::RiffSet, 30)],
        automations: vec![],
    }];
    daw_events_RiffArrangementPlay(&mut state, 50);
    assert!(matches!(state.outbox[0], Command::PlayRiffArrangement(50, 24000)));
    assert_eq!(state.playing_riff_arrangement, Some(50));
    daw_events_RiffArrangementPlay(&mut state, 51);
    assert!(matches!(state.outbox[1], Command::PlayRiffArrangement(51, 0)));
}

#[test]
fn riff_references_get_fresh_identifiers() {
    let mut track = a_track(1, TrackKind::Instrument, vec![a_riff(20, 3000)]);
    track.riff_refs = vec![RiffReference { id: 7, linked_to: 20, position: 1000 }];
    let mut state = a_state(vec![track]);
    state.song.riff_sets = vec![RiffSet {
        id: 30,
        name: "s".to_string(),
        riff_refs: vec![
            TrackRiffReference { track_id: 1, riff_ref: RiffReference { id: 8, linked_to: 20, position: 0 } },
            TrackRiffReference { track_id: 99, riff_ref: RiffReference { id: 9, linked_to: 20, position: 0 } },
        ],
    }];
    daw_events_RiffReferenceRegenerateIds(&mut state);
    let r = state.song.tracks[0].riff_refs[0];
    assert_ne!(r.id, 7);
    assert_eq!((r.linked_to, r.position), (20, 1000));
    assert_ne!(state.song.riff_sets[0].riff_refs[0].riff_ref.id, 8);
    assert_eq!(state.song.riff_sets[0].riff_refs[1].riff_ref.id, 9);
    let v4 = |id: u128| id & 0xF000C000000000000000u128 == 0x40008000000000000000u128;
    assert!(v4(r.id));
    assert!(v4(state.song.riff_sets[0].riff_refs[0].riff_ref.id));
}

// ---------------------------------------------------------------------------
// MIDI from the audio layer and the piano roll.
// ---------------------------------------------------------------------------

fn recording_state() -> RiffDAWState {
    let mut state = a_state(vec![a_track(1, TrackKind::Instrument, vec![a_riff(20, 4000)])]);
    state.selected_track = Some(1);
    state.selected_riffs = vec![TrackRiffSelection { track_id: 1, riff_id: 20 }];
    state.playing = true;
    state.recording = true;
    state
}

#[test]
fn recorded_note_on_and_off_make_a_note_in_the_riff() {
    let mut state = recording_state();
    // 120 beats a minute at 48000 frames a second: 24000 frames a beat.
    midi_AudioLayerTimeCriticalOutwardEvent_MidiEvent(&mut state, MidiMessage { status: 144, data1: 60, data2: 90, delta_frames: 120000 });
    assert_eq!(state.recorded_playing_notes.len(), 1);
    let events = &state.song.tracks[0].riffs[0].events;
    assert!(matches!(events[0], TrackEvent::Note(n) if n.position == 1000 && n.note == 60 && n.velocity == 90 && n.length == 200));
    midi_AudioLayerTimeCriticalOutwardEvent_MidiEvent(&mut state, MidiMessage { status: 128, data1: 60, data2: 0, delta_frames: 60000 });
    assert!(state.recorded_playing_notes.is_empty());
    let events = &state.song.tracks[0].riffs[0].events;
    assert!(matches!(events[0], TrackEvent::Note(n) if n.length == 1500));
}

#[test]
fn recorded_controllers_go_to_the_track_automation() {
    let mut state = recording_state();
    midi_AudioLayerTimeCriticalOutwardEvent_MidiEvent(&mut state, MidiMessage { status: 176, data1: 1, data2: 64, delta_frames: 24000 });
    midi_AudioLayerTimeCriticalOutwardEvent_MidiEvent(&mut state, MidiMessage { status: 224, data1: 0, data2: 64, delta_frames: 0 });
    let events = &state.song.tracks[0].automation.events;
    assert!(matches!(events[0], TrackEvent::PitchBend(p) if p.value == 0 && p.position == 0));
    assert!(matches!(events[1], TrackEvent::Controller(c) if c.controller == 1 && c.value == 64 && c.position == 1000));
}

#[test]
fn nothing_is_recorded_unless_recording() {
    let mut state = recording_state();
    state.recording = false;
    midi_AudioLayerTimeCriticalOutwardEvent_MidiEvent(&mut state, MidiMessage { status: 144, data1: 60, data2: 90, delta_frames: 0 });
    assert!(state.song.tracks[0].riffs[0].events.is_empty());
}

#[test]
fn machine_control_drives_the_transport() {
    let mut state = a_state(vec![]);
    midi_AudioLayerOutwardEvent_GeneralMMCEvent(&mut state, [0xF0, 0x7F, 0x7F, 0x06, 2, 0xF7]);
    assert!(matches!(state.outbox[0], Command::TransportPlay));
    midi_AudioLayerOutwardEvent_GeneralMMCEvent(&mut state, [0xF0, 0x7F, 0x7F, 0x06, 6, 0xF7]);
    assert!(state.recording);
    midi_AudioLayerOutwardEvent_PlayPositionInFrames(&mut state, 1234);
    assert_eq!(state.play_position_in_frames, 1234);
}

#[test]
fn mpe_note_id_goes_to_the_selected_notes() {
    let mut riff = a_riff(20, 4000);
    riff.events = vec![
        TrackEvent::Note(Note { id: 1, position: 0, note: 60, velocity: 100, length: 10, note_id: -1 }),
        TrackEvent::Note(Note { id: 2, position: 0, note: 61, velocity: 100, length: 10, note_id: -1 }),
    ];
    let mut state = a_state(vec![a_track(1, TrackKind::Instrument, vec![riff])]);
    state.selected_track = Some(1);
    state.selected_riffs = vec![TrackRiffSelection { track_id: 1, riff_id: 20 }];
    state.selected_riff_events = vec![2];
    daw_events_PianoRollMPENoteIdChange(&mut state, MidiPolyphonicExpressionNoteId::NoteId(5));
    let ids: Vec<i32> = state.song.tracks[0].riffs[0].events.iter().map(|e| match e { TrackEvent::Note(n) => n.note_id, _ => 0 }).collect();
    assert_eq!(ids, vec![-1, 5]);
    assert_eq!(state.piano_roll_mpe_note_id, MidiPolyphonicExpressionNoteId::NoteId(5));
}

// ---------------------------------------------------------------------------
// Files.
// ---------------------------------------------------------------------------

#[test]
fn new_file_keeps_the_tempo_and_sends_the_settings() {
    let mut state = a_state(vec![a_track(1, TrackKind::Midi, vec![])]);
    daw_events_NewFile(&mut state);
    assert!(state.song.tracks.is_empty());
    assert_eq!(state.song.tempo, 120);
    assert!(matches!(state.outbox[0], Command::CloseAllTracks));
    assert!(matches!(state.outbox[2], Command::UpdateTrackSendersAndReceivers));
    assert!(is_audio(&state.outbox[3], AudioLayerEvent::AudioLayerInward(AudioLayerInwardEvent::BlockSize(1000))));
    assert!(is_audio(&state.outbox[5], AudioLayerEvent::AudioLayerInward(AudioLayerInwardEvent::SampleRate(48000))));
}

#[test]
fn saving_pauses_the_audio_around_the_work() {
    let mut state = a_state(vec![]);
    daw_events_Save(&mut state);
    assert!(is_audio(&state.outbox[0], AudioLayerEvent::AudioMode(AudioMode::Coast)));
    assert!(matches!(state.outbox[1], Command::Pause(1000)));
    assert!(matches!(state.outbox[2], Command::Save));
    assert!(is_audio(&state.outbox[3], AudioLayerEvent::AudioMode(AudioMode::AudioOut)));
    daw_events_SaveAs(&mut state, "/tmp/x.rdaw".to_string());
    assert_eq!(state.current_file_path.as_deref(), Some("/tmp/x.rdaw"));
    daw_events_ExportWaveFile(&mut state, "/tmp/x.wav".to_string());
    assert!(is_audio(&state.outbox[7], AudioLayerEvent::AudioMode(AudioMode::Render)));
}

#[test]
fn opening_asks_for_the_load_then_sets_up_the_tracks() {
    let mut state = a_state(vec![]);
    daw_events_OpenFile(&mut state, "/tmp/song".to_string());
    assert!(matches!(&state.outbox[4], Command::LoadFromFile(p) if p == "/tmp/song"));
    state.outbox.clear();
    state.song.tracks = vec![a_track(1, TrackKind::Instrument, vec![]), a_track(2, TrackKind::Midi, vec![])];
    daw_events_OpenFileLoaded(&mut state);
    assert!(is_to_track(&state.outbox[0], 1, TrackBackgroundProcessorInwardEvent::Tempo(120)));
    assert!(matches!(state.outbox[4], Command::RegisterMidiOutPort(2)));
    assert!(is_audio(&state.outbox[5], AudioLayerEvent::AudioMode(AudioMode::AudioOut)));
}

#[test]
fn midi_import_makes_instrument_tracks_with_notes() {
    let mut state = a_state(vec![]);
    let ev = |tick, event| TimedMidiEvent { tick: Some(tick), event };
    let midi = MidiFileContents {
        ppqn: 480,
        tracks: vec![vec![
            ev(0, ImportedMidiEvent::TrackName(vec!['\0', 'P', 'i', 'a', 'n', 'o', '\0'])),
            ev(0, ImportedMidiEvent::SetTempo(500000)),
            ev(0, ImportedMidiEvent::NoteOn(60, 100)),
            ev(480, ImportedMidiEvent::NoteOff(60)),
            ev(960, ImportedMidiEvent::NoteOff(61)),
            ev(1920, ImportedMidiEvent::EndOfTrack),
        ]],
    };
    daw_events_ImportMidiFile(&mut state, Some(midi));
    let track = &state.song.tracks[0];
    assert_eq!(track.name, "Piano");
    assert_eq!(track.riffs.len(), 2);
    assert_eq!(track.riffs[0].name, "empty");
    let riff = &track.riffs[1];
    assert_eq!(riff.name, "unknown");
    assert_eq!(riff.length, 4000);
    assert_eq!(riff.events.len(), 1);
    assert!(matches!(riff.events[0], TrackEvent::Note(n) if n.note == 60 && n.velocity == 100 && n.position == 0 && n.length == 1000));
    assert_eq!(track.riff_refs[0].linked_to, riff.id);
    assert!(matches!(state.outbox[1], Command::InitTrack(id, 500000) if id == track.id));
    daw_events_ImportMidiFile(&mut state, None);
    assert_eq!(state.song.tracks.len(), 1);
}

#[test]
fn imported_tracks_start_at_the_tempo_read_so_far() {
    let mut state = a_state(vec![]);
    let ev = |tick, event| TimedMidiEvent { tick: Some(tick), event };
    let midi = MidiFileContents {
        ppqn: 96,
        tracks: vec![
            vec![ev(0, ImportedMidiEvent::NoteOn(60, 90))],
            vec![ev(0, ImportedMidiEvent::SetTempo(400000)), ev(10, ImportedMidiEvent::EndOfTrack)],
            vec![ev(0, ImportedMidiEvent::EndOfTrack)],
        ],
    };
    daw_events_ImportMidiFile(&mut state, Some(midi));
    let tempos: Vec<u32> = state
        .outbox
        .iter()
        .filter_map(|c| match c {
            Command::InitTrack(_, t) => Some(*t),
            _ => None,
        })
        .collect();
    assert_eq!(tempos, vec![0, 400000, 400000]);
}

#[test]
fn audio_configuration_change_starts_tracks_at_the_song_tempo() {
    let mut state = a_state(vec![a_track(1, TrackKind::Instrument, vec![])]);
    daw_events_AudioConfigurationChanged(&mut state, 96000, 512);
    assert_eq!((state.configuration.sample_rate, state.configuration.block_size), (96000, 512));
    assert!(matches!(state.outbox[2], Command::InitTrack(1, 120)));
}

#[test]
fn a_note_started_twice_is_recorded_once() {
    let mut state = recording_state();
    midi_AudioLayerTimeCriticalOutwardEvent_MidiEvent(&mut state, MidiMessage { status: 144, data1: 60, data2: 90, delta_frames: 0 });
    midi_AudioLayerTimeCriticalOutwardEvent_MidiEvent(&mut state, MidiMessage { status: 144, data1: 62, data2: 90, delta_frames: 24000 });
    midi_AudioLayerTimeCriticalOutwardEvent_MidiEvent(&mut state, MidiMessage { status: 144, data1: 60, data2: 80, delta_frames: 48000 });
    let notes: Vec<(i32, i64)> = state.recorded_playing_notes.iter().map(|r| (r.note, r.position)).collect();
    assert_eq!(notes, vec![(62, 1000), (60, 2000)]);
}
