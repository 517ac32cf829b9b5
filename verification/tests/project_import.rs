use riff_daw_core::actions::audio_plugin_actions::daw_events_ScanPlugins;
use riff_daw_core::actions::file_operations::daw_events_ImportDAWProjectFile;
use riff_daw_core::dawproject_import::{
    is_plugin_preset_path, plugin_presets, song_from_project, DawProjectFile, PluginFormat,
    ProjectContents, ProjectFileEntry, ProjectImportIds, ProjectLane, ProjectLaneIds, ProjectNote,
    ProjectPlugin, ProjectTrack, ProjectTrackIds, LANE_RIFF_LENGTH,
};
use riff_daw_core::domain::{NoteExpressionType, TrackEvent, TrackKind};
use riff_daw_core::event::{
    AudioLayerEvent, AudioMode, AutomationEditType, AutomationViewMode, Command, CurrentView,
    MidiPolyphonicExpressionNoteId, PlayMode, TrackBackgroundProcessorInwardEvent,
};
use riff_daw_core::domain::Song;
use riff_daw_core::plugin_scan::{plugin_kind_from_features, plugin_paths_from_argument};
use riff_daw_core::state::{Configuration, RiffDAWState, ScannedPlugin};
use riff_daw_core::text::{chars_of, first_piece, trim, TrimKind};

fn chars(s: &str) -> Vec<char> {
    s.chars().collect()
}

fn texts(v: &[Vec<char>]) -> Vec<String> {
    v.iter().map(|c| c.iter().collect()).collect()
}

#[test]
fn plugin_argument_is_unquoted_and_split_at_commas() {
    let paths = plugin_paths_from_argument(&chars("\"/a/x.clap,/b/y.clap\""));
    assert_eq!(texts(&paths), vec!["/a/x.clap".to_string(), "/b/y.clap".to_string()]);
    assert_eq!(texts(&plugin_paths_from_argument(&chars("/only.clap"))), vec!["/only.clap".to_string()]);
    assert_eq!(texts(&plugin_paths_from_argument(&chars("a,,b"))), vec!["a", "", "b"]);
    assert_eq!(texts(&plugin_paths_from_argument(&chars(""))), vec![String::new()]);
}

#[test]
fn plugin_kind_follows_the_last_recognised_feature() {
    let f = |s: &str| s.as_bytes().to_vec();
    assert_eq!(plugin_kind_from_features(&vec![]), 0);
    assert_eq!(plugin_kind_from_features(&vec![f("instrument"), f("synthesizer")]), 2);
    assert_eq!(plugin_kind_from_features(&vec![f("instrument"), f("audio-effect")]), 1);
    assert_eq!(plugin_kind_from_features(&vec![f("audio_effect")]), 1);
    assert_eq!(plugin_kind_from_features(&vec![f("note-effect"), f("stereo")]), 11);
    assert_eq!(plugin_kind_from_features(&vec![f("reverb"), f("Instrument")]), 0);
}

#[test]
fn text_helpers_trim_and_split() {
    assert_eq!(chars_of("añb"), vec!['a', 'ñ', 'b']);
    let t = trim(&chars(" \t a b\u{3000}\n"), TrimKind::WhiteSpace);
    assert_eq!(t, chars("a b"));
    assert_eq!(trim(&chars("\0\0x\0"), TrimKind::Nul), chars("x"));
    assert_eq!(trim(&chars("   "), TrimKind::WhiteSpace), chars(""));
    assert_eq!(first_piece(&chars("lib.so:id:2"), ':'), chars("lib.so"));
    assert_eq!(first_piece(&chars("no separator"), ':'), chars("no separator"));
}

#[test]
fn presets_are_the_readable_plugin_states_base64_encoded() {
    assert!(is_plugin_preset_path(&"plugins/a.vstpreset".to_string()));
    assert!(!is_plugin_preset_path(&"project.xml".to_string()));
    assert!(!is_plugin_preset_path(&"plugin/a".to_string()));
    let files = vec![
        ProjectFileEntry { name: "plugins/a".to_string(), data: Some(vec![1, 2, 3]) },
        ProjectFileEntry { name: "project.xml".to_string(), data: Some(vec![60, 63]) },
        ProjectFileEntry { name: "plugins/b".to_string(), data: None },
        ProjectFileEntry { name: "plugins/c".to_string(), data: Some(b"Man".to_vec()) },
    ];
    let presets = plugin_presets(&files);
    assert_eq!(
        presets,
        vec![
            ("plugins/a".to_string(), "AQID".to_string()),
            ("plugins/c".to_string(), "TWFu".to_string()),
        ]
    );
}

fn config() -> Configuration {
    Configuration {
        sample_rate: 44100,
        block_size: 1024,
        vst24_plugin_paths: vec![],
        clap_plugin_paths: vec![],
        vst3_plugin_paths: vec![],
        scanned_instrument_plugins: vec![ScannedPlugin {
            details: "/usr/lib/clap/Surge XT.clap:org.surge:2".to_string(),
            name: "Surge XT (CLAP)".to_string(),
        }],
        scanned_effect_plugins: vec![],
    }
}

fn surge() -> ProjectPlugin {
    ProjectPlugin {
        format: PluginFormat::Clap,
        instrument_role: true,
        name: Some("Surge XT (x64)".to_string()),
        device_name: "Surge XT".to_string(),
        device_vendor: Some("Surge Synth Team".to_string()),
        plugin_version: Some("1.3".to_string()),
        state_path: Some("plugins/surge.clap-preset".to_string()),
    }
}

fn reverb() -> ProjectPlugin {
    ProjectPlugin {
        format: PluginFormat::Vst3,
        instrument_role: false,
        name: Some("  Room Reverb  (stereo)".to_string()),
        device_name: "Room".to_string(),
        device_vendor: None,
        plugin_version: None,
        state_path: None,
    }
}

fn project_track(id: Option<&str>, name: Option<&str>, plugins: Vec<ProjectPlugin>) -> ProjectTrack {
    ProjectTrack {
        id: id.map(|s| s.to_string()),
        name: name.map(|s| s.to_string()),
        mute: Some(true),
        pan: Some(-500),
        solo: None,
        plugins,
    }
}

fn track_ids(base: u128, effects: usize) -> ProjectTrackIds {
    ProjectTrackIds {
        track: base,
        instrument: base + 1,
        default_riff: base + 2,
        effects: (0..effects as u128).map(|e| base + 10 + e).collect(),
    }
}

fn lane_ids(base: u128, notes: usize) -> ProjectLaneIds {
    ProjectLaneIds { riff: base, riff_ref: base + 1, notes: (0..notes as u128).map(|n| base + 10 + n).collect() }
}

fn note(clip_time: i64, time: i64, velocity: Option<i32>) -> ProjectNote {
    ProjectNote { clip_time, time, duration: 250, key: 60, velocity }
}

#[test]
fn project_tracks_take_over_settings_plugins_and_lanes() {
    let contents = ProjectContents {
        application_name: "Bitwig Studio".to_string(),
        time_signature: Some((7, 8)),
        tempo: Some(Some(128)),
        tracks: vec![project_track(Some("t1"), Some("Lead"), vec![surge(), reverb()])],
        lanes: vec![
            ProjectLane { track: Some("t1".to_string()), notes: vec![note(4000, 500, Some(100)), note(4000, 1500, None)] },
            ProjectLane { track: Some("missing".to_string()), notes: vec![note(0, 0, Some(1))] },
            ProjectLane { track: None, notes: vec![] },
        ],
    };
    let ids = ProjectImportIds {
        tracks: vec![track_ids(100, 2)],
        lanes: vec![lane_ids(200, 2), lane_ids(300, 1), lane_ids(400, 0)],
    };
    let presets = vec![("plugins/surge.clap-preset".to_string(), "AAAA".to_string())];
    let song = song_from_project(&contents, &presets, &config(), &ids);
    assert_eq!(song.name, "Bitwig Studio");
    assert_eq!(song.tempo, 128);
    assert_eq!((song.time_signature_numerator, song.time_signature_denominator), (7, 8));
    assert_eq!(song.tracks.len(), 1);
    let t = &song.tracks[0];
    assert_eq!(t.id, 100);
    assert_eq!(t.kind, TrackKind::Instrument);
    assert_eq!(t.name, "Lead");
    assert!(t.mute);
    assert!(!t.solo);
    assert_eq!(t.pan, -500);
    let i = &t.instrument;
    assert_eq!(i.id, 101);
    assert_eq!(i.name, "Surge XT (CLAP)");
    assert_eq!(i.file, "/usr/lib/clap/Surge XT.clap");
    assert_eq!(i.descriptive_name, "Surge XT");
    assert_eq!(i.format, "Unknown");
    assert_eq!(i.category, "Unknown");
    assert_eq!(i.manufacturer, "Surge Synth Team");
    assert_eq!(i.version, "1.3");
    assert_eq!(i.plugin_type, "VST24");
    assert_eq!(i.preset_data, "AAAA");
    assert!(i.is_instrument);
    assert_eq!(t.effects.len(), 1);
    let e = &t.effects[0];
    assert_eq!(e.id, 111);
    assert_eq!(e.name, "Room Reverb (VST3)");
    assert_eq!(e.file, "");
    assert_eq!(e.manufacturer, "");
    assert!(e.is_instrument);
    assert_eq!(t.riffs.len(), 2);
    assert_eq!(t.riffs[0].id, 102);
    assert_eq!(t.riffs[0].name, "empty");
    let r = &t.riffs[1];
    assert_eq!(r.id, 200);
    assert_eq!(r.name, "1");
    assert_eq!(r.length, LANE_RIFF_LENGTH);
    assert_eq!(r.events.len(), 2);
    assert!(matches!(r.events[0], TrackEvent::Note(n) if n.id == 210 && n.position == 4500 && n.velocity == 100 && n.length == 250 && n.note == 60 && n.note_id == -1));
    assert!(matches!(r.events[1], TrackEvent::Note(n) if n.id == 211 && n.position == 5500 && n.velocity == 0));
    assert_eq!(t.riff_refs.len(), 1);
    assert_eq!((t.riff_refs[0].id, t.riff_refs[0].linked_to, t.riff_refs[0].position), (201, 200, 0));
}

#[test]
fn a_lane_goes_to_the_last_track_of_its_identifier() {
    let contents = ProjectContents {
        application_name: "App".to_string(),
        time_signature: Some((-3, 4)),
        tempo: Some(None),
        tracks: vec![project_track(Some("t"), None, vec![]), project_track(Some("t"), Some("Second"), vec![]), project_track(None, None, vec![])],
        lanes: vec![ProjectLane { track: Some("t".to_string()), notes: vec![note(0, 0, Some(5))] }],
    };
    let ids = ProjectImportIds {
        tracks: vec![track_ids(10, 0), track_ids(20, 0), track_ids(30, 0)],
        lanes: vec![lane_ids(40, 1)],
    };
    let song = song_from_project(&contents, &vec![], &config(), &ids);
    assert_eq!(song.tempo, 140);
    assert_eq!((song.time_signature_numerator, song.time_signature_denominator), (-3, 4));
    assert_eq!(song.tracks.len(), 3);
    assert_eq!(song.tracks[0].name, "");
    assert_eq!(song.tracks[0].riffs.len(), 1);
    assert_eq!(song.tracks[1].name, "Second");
    assert_eq!(song.tracks[1].riffs.len(), 2);
    assert_eq!(song.tracks[1].riff_refs[0].linked_to, 40);
    assert_eq!(song.tracks[2].riff_refs.len(), 0);
}

fn import_state() -> RiffDAWState {
    RiffDAWState {
        configuration: config(),
        song: Song {
            name: "old".to_string(),
            tempo: 90,
            time_signature_numerator: 3,
            time_signature_denominator: 4,
            tracks: vec![],
            loops: vec![],
            riff_sets: vec![],
            riff_sequences: vec![],
            riff_grids: vec![],
            riff_arrangements: vec![],
        },
        selected_track: None,
        selected_riffs: vec![],
        selected_riff_events: vec![],
        selected_automation: vec![],
        current_view: CurrentView::Track,
        automation_view_mode: AutomationViewMode::NoteVelocities,
        automation_edit_type: AutomationEditType::Track,
        automation_discrete: true,
        controller_type_index: None,
        instrument_parameter_type: None,
        effect_parameter_type: None,
        view_note_expression_type: NoteExpressionType::Volume,
        note_expression_type: NoteExpressionType::Volume,
        note_expression_id: -1,
        note_expression_port_index: 0,
        note_expression_channel: 0,
        note_expression_key: 0,
        selected_effect_plugin_uuid: None,
        piano_roll_mpe_note_id: MidiPolyphonicExpressionNoteId::ALL,
        looping: false,
        active_loop: None,
        playing: false,
        recording: false,
        play_mode: PlayMode::Song,
        playing_riff_set: None,
        play_position_in_frames: 0,
        selected_riff_arrangement_uuid: None,
        playing_riff_arrangement: None,
        riff_arrangement_riff_item_selected: None,
        add_riff_arrangement_name: "new".to_string(),
        recorded_playing_notes: vec![],
        automation_event_copy_buffer: vec![],
        current_file_path: None,
        track_grid_edit_cursor_position: 0,
        audio_layer_connected: true,
        outbox: vec![],
    }
}

#[test]
fn an_unreadable_project_leaves_an_empty_song() {
    let mut state = import_state();
    daw_events_ImportDAWProjectFile(&mut state, None);
    assert_eq!(state.song.name, "");
    assert_eq!(state.song.tempo, 140);
    assert!(state.song.tracks.is_empty());
    assert!(matches!(&state.outbox[0], Command::ToAudioLayer(AudioLayerEvent::AudioMode(AudioMode::Coast))));
    assert!(matches!(state.outbox[1], Command::Pause(1000)));
    assert!(matches!(state.outbox[2], Command::CloseAllTracks));
    assert!(matches!(state.outbox[3], Command::ResetState));
    assert!(matches!(state.outbox.last(), Some(Command::ToAudioLayer(AudioLayerEvent::AudioMode(AudioMode::AudioOut)))));
}

#[test]
fn an_imported_project_replaces_the_song_with_fresh_identifiers() {
    let mut state = import_state();
    let file = DawProjectFile {
        files: vec![ProjectFileEntry { name: "plugins/surge.clap-preset".to_string(), data: Some(vec![0, 0, 0]) }],
        project: Some(ProjectContents {
            application_name: "App".to_string(),
            time_signature: None,
            tempo: None,
            tracks: vec![project_track(Some("a"), Some("A"), vec![surge()]), project_track(Some("b"), Some("B"), vec![])],
            lanes: vec![ProjectLane { track: Some("b".to_string()), notes: vec![note(0, 250, Some(64))] }],
        }),
    };
    daw_events_ImportDAWProjectFile(&mut state, Some(file));
    let song = &state.song;
    assert_eq!(song.name, "App");
    assert_eq!((song.time_signature_numerator, song.time_signature_denominator), (4, 4));
    assert_eq!(song.tracks.len(), 2);
    assert_ne!(song.tracks[0].id, song.tracks[1].id);
    assert_eq!(song.tracks[0].instrument.preset_data, "AAAA");
    assert_eq!(song.tracks[1].riffs[1].name, "1");
    assert_eq!(song.tracks[1].riff_refs[0].linked_to, song.tracks[1].riffs[1].id);
    let a = song.tracks[0].id;
    assert!(state.outbox.iter().any(|c| matches!(c, Command::ToTrack(t, TrackBackgroundProcessorInwardEvent::Tempo(140)) if *t == a)));
}

#[test]
fn scanned_effects_give_imported_effects_their_library() {
    let mut state = import_state();
    daw_events_ScanPlugins(
        &mut state,
        vec![],
        vec![ScannedPlugin { details: "/vst3/Room.vst3:room".to_string(), name: "Room Reverb (VST3)".to_string() }],
    );
    assert!(state.configuration.scanned_instrument_plugins.is_empty());
    let file = DawProjectFile {
        files: vec![],
        project: Some(ProjectContents {
            application_name: "App".to_string(),
            time_signature: None,
            tempo: Some(Some(100)),
            tracks: vec![project_track(None, Some("Fx"), vec![reverb()])],
            lanes: vec![],
        }),
    };
    daw_events_ImportDAWProjectFile(&mut state, Some(file));
    assert_eq!(state.song.tempo, 100);
    assert_eq!(state.song.tracks[0].effects[0].file, "/vst3/Room.vst3");
    assert_eq!(state.song.tracks[0].instrument.name, "");
}
