use riff_daw_core::actions::automation_actions::{
    handle_automation_copy, handle_automation_cut, handle_automation_delete,
    handle_automation_paste, handle_automation_add, handle_automation_effect_paste, handle_automation_change, handle_automation_controller_add,
    handle_automation_controller_change,
    handle_automation_controller_cut, handle_automation_controller_copy,
    handle_automation_controller_delete, handle_automation_controller_paste,
    handle_automation_controller_translate_selected, handle_automation_effect_add,
    handle_automation_effect_change, handle_automation_effect_copy, handle_automation_effect_cut,
    handle_automation_effect_delete, handle_automation_effect_translate_selected,
    handle_automation_instrument_add, handle_automation_instrument_change,
    handle_automation_instrument_delete, handle_automation_note_expression_add,
    handle_automation_note_expression_change, handle_automation_note_expression_delete,
    handle_automation_note_velocities_translate_selected, handle_automation_pitch_bend_add,
    handle_automation_pitch_bend_change, handle_automation_pitch_bend_cut,
    handle_automation_pitch_bend_paste, handle_automation_translate_selected,
};
use riff_daw_core::domain::{
    AudioPlugin, Automation, AutomationEnvelope, Controller, Note, NoteExpression,
    NoteExpressionType, PitchBend, PluginParameter, Riff, RiffArrangement, Song, Track,
    TrackAutomation, TrackEvent, TrackKind,
};
use riff_daw_core::event::{
    AutomationEditType, AutomationViewMode, CurrentView, MidiPolyphonicExpressionNoteId,
    PlayMode, TranslateDirection,
};
use riff_daw_core::state::{Configuration, RiffDAWState, TrackRiffSelection};

const TRACK: u128 = 1;
const RIFF: u128 = 2;
const ARRANGEMENT: u128 = 3;
const INSTRUMENT: u128 = 4;
const EFFECT: u128 = 5;

fn plugin(id: u128) -> AudioPlugin {
    AudioPlugin {
        id,
        name: String::new(),
        descriptive_name: String::new(),
        file: String::new(),
        format: String::new(),
        category: String::new(),
        manufacturer: String::new(),
        version: String::new(),
        is_instrument: true,
        plugin_type: String::new(),
        preset_data: String::new(),
    }
}

fn track(kind: TrackKind) -> Track {
    Track {
        id: TRACK,
        kind,
        name: "Track".to_string(),
        midi_channel: 0,
        mute: false,
        solo: false,
        pan: 0,
        instrument: plugin(INSTRUMENT),
        effects: vec![plugin(EFFECT)],
        riffs: vec![Riff { id: RIFF, name: "riff".to_string(), length: 4000, events: vec![] }],
        riff_refs: vec![],
        automation: Automation { events: vec![], envelopes: vec![] },
    }
}

fn state_with(kind: TrackKind) -> RiffDAWState {
    RiffDAWState {
        configuration: Configuration {
            sample_rate: 44100,
            block_size: 1024,
            vst24_plugin_paths: vec![],
            clap_plugin_paths: vec![],
            vst3_plugin_paths: vec![],
            scanned_instrument_plugins: vec![],
            scanned_effect_plugins: vec![],
        },
        song: Song {
            name: String::new(),
            tempo: 120,
            time_signature_numerator: 4,
            time_signature_denominator: 4,
            tracks: vec![track(kind)],
            loops: vec![],
            riff_sets: vec![],
            riff_sequences: vec![],
            riff_grids: vec![],
            riff_arrangements: vec![RiffArrangement { id: ARRANGEMENT, name: "A".to_string(), items: vec![], automations: vec![] }],
        },
        selected_track: Some(TRACK),
        selected_riffs: vec![TrackRiffSelection { track_id: TRACK, riff_id: RIFF }],
        selected_riff_events: vec![],
        selected_automation: vec![],
        current_view: CurrentView::Track,
        automation_view_mode: AutomationViewMode::Controllers,
        automation_edit_type: AutomationEditType::Track,
        automation_discrete: true,
        controller_type_index: Some(7),
        instrument_parameter_type: Some(2),
        effect_parameter_type: Some(3),
        view_note_expression_type: NoteExpressionType::Volume,
        note_expression_type: NoteExpressionType::Volume,
        note_expression_id: -1,
        note_expression_port_index: 0,
        note_expression_channel: 0,
        note_expression_key: 60,
        selected_effect_plugin_uuid: Some(EFFECT),
        piano_roll_mpe_note_id: MidiPolyphonicExpressionNoteId::ALL,
        looping: false,
        active_loop: None,
        playing: false,
        recording: false,
        play_mode: PlayMode::Song,
        playing_riff_set: None,
        play_position_in_frames: 0,
        selected_riff_arrangement_uuid: Some(ARRANGEMENT),
        playing_riff_arrangement: None,
        riff_arrangement_riff_item_selected: None,
        add_riff_arrangement_name: String::new(),
        recorded_playing_notes: vec![],
        automation_event_copy_buffer: vec![],
        current_file_path: None,
        track_grid_edit_cursor_position: 0,
        audio_layer_connected: false,
        outbox: vec![],
    }
}

fn controller(id: u128, position: i64, number: i32, value: i32) -> TrackEvent {
    TrackEvent::Controller(Controller { id, position, controller: number, value })
}

fn track_events(state: &RiffDAWState) -> &Vec<TrackEvent> {
    &state.song.tracks[0].automation.events
}

fn positions(events: &Vec<TrackEvent>) -> Vec<i64> {
    events.iter().map(|e| e.position()).collect()
}

#[test]
fn controller_add_goes_to_track_events_in_position_order() {
    let mut state = state_with(TrackKind::Midi);
    handle_automation_controller_add(2000, 64, &mut state);
    handle_automation_controller_add(1000, 10, &mut state);
    let events = track_events(&state);
    assert_eq!(positions(events), vec![1000, 2000]);
    match events[0] {
        TrackEvent::Controller(c) => {
            assert_eq!(c.controller, 7);
            assert_eq!(c.value, 10);
        },
        _ => panic!("expected a controller"),
    }
}

#[test]
fn each_added_event_gets_its_own_identifier() {
    let mut state = state_with(TrackKind::Midi);
    handle_automation_controller_add(0, 1, &mut state);
    handle_automation_controller_add(0, 2, &mut state);
    let events = track_events(&state);
    assert_ne!(events[0].id(), events[1].id());
    assert_eq!(events[0].id() >> 76 & 0xF, 4);
}

#[test]
fn controller_add_without_chosen_controller_adds_nothing() {
    let mut state = state_with(TrackKind::Midi);
    state.controller_type_index = None;
    handle_automation_controller_add(0, 1, &mut state);
    assert!(track_events(&state).is_empty());
}

#[test]
fn envelope_is_created_for_continuous_track_automation() {
    let mut state = state_with(TrackKind::Midi);
    state.automation_discrete = false;
    handle_automation_controller_add(500, 3, &mut state);
    let automation = &state.song.tracks[0].automation;
    assert!(automation.events.is_empty());
    assert_eq!(automation.envelopes.len(), 1);
    assert_eq!(automation.envelopes[0].events.len(), 1);
    match automation.envelopes[0].event_details {
        TrackEvent::Controller(c) => assert_eq!(c.controller, 7),
        _ => panic!("expected a controller envelope"),
    }
    handle_automation_controller_add(100, 4, &mut state);
    let automation = &state.song.tracks[0].automation;
    assert_eq!(automation.envelopes.len(), 1);
    assert_eq!(positions(&automation.envelopes[0].events), vec![100, 500]);
}

#[test]
fn arrangement_automation_is_created_for_controllers() {
    let mut state = state_with(TrackKind::Midi);
    state.current_view = CurrentView::RiffArrangement;
    handle_automation_controller_add(0, 9, &mut state);
    let arrangement = &state.song.riff_arrangements[0];
    assert_eq!(arrangement.automations.len(), 1);
    assert_eq!(arrangement.automations[0].track_id, TRACK);
    assert_eq!(arrangement.automations[0].automation.events.len(), 1);
    assert!(track_events(&state).is_empty());
}

#[test]
fn instrument_edits_never_create_arrangement_automation() {
    let mut state = state_with(TrackKind::Instrument);
    state.current_view = CurrentView::RiffArrangement;
    handle_automation_instrument_add(0, 127, &mut state);
    assert!(state.song.riff_arrangements[0].automations.is_empty());
}

#[test]
fn instrument_add_scales_value_to_thousandths() {
    let mut state = state_with(TrackKind::Instrument);
    handle_automation_instrument_add(0, 127, &mut state);
    handle_automation_instrument_add(10, 64, &mut state);
    let events = track_events(&state);
    match (events[0], events[1]) {
        (TrackEvent::AudioPluginParameter(a), TrackEvent::AudioPluginParameter(b)) => {
            assert_eq!(a.value, 1000);
            assert_eq!(b.value, 503);
            assert_eq!(a.plugin_uuid, INSTRUMENT);
            assert_eq!(a.index, 2);
            assert!(a.instrument);
        },
        _ => panic!("expected parameters"),
    }
}

#[test]
fn instrument_edits_need_an_instrument_track() {
    let mut state = state_with(TrackKind::Audio);
    handle_automation_instrument_add(0, 1, &mut state);
    assert!(track_events(&state).is_empty());
}

#[test]
fn effect_add_marks_effect_parameters() {
    let mut state = state_with(TrackKind::Audio);
    handle_automation_effect_add(0, 0, &mut state);
    match track_events(&state)[0] {
        TrackEvent::AudioPluginParameter(p) => {
            assert_eq!(p.plugin_uuid, EFFECT);
            assert_eq!(p.index, 3);
            assert!(!p.instrument);
            assert_eq!(p.value, 0);
        },
        _ => panic!("expected a parameter"),
    }
}

#[test]
fn effect_edits_need_a_selected_effect() {
    let mut state = state_with(TrackKind::Audio);
    state.selected_effect_plugin_uuid = None;
    handle_automation_effect_add(0, 0, &mut state);
    assert!(track_events(&state).is_empty());
}

#[test]
fn pitch_bend_add_maps_the_scale() {
    let mut state = state_with(TrackKind::Midi);
    handle_automation_pitch_bend_add(0, 0, &mut state);
    handle_automation_pitch_bend_add(1, 127, &mut state);
    handle_automation_pitch_bend_add(2, 64, &mut state);
    let values: Vec<i32> = track_events(&state)
        .iter()
        .map(|e| match e {
            TrackEvent::PitchBend(p) => p.value,
            _ => panic!("expected pitch bends"),
        })
        .collect();
    assert_eq!(values, vec![-8192, 8192, 64]);
}

#[test]
fn note_expression_add_takes_the_settings() {
    let mut state = state_with(TrackKind::Instrument);
    state.note_expression_type = NoteExpressionType::Pan;
    handle_automation_note_expression_add(250, 127, &mut state);
    match track_events(&state)[0] {
        TrackEvent::NoteExpression(x) => {
            assert_eq!(x.expression_type, NoteExpressionType::Pan);
            assert_eq!(x.key, 60);
            assert_eq!(x.value, 1000);
            assert_eq!(x.position, 250);
        },
        _ => panic!("expected a note expression"),
    }
}

#[test]
fn controller_delete_removes_near_the_time_only() {
    let mut state = state_with(TrackKind::Midi);
    state.song.tracks[0].automation.events = vec![
        controller(10, 900, 7, 1),
        controller(11, 1000, 7, 2),
        controller(12, 1100, 7, 3),
        controller(13, 1000, 8, 4),
        controller(14, 1101, 7, 5),
    ];
    handle_automation_controller_delete(1000, &mut state);
    let ids: Vec<u128> = track_events(&state).iter().map(|e| e.id()).collect();
    assert_eq!(ids, vec![13, 14]);
}

#[test]
fn effect_delete_only_touches_effect_values() {
    let mut state = state_with(TrackKind::Audio);
    let p = |id, instrument| TrackEvent::AudioPluginParameter(PluginParameter { id, plugin_uuid: EFFECT, instrument, position: 0, index: 3, value: 0 });
    state.song.tracks[0].automation.events = vec![p(20, true), p(21, false)];
    handle_automation_effect_delete(0, &mut state);
    let ids: Vec<u128> = track_events(&state).iter().map(|e| e.id()).collect();
    assert_eq!(ids, vec![20]);
}

#[test]
fn instrument_delete_matches_plugin_and_index() {
    let mut state = state_with(TrackKind::Instrument);
    let p = |id, plugin_uuid, index| TrackEvent::AudioPluginParameter(PluginParameter { id, plugin_uuid, instrument: true, position: 0, index, value: 0 });
    state.song.tracks[0].automation.events = vec![p(1, INSTRUMENT, 2), p(2, INSTRUMENT, 5), p(3, EFFECT, 2)];
    handle_automation_instrument_delete(50, &mut state);
    let ids: Vec<u128> = track_events(&state).iter().map(|e| e.id()).collect();
    assert_eq!(ids, vec![2, 3]);
}

#[test]
fn note_expression_delete_matches_type_and_note_id() {
    let mut state = state_with(TrackKind::Instrument);
    let x = |id, note_id, expression_type| TrackEvent::NoteExpression(NoteExpression { id, position: 0, expression_type, port: 0, channel: 0, note_id, key: 0, value: 0 });
    state.song.tracks[0].automation.events = vec![x(1, 5, NoteExpressionType::Volume), x(2, 6, NoteExpressionType::Pan)];
    handle_automation_note_expression_delete(0, &mut state);
    let ids: Vec<u128> = track_events(&state).iter().map(|e| e.id()).collect();
    assert_eq!(ids, vec![2]);
    state.note_expression_id = 9;
    state.note_expression_type = NoteExpressionType::Pan;
    handle_automation_note_expression_delete(0, &mut state);
    assert_eq!(track_events(&state).len(), 1);
}

#[test]
fn controller_copy_then_paste_at_another_cursor() {
    let mut state = state_with(TrackKind::Midi);
    state.song.tracks[0].automation.events = vec![controller(1, 1000, 7, 10), controller(2, 1500, 7, 20), controller(3, 2000, 8, 30)];
    state.selected_automation = vec![1, 2, 3];
    handle_automation_controller_copy(&mut state, 1000);
    assert_eq!(positions(&state.automation_event_copy_buffer), vec![0, 500]);
    handle_automation_controller_paste(&mut state, 4000);
    let events = track_events(&state);
    assert_eq!(positions(events), vec![1000, 1500, 2000, 4000, 4500]);
    assert!(events[3].id() != 1 && events[4].id() != 2);
}

#[test]
fn controller_cut_copies_the_first_selected_and_removes_all_selected() {
    let mut state = state_with(TrackKind::Midi);
    state.song.tracks[0].automation.events = vec![controller(1, 1000, 7, 10), controller(2, 1500, 7, 20), controller(3, 2000, 7, 30)];
    state.selected_automation = vec![2, 3];
    handle_automation_controller_cut(&mut state, 0);
    assert_eq!(positions(&state.automation_event_copy_buffer), vec![1500]);
    let ids: Vec<u128> = track_events(&state).iter().map(|e| e.id()).collect();
    assert_eq!(ids, vec![1]);
}

#[test]
fn effect_cut_copies_and_removes_the_selected_values() {
    let mut state = state_with(TrackKind::Audio);
    let p = |id, position| TrackEvent::AudioPluginParameter(PluginParameter { id, plugin_uuid: EFFECT, instrument: false, position, index: 3, value: 0 });
    state.song.tracks[0].automation.events = vec![p(1, 100), p(2, 200), p(3, 300)];
    state.selected_automation = vec![1, 3];
    handle_automation_effect_cut(&mut state, 100);
    assert_eq!(positions(&state.automation_event_copy_buffer), vec![0, 200]);
    assert_eq!(track_events(&state).len(), 1);
    handle_automation_effect_copy(&mut state, 0);
    assert_eq!(positions(&state.automation_event_copy_buffer), vec![0, 200]);
}

#[test]
fn copy_of_nothing_keeps_the_copy_buffer() {
    let mut state = state_with(TrackKind::Midi);
    state.automation_event_copy_buffer = vec![controller(9, 5, 7, 1)];
    handle_automation_controller_copy(&mut state, 0);
    assert_eq!(state.automation_event_copy_buffer.len(), 1);
}

#[test]
fn pitch_bend_cut_then_paste_restores_positions() {
    let mut state = state_with(TrackKind::Midi);
    state.song.tracks[0].automation.events = vec![TrackEvent::PitchBend(PitchBend { id: 1, position: 3000, value: 5 })];
    state.selected_automation = vec![1];
    handle_automation_pitch_bend_cut(&mut state, 2000);
    assert!(track_events(&state).is_empty());
    handle_automation_pitch_bend_paste(&mut state, 2000);
    assert_eq!(positions(track_events(&state)), vec![3000]);
}

#[test]
fn controller_translate_moves_and_nudges_selected_values() {
    let mut state = state_with(TrackKind::Midi);
    state.song.tracks[0].automation.events = vec![controller(1, 1000, 7, 127), controller(2, 2000, 7, 0), controller(3, 3000, 7, 5)];
    state.selected_automation = vec![1, 2];
    handle_automation_controller_translate_selected(&mut state, TranslateDirection::Up, 250);
    handle_automation_controller_translate_selected(&mut state, TranslateDirection::Down, 250);
    let values: Vec<i32> = track_events(&state).iter().map(|e| match e { TrackEvent::Controller(c) => c.value, _ => -1 }).collect();
    assert_eq!(values, vec![126, 0, 5]);
    handle_automation_controller_translate_selected(&mut state, TranslateDirection::Left, 1500);
    assert_eq!(positions(track_events(&state)), vec![500, 1000, 3000]);
    handle_automation_controller_translate_selected(&mut state, TranslateDirection::Right, 100);
    assert_eq!(positions(track_events(&state)), vec![600, 1100, 3000]);
}

#[test]
fn effect_translate_nudges_by_a_hundredth() {
    let mut state = state_with(TrackKind::Instrument);
    let p = |id, value| TrackEvent::AudioPluginParameter(PluginParameter { id, plugin_uuid: 77, instrument: false, position: 0, index: 3, value });
    state.song.tracks[0].automation.events = vec![p(1, 500), p(2, 995)];
    state.selected_automation = vec![1, 2];
    handle_automation_effect_translate_selected(&mut state, TranslateDirection::Up, 0);
    let values: Vec<i32> = track_events(&state).iter().map(|e| match e { TrackEvent::AudioPluginParameter(p) => p.value, _ => -1 }).collect();
    assert_eq!(values, vec![510, 995]);
}

#[test]
fn velocities_translate_within_range() {
    let mut state = state_with(TrackKind::Instrument);
    state.automation_edit_type = AutomationEditType::Riff;
    state.song.tracks[0].riffs[0].events = vec![
        TrackEvent::Note(Note { id: 1, position: 0, note: 60, velocity: 127, length: 100, note_id: -1 }),
        TrackEvent::Note(Note { id: 2, position: 0, note: 62, velocity: 50, length: 100, note_id: -1 }),
    ];
    state.selected_automation = vec![1, 2];
    handle_automation_note_velocities_translate_selected(&mut state, TranslateDirection::Up);
    let velocities: Vec<i32> = state.song.tracks[0].riffs[0].events.iter().map(|e| match e { TrackEvent::Note(n) => n.velocity, _ => -1 }).collect();
    assert_eq!(velocities, vec![127, 51]);
    state.automation_view_mode = AutomationViewMode::NoteVelocities;
    handle_automation_translate_selected(&mut state, TranslateDirection::Down, 0);
    let velocities: Vec<i32> = state.song.tracks[0].riffs[0].events.iter().map(|e| match e { TrackEvent::Note(n) => n.velocity, _ => -1 }).collect();
    assert_eq!(velocities, vec![126, 50]);
}

fn change(id: u128, position: i64, value: i32) -> (TrackEvent, TrackEvent) {
    let p = TrackEvent::AudioPluginParameter(PluginParameter { id, plugin_uuid: 0, instrument: false, position, index: 0, value });
    (p, p)
}

#[test]
fn controller_change_takes_position_and_whole_value() {
    let mut state = state_with(TrackKind::Midi);
    state.song.tracks[0].automation.events = vec![controller(1, 1000, 7, 10), controller(2, 2000, 7, 20)];
    handle_automation_controller_change(&mut state, vec![change(2, 500, 64000)]);
    let events = track_events(&state);
    assert_eq!(positions(events), vec![500, 1000]);
    match events[0] {
        TrackEvent::Controller(c) => {
            assert_eq!(c.id, 2);
            assert_eq!(c.value, 64);
        },
        _ => panic!("expected a controller"),
    }
}

#[test]
fn instrument_change_updates_parameter_values() {
    let mut state = state_with(TrackKind::Instrument);
    state.instrument_parameter_type = None;
    state.song.tracks[0].automation.events = vec![TrackEvent::AudioPluginParameter(PluginParameter { id: 5, plugin_uuid: INSTRUMENT, instrument: true, position: 0, index: 2, value: 0 })];
    handle_automation_instrument_change(&mut state, vec![change(5, 250, 750)]);
    match track_events(&state)[0] {
        TrackEvent::AudioPluginParameter(p) => {
            assert_eq!(p.position, 250);
            assert_eq!(p.value, 750);
        },
        _ => panic!("expected a parameter"),
    }
}

#[test]
fn effect_change_needs_a_chosen_parameter() {
    let mut state = state_with(TrackKind::Audio);
    state.effect_parameter_type = None;
    state.song.tracks[0].automation.events = vec![TrackEvent::AudioPluginParameter(PluginParameter { id: 5, plugin_uuid: EFFECT, instrument: false, position: 0, index: 3, value: 0 })];
    handle_automation_effect_change(&mut state, vec![change(5, 250, 750)]);
    assert_eq!(track_events(&state)[0].position(), 0);
}

#[test]
fn change_ignores_events_of_another_kind() {
    let mut state = state_with(TrackKind::Instrument);
    state.song.tracks[0].automation.events = vec![controller(1, 1000, 7, 10)];
    handle_automation_note_expression_change(&mut state, vec![change(1, 0, 0)]);
    handle_automation_pitch_bend_change(&mut state, vec![change(1, 0, 0)]);
    assert_eq!(track_events(&state)[0].position(), 1000);
}

#[test]
fn dispatch_follows_the_view_mode() {
    let mut state = state_with(TrackKind::Midi);
    state.automation_view_mode = AutomationViewMode::PitchBend;
    handle_automation_add(0, 127, &mut state);
    assert!(matches!(track_events(&state)[0], TrackEvent::PitchBend(_)));
    state.automation_view_mode = AutomationViewMode::NoteVelocities;
    handle_automation_add(0, 127, &mut state);
    assert_eq!(track_events(&state).len(), 1);
    state.automation_view_mode = AutomationViewMode::PitchBend;
    handle_automation_change(&mut state, vec![]);
    assert_eq!(track_events(&state).len(), 1);
}

#[test]
fn riff_edit_type_works_on_the_selected_riff() {
    let mut state = state_with(TrackKind::Midi);
    state.automation_edit_type = AutomationEditType::Riff;
    handle_automation_controller_add(100, 1, &mut state);
    assert_eq!(state.song.tracks[0].riffs[0].events.len(), 1);
    assert!(track_events(&state).is_empty());
    state.selected_riffs = vec![];
    handle_automation_controller_add(100, 1, &mut state);
    assert_eq!(state.song.tracks[0].riffs[0].events.len(), 1);
}

#[test]
fn existing_envelope_of_the_kind_is_reused() {
    let mut state = state_with(TrackKind::Midi);
    state.automation_discrete = false;
    state.song.tracks[0].automation.envelopes = vec![AutomationEnvelope {
        event_details: TrackEvent::PitchBend(PitchBend { id: 50, position: 0, value: 0 }),
        events: vec![],
    }];
    handle_automation_pitch_bend_add(10, 64, &mut state);
    let automation = &state.song.tracks[0].automation;
    assert_eq!(automation.envelopes.len(), 1);
    assert_eq!(automation.envelopes[0].events.len(), 1);
    let _ = TrackAutomation { track_id: 0, automation: Automation { events: vec![], envelopes: vec![] } };
}

#[test]
fn moving_right_then_left_and_up_then_down_gives_the_events_back() {
    let mut state = state_with(TrackKind::Midi);
    state.song.tracks[0].automation.events = vec![controller(1, 1000, 7, 64), controller(2, 2000, 7, 10)];
    state.selected_automation = vec![1, 2];
    handle_automation_controller_translate_selected(&mut state, TranslateDirection::Right, 250);
    handle_automation_controller_translate_selected(&mut state, TranslateDirection::Left, 250);
    handle_automation_controller_translate_selected(&mut state, TranslateDirection::Up, 0);
    handle_automation_controller_translate_selected(&mut state, TranslateDirection::Down, 0);
    let events = track_events(&state);
    assert_eq!(positions(events), vec![1000, 2000]);
    let values: Vec<i32> = events.iter().map(|e| match e { TrackEvent::Controller(c) => c.value, _ => -1 }).collect();
    assert_eq!(values, vec![64, 10]);
}

#[test]
fn dispatched_note_expression_cut_copy_paste_and_delete() {
    let mut state = state_with(TrackKind::Instrument);
    state.automation_view_mode = AutomationViewMode::NoteExpression;
    let x = |id, position| TrackEvent::NoteExpression(NoteExpression { id, position, expression_type: NoteExpressionType::Volume, port: 0, channel: 0, note_id: 5, key: 0, value: 300 });
    state.song.tracks[0].automation.events = vec![x(1, 1000), x(2, 2000)];
    state.selected_automation = vec![2];
    handle_automation_copy(&mut state, 1500);
    assert_eq!(positions(&state.automation_event_copy_buffer), vec![500]);
    assert_eq!(track_events(&state).len(), 2);
    handle_automation_cut(&mut state, 2000);
    assert_eq!(positions(&state.automation_event_copy_buffer), vec![0]);
    assert_eq!(positions(track_events(&state)), vec![1000]);
    handle_automation_paste(&mut state, 3000);
    assert_eq!(positions(track_events(&state)), vec![1000, 3000]);
    handle_automation_delete(1000, &mut state);
    assert_eq!(positions(track_events(&state)), vec![3000]);
}

#[test]
fn effect_paste_after_copy_moves_copies_from_one_cursor_to_the_other() {
    let mut state = state_with(TrackKind::Instrument);
    let p = |id, position, value| TrackEvent::AudioPluginParameter(PluginParameter { id, plugin_uuid: EFFECT, instrument: false, position, index: 3, value });
    state.song.tracks[0].automation.events = vec![p(1, 1200, 10), p(2, 1700, 20), p(3, 2500, 30)];
    state.selected_automation = vec![1, 2];
    handle_automation_effect_copy(&mut state, 1000);
    handle_automation_effect_paste(&mut state, 3000);
    let events = track_events(&state);
    assert_eq!(positions(events), vec![1200, 1700, 2500, 3200, 3700]);
    let values: Vec<i32> = events.iter().map(|e| match e { TrackEvent::AudioPluginParameter(x) => x.value, _ => -1 }).collect();
    assert_eq!(values, vec![10, 20, 30, 10, 20]);
    assert!(events[3].id() != 1 && events[4].id() != 2 && events[3].id() != events[4].id());
    let v4 = |id: u128| id & 0xF000C000000000000000u128 == 0x40008000000000000000u128;
    assert!(v4(events[3].id()) && v4(events[4].id()));
}
