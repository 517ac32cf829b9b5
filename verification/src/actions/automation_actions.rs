//! Handlers of the automation editor: adding, deleting, cutting, copying, pasting,
//! nudging and changing automation events of the kind the automation view shows.
//!
//! Each kind of automation (instrument parameters, note expressions, effect parameters,
//! controllers, pitch bend, note velocities) names the event list it works on by a
//! `TargetRequest` and the events it touches by an `EventMatch`; the rest is shared.
//! Times, cursors and snaps are in thousandths of a beat.
use vstd::prelude::*;
use crate::automation_edits::{
    clip_target, clipped, copy_ids, edit_target, edited, lemma_edited_same, list_edit_ok, Clip, ListEdit,
};
use crate::automation_target::{EnvelopeRequest, EventMatch, TargetRequest, TrackFilter};
use crate::domain::{
    find_track, Controller, ItemId, NoteExpression, PitchBend, PluginParameter, TrackEvent,
};
use crate::event::{AutomationEditType, AutomationViewMode, CurrentView, TranslateDirection};
use crate::event_edits::{div_toward_zero, EventKind};
use crate::ids::{new_item_id, is_fresh_id, all_fresh};
use crate::numeric::clamp_i32;
use crate::seq_search::first_match;
use crate::domain::arrangement_has_id;
use crate::state::{selected_track_index, RiffDAWState, RiffDAWStateView};

verus! {

// ---------------------------------------------------------------------------
// Values.
// ---------------------------------------------------------------------------

/// The number of entries of the controller type list.
pub const CONTROLLER_TYPE_COUNT: i32 = 128;

/// The MIDI controller number of an entry of the controller type list, which lists the
/// controllers in number order.
pub open spec fn controller_number(index: i32) -> i32 {
    index
}

fn controller_number_of(index: i32) -> (r: i32)
    ensures
        r == controller_number(index),
{
    index
}

pub open spec fn or_zero(o: Option<i32>) -> i32 {
    match o {
        Some(i) => i,
        None => 0,
    }
}

fn value_or_zero(o: Option<i32>) -> (r: i32)
    ensures
        r == or_zero(o),
{
    match o {
        Some(i) => i,
        None => 0,
    }
}

fn div_toward_zero_by(a: i64, b: i64) -> (r: i64)
    requires
        b > 0,
        a > i64::MIN,
    ensures
        r == div_toward_zero(a as int, b as int),
{
    if a >= 0 {
        a / b
    } else {
        -((-a) / b)
    }
}

/// A value of the 0 to 127 scale of the editor as thousandths of a full scale.
pub open spec fn fraction_of_127(v: i32) -> i32 {
    clamp_i32(div_toward_zero(v * 1000, 127))
}

/// A value of the 0 to 127 scale of the editor as a pitch bend (-8192 to 8192).
pub open spec fn pitch_bend_of_127(v: i32) -> i32 {
    clamp_i32(div_toward_zero(v * 16384 - 8192 * 127, 127))
}

fn clamp_to_i32(x: i64) -> (r: i32)
    ensures
        r == clamp_i32(x as int),
{
    if x < i32::MIN as i64 {
        i32::MIN
    } else if x > i32::MAX as i64 {
        i32::MAX
    } else {
        x as i32
    }
}

fn fraction_from_127(v: i32) -> (r: i32)
    ensures
        r == fraction_of_127(v),
{
    clamp_to_i32(div_toward_zero_by((v as i64) * 1000, 127))
}

fn pitch_bend_from_127(v: i32) -> (r: i32)
    ensures
        r == pitch_bend_of_127(v),
{
    clamp_to_i32(div_toward_zero_by((v as i64) * 16384 - 8192 * 127, 127))
}

// ---------------------------------------------------------------------------
// What each kind of automation works on.
// ---------------------------------------------------------------------------

/// The instrument plugin of the selected track (0 when no track is selected).
pub open spec fn selected_instrument_of(s: RiffDAWStateView) -> ItemId {
    match selected_track_index(s) {
        Some(t) => s.song.tracks[t].instrument.id,
        None => 0,
    }
}

fn selected_instrument(state: &RiffDAWState) -> (r: ItemId)
    ensures
        r == selected_instrument_of(state@),
{
    match state.selected_track {
        Some(id) => match find_track(&state.song.tracks, id) {
            Some(t) => state.song.tracks[t].instrument.id,
            None => 0,
        },
        None => 0,
    }
}

pub open spec fn parameter_event(id: ItemId, plugin: ItemId, instrument: bool, position: i64, index: i32, value: i32) -> TrackEvent {
    TrackEvent::AudioPluginParameter(PluginParameter { id, plugin_uuid: plugin, instrument, position, index, value })
}

/// The envelope of a plugin parameter.
pub open spec fn parameter_envelope(plugin: ItemId, index: i32) -> EnvelopeRequest {
    EnvelopeRequest {
        find: EventMatch::ParameterOf { plugin, index },
        details: parameter_event(0, plugin, true, 0, index, 0),
        refind: EventMatch::ParameterOf { plugin, index },
    }
}

/// Instrument parameters: instrument tracks only; the envelope of the chosen parameter
/// of the track's instrument; nothing is created within a riff arrangement.
pub open spec fn instrument_request(s: RiffDAWStateView) -> TargetRequest {
    TargetRequest {
        tracks: TrackFilter::Instrument,
        discrete: s.automation_discrete,
        envelope: match s.instrument_parameter_type {
            Some(i) => Some(parameter_envelope(selected_instrument_of(s), i)),
            None => None,
        },
        create_in_arrangement: false,
    }
}

/// The note expression a new envelope or event gets from the note expression settings.
pub open spec fn note_expression_event(s: RiffDAWStateView, id: ItemId, position: i64, value: i32) -> TrackEvent {
    TrackEvent::NoteExpression(NoteExpression {
        id,
        position,
        expression_type: s.note_expression_type,
        port: s.note_expression_port_index,
        channel: s.note_expression_channel,
        note_id: s.note_expression_id,
        key: s.note_expression_key,
        value,
    })
}

/// Note expressions: instrument tracks only; the envelope of the type the view shows,
/// or a new one made from the note expression settings.
pub open spec fn note_expression_request(s: RiffDAWStateView) -> TargetRequest {
    TargetRequest {
        tracks: TrackFilter::Instrument,
        discrete: s.automation_discrete,
        envelope: Some(EnvelopeRequest {
            find: EventMatch::NoteExpressionOfType(s.view_note_expression_type),
            details: note_expression_event(s, 0, 0, 0),
            refind: EventMatch::NoteExpressionExactly {
                expression_type: s.note_expression_type,
                port: s.note_expression_port_index,
                channel: s.note_expression_channel,
                note_id: s.note_expression_id,
                key: s.note_expression_key,
            },
        }),
        create_in_arrangement: true,
    }
}

/// Effect parameters: instrument and audio tracks; the envelope of the chosen parameter
/// of the selected effect.
pub open spec fn effect_request(s: RiffDAWStateView, effect: ItemId) -> TargetRequest {
    TargetRequest {
        tracks: TrackFilter::InstrumentOrAudio,
        discrete: s.automation_discrete,
        envelope: match s.effect_parameter_type {
            Some(i) => Some(parameter_envelope(effect, i)),
            None => None,
        },
        create_in_arrangement: true,
    }
}

pub open spec fn controller_event(id: ItemId, position: i64, controller: i32, value: i32) -> TrackEvent {
    TrackEvent::Controller(Controller { id, position, controller, value })
}

/// Controllers: any track; the envelope of the chosen controller.
pub open spec fn controller_request(s: RiffDAWStateView) -> TargetRequest {
    TargetRequest {
        tracks: TrackFilter::Any,
        discrete: s.automation_discrete,
        envelope: match s.controller_type_index {
            Some(i) => Some(EnvelopeRequest {
                find: EventMatch::ControllerNumber(controller_number(i)),
                details: controller_event(0, 0, controller_number(i), 0),
                refind: EventMatch::ControllerNumber(controller_number(i)),
            }),
            None => None,
        },
        create_in_arrangement: true,
    }
}

pub open spec fn pitch_bend_event(id: ItemId, position: i64, value: i32) -> TrackEvent {
    TrackEvent::PitchBend(PitchBend { id, position, value })
}

/// Pitch bend: any track; the pitch bend envelope.
pub open spec fn pitch_bend_request(s: RiffDAWStateView) -> TargetRequest {
    TargetRequest {
        tracks: TrackFilter::Any,
        discrete: s.automation_discrete,
        envelope: Some(EnvelopeRequest {
            find: EventMatch::AnyPitchBend,
            details: pitch_bend_event(0, 0, 0),
            refind: EventMatch::AnyPitchBend,
        }),
        create_in_arrangement: true,
    }
}

/// Note velocities: any track; the discrete events, which within a riff arrangement must
/// already exist.
pub open spec fn velocity_request(s: RiffDAWStateView) -> TargetRequest {
    TargetRequest { tracks: TrackFilter::Any, discrete: true, envelope: None, create_in_arrangement: false }
}

fn instrument_request_of(state: &RiffDAWState) -> (r: TargetRequest)
    ensures
        r == instrument_request(state@),
{
    let plugin = selected_instrument(state);
    TargetRequest {
        tracks: TrackFilter::Instrument,
        discrete: state.automation_discrete,
        envelope: match state.instrument_parameter_type {
            Some(i) => Some(EnvelopeRequest {
                find: EventMatch::ParameterOf { plugin, index: i },
                details: TrackEvent::AudioPluginParameter(PluginParameter { id: 0, plugin_uuid: plugin, instrument: true, position: 0, index: i, value: 0 }),
                refind: EventMatch::ParameterOf { plugin, index: i },
            }),
            None => None,
        },
        create_in_arrangement: false,
    }
}

fn note_expression_event_of(state: &RiffDAWState, id: ItemId, position: i64, value: i32) -> (r: TrackEvent)
    ensures
        r == note_expression_event(state@, id, position, value),
{
    TrackEvent::NoteExpression(NoteExpression {
        id,
        position,
        expression_type: state.note_expression_type,
        port: state.note_expression_port_index,
        channel: state.note_expression_channel,
        note_id: state.note_expression_id,
        key: state.note_expression_key,
        value,
    })
}

fn note_expression_request_of(state: &RiffDAWState) -> (r: TargetRequest)
    ensures
        r == note_expression_request(state@),
{
    TargetRequest {
        tracks: TrackFilter::Instrument,
        discrete: state.automation_discrete,
        envelope: Some(EnvelopeRequest {
            find: EventMatch::NoteExpressionOfType(state.view_note_expression_type),
            details: note_expression_event_of(state, 0, 0, 0),
            refind: EventMatch::NoteExpressionExactly {
                expression_type: state.note_expression_type,
                port: state.note_expression_port_index,
                channel: state.note_expression_channel,
                note_id: state.note_expression_id,
                key: state.note_expression_key,
            },
        }),
        create_in_arrangement: true,
    }
}

fn effect_request_of(state: &RiffDAWState, effect: ItemId) -> (r: TargetRequest)
    ensures
        r == effect_request(state@, effect),
{
    TargetRequest {
        tracks: TrackFilter::InstrumentOrAudio,
        discrete: state.automation_discrete,
        envelope: match state.effect_parameter_type {
            Some(i) => Some(EnvelopeRequest {
                find: EventMatch::ParameterOf { plugin: effect, index: i },
                details: TrackEvent::AudioPluginParameter(PluginParameter { id: 0, plugin_uuid: effect, instrument: true, position: 0, index: i, value: 0 }),
                refind: EventMatch::ParameterOf { plugin: effect, index: i },
            }),
            None => None,
        },
        create_in_arrangement: true,
    }
}

fn controller_request_of(state: &RiffDAWState) -> (r: TargetRequest)
    ensures
        r == controller_request(state@),
{
    TargetRequest {
        tracks: TrackFilter::Any,
        discrete: state.automation_discrete,
        envelope: match state.controller_type_index {
            Some(i) => {
                let n = controller_number_of(i);
                Some(EnvelopeRequest {
                    find: EventMatch::ControllerNumber(n),
                    details: TrackEvent::Controller(Controller { id: 0, position: 0, controller: n, value: 0 }),
                    refind: EventMatch::ControllerNumber(n),
                })
            },
            None => None,
        },
        create_in_arrangement: true,
    }
}

fn pitch_bend_request_of(state: &RiffDAWState) -> (r: TargetRequest)
    ensures
        r == pitch_bend_request(state@),
{
    TargetRequest {
        tracks: TrackFilter::Any,
        discrete: state.automation_discrete,
        envelope: Some(EnvelopeRequest {
            find: EventMatch::AnyPitchBend,
            details: TrackEvent::PitchBend(PitchBend { id: 0, position: 0, value: 0 }),
            refind: EventMatch::AnyPitchBend,
        }),
        create_in_arrangement: true,
    }
}

// ---------------------------------------------------------------------------
// When the controller type list is consulted.
// ---------------------------------------------------------------------------

/// A controller edit looks the chosen controller up in the controller type list
/// whenever the selected track exists and a controller is chosen.
pub open spec fn controller_index_usable(s: RiffDAWStateView) -> bool {
    selected_track_index(s) is Some && s.controller_type_index is Some
        ==> 0 <= or_zero(s.controller_type_index) < CONTROLLER_TYPE_COUNT
}

/// A controller change looks the chosen controller up only to find its envelope.
pub open spec fn controller_envelope_usable(s: RiffDAWStateView) -> bool {
    (selected_track_index(s) is Some && !s.automation_discrete && s.controller_type_index is Some
        && (s.current_view == CurrentView::RiffArrangement ==> (s.selected_riff_arrangement_uuid matches Some(aid)
            && first_match(s.song.riff_arrangements, arrangement_has_id(aid)) is Some))
        && (s.current_view != CurrentView::RiffArrangement ==> s.automation_edit_type == AutomationEditType::Track))
        ==> 0 <= or_zero(s.controller_type_index) < CONTROLLER_TYPE_COUNT
}

// ---------------------------------------------------------------------------
// The state after an edit of each kind.
// ---------------------------------------------------------------------------

/// An instrument-parameter edit; with `typed`, it applies only when a parameter is chosen.
pub open spec fn instrument_edited(s: RiffDAWStateView, id: ItemId, typed: bool, op: ListEdit) -> RiffDAWStateView {
    edited(s, instrument_request(s), id, !typed || s.instrument_parameter_type is Some, op)
}

pub open spec fn note_expression_edited(s: RiffDAWStateView, id: ItemId, op: ListEdit) -> RiffDAWStateView {
    edited(s, note_expression_request(s), id, true, op)
}

/// An effect-parameter edit: nothing happens without a selected effect.
pub open spec fn effect_edited(s: RiffDAWStateView, id: ItemId, op: ListEdit) -> RiffDAWStateView {
    match s.selected_effect_plugin_uuid {
        Some(fx) => edited(s, effect_request(s, fx), id, s.effect_parameter_type is Some, op),
        None => s,
    }
}

pub open spec fn controller_edited(s: RiffDAWStateView, id: ItemId, op: ListEdit) -> RiffDAWStateView {
    edited(s, controller_request(s), id, s.controller_type_index is Some, op)
}

pub open spec fn pitch_bend_edited(s: RiffDAWStateView, id: ItemId, op: ListEdit) -> RiffDAWStateView {
    edited(s, pitch_bend_request(s), id, true, op)
}

/// The effect the effect edits work on (0 when none is selected).
pub open spec fn selected_effect_of(s: RiffDAWStateView) -> ItemId {
    match s.selected_effect_plugin_uuid {
        Some(fx) => fx,
        None => 0,
    }
}

/// The controller the controller edits work on.
pub open spec fn chosen_controller(s: RiffDAWStateView) -> i32 {
    controller_number(or_zero(s.controller_type_index))
}

// ---------------------------------------------------------------------------
// Adding.
// ---------------------------------------------------------------------------

pub open spec fn instrument_added(s: RiffDAWStateView, time: i64, value: i32, event_id: ItemId, id: ItemId) -> RiffDAWStateView {
    instrument_edited(s, id, true, ListEdit::Add(parameter_event(event_id, selected_instrument_of(s), true, time, or_zero(s.instrument_parameter_type), fraction_of_127(value))))
}

pub open spec fn note_expression_added(s: RiffDAWStateView, time: i64, value: i32, event_id: ItemId, id: ItemId) -> RiffDAWStateView {
    note_expression_edited(s, id, ListEdit::Add(note_expression_event(s, event_id, time, fraction_of_127(value))))
}

pub open spec fn effect_added(s: RiffDAWStateView, time: i64, value: i32, event_id: ItemId, id: ItemId) -> RiffDAWStateView {
    effect_edited(s, id, ListEdit::Add(parameter_event(event_id, selected_effect_of(s), false, time, or_zero(s.effect_parameter_type), fraction_of_127(value))))
}

pub open spec fn controller_added(s: RiffDAWStateView, time: i64, value: i32, event_id: ItemId, id: ItemId) -> RiffDAWStateView {
    controller_edited(s, id, ListEdit::Add(controller_event(event_id, time, chosen_controller(s), value)))
}

pub open spec fn pitch_bend_added(s: RiffDAWStateView, time: i64, value: i32, event_id: ItemId, id: ItemId) -> RiffDAWStateView {
    pitch_bend_edited(s, id, ListEdit::Add(pitch_bend_event(event_id, time, pitch_bend_of_127(value))))
}

/// Adds a value of the chosen instrument parameter at a time (value on the 0 to 127 scale).
pub fn handle_automation_instrument_add(time: i64, value: i32, state: &mut RiffDAWState)
    ensures
        exists|event_id: ItemId, id: ItemId| is_fresh_id(event_id) && is_fresh_id(id) && final(state)@ == instrument_added(old(state)@, time, value, event_id, id),
{
    let event_id = new_item_id();
    let id = new_item_id();
    let req = instrument_request_of(state);
    let e = TrackEvent::AudioPluginParameter(PluginParameter {
        id: event_id,
        plugin_uuid: selected_instrument(state),
        instrument: true,
        position: time,
        index: value_or_zero(state.instrument_parameter_type),
        value: fraction_from_127(value),
    });
    let apply = state.instrument_parameter_type.is_some();
    edit_target(state, &req, id, apply, &ListEdit::Add(e));
    assert(state@ == instrument_added(old(state)@, time, value, event_id, id));
}

/// Adds a note expression made from the note expression settings at a time.
pub fn handle_automation_note_expression_add(time: i64, value: i32, state: &mut RiffDAWState)
    ensures
        exists|event_id: ItemId, id: ItemId| is_fresh_id(event_id) && is_fresh_id(id) && final(state)@ == note_expression_added(old(state)@, time, value, event_id, id),
{
    let event_id = new_item_id();
    let id = new_item_id();
    let req = note_expression_request_of(state);
    let e = note_expression_event_of(state, event_id, time, fraction_from_127(value));
    edit_target(state, &req, id, true, &ListEdit::Add(e));
    assert(state@ == note_expression_added(old(state)@, time, value, event_id, id));
}

/// Adds a value of the chosen parameter of the selected effect at a time.
pub fn handle_automation_effect_add(time: i64, value: i32, state: &mut RiffDAWState)
    ensures
        exists|event_id: ItemId, id: ItemId| is_fresh_id(event_id) && is_fresh_id(id) && final(state)@ == effect_added(old(state)@, time, value, event_id, id),
{
    let event_id = new_item_id();
    let id = new_item_id();
    match state.selected_effect_plugin_uuid {
        Some(fx) => {
            let req = effect_request_of(state, fx);
            let e = TrackEvent::AudioPluginParameter(PluginParameter {
                id: event_id,
                plugin_uuid: fx,
                instrument: false,
                position: time,
                index: value_or_zero(state.effect_parameter_type),
                value: fraction_from_127(value),
            });
            let apply = state.effect_parameter_type.is_some();
            edit_target(state, &req, id, apply, &ListEdit::Add(e));
        },
        None => {},
    }
    assert(state@ == effect_added(old(state)@, time, value, event_id, id));
}

/// Adds a value of the chosen controller at a time.
pub fn handle_automation_controller_add(time: i64, value: i32, state: &mut RiffDAWState)
    requires
        controller_index_usable(old(state)@),
    ensures
        exists|event_id: ItemId, id: ItemId| is_fresh_id(event_id) && is_fresh_id(id) && final(state)@ == controller_added(old(state)@, time, value, event_id, id),
{
    let event_id = new_item_id();
    let id = new_item_id();
    let req = controller_request_of(state);
    let e = TrackEvent::Controller(Controller {
        id: event_id,
        position: time,
        controller: controller_number_of(value_or_zero(state.controller_type_index)),
        value,
    });
    let apply = state.controller_type_index.is_some();
    edit_target(state, &req, id, apply, &ListEdit::Add(e));
    assert(state@ == controller_added(old(state)@, time, value, event_id, id));
}

/// Adds a pitch bend at a time (value on the 0 to 127 scale).
pub fn handle_automation_pitch_bend_add(time: i64, value: i32, state: &mut RiffDAWState)
    ensures
        exists|event_id: ItemId, id: ItemId| is_fresh_id(event_id) && is_fresh_id(id) && final(state)@ == pitch_bend_added(old(state)@, time, value, event_id, id),
{
    let event_id = new_item_id();
    let id = new_item_id();
    let req = pitch_bend_request_of(state);
    let e = TrackEvent::PitchBend(PitchBend { id: event_id, position: time, value: pitch_bend_from_127(value) });
    edit_target(state, &req, id, true, &ListEdit::Add(e));
    assert(state@ == pitch_bend_added(old(state)@, time, value, event_id, id));
}

/// Adds an event of the kind the automation view shows.
pub fn handle_automation_add(time: i64, value: i32, state: &mut RiffDAWState)
    requires
        old(state)@.automation_view_mode == AutomationViewMode::Controllers ==> controller_index_usable(old(state)@),
    ensures
        match old(state)@.automation_view_mode {
            AutomationViewMode::Controllers => exists|event_id: ItemId, id: ItemId| is_fresh_id(event_id) && is_fresh_id(id) && final(state)@ == controller_added(old(state)@, time, value, event_id, id),
            AutomationViewMode::PitchBend => exists|event_id: ItemId, id: ItemId| is_fresh_id(event_id) && is_fresh_id(id) && final(state)@ == pitch_bend_added(old(state)@, time, value, event_id, id),
            AutomationViewMode::Instrument => exists|event_id: ItemId, id: ItemId| is_fresh_id(event_id) && is_fresh_id(id) && final(state)@ == instrument_added(old(state)@, time, value, event_id, id),
            AutomationViewMode::Effect => exists|event_id: ItemId, id: ItemId| is_fresh_id(event_id) && is_fresh_id(id) && final(state)@ == effect_added(old(state)@, time, value, event_id, id),
            AutomationViewMode::NoteExpression => exists|event_id: ItemId, id: ItemId| is_fresh_id(event_id) && is_fresh_id(id) && final(state)@ == note_expression_added(old(state)@, time, value, event_id, id),
            AutomationViewMode::NoteVelocities => final(state)@ == old(state)@,
        },
{
    match state.automation_view_mode {
        AutomationViewMode::Controllers => handle_automation_controller_add(time, value, state),
        AutomationViewMode::PitchBend => handle_automation_pitch_bend_add(time, value, state),
        AutomationViewMode::Instrument => handle_automation_instrument_add(time, value, state),
        AutomationViewMode::Effect => handle_automation_effect_add(time, value, state),
        AutomationViewMode::NoteExpression => handle_automation_note_expression_add(time, value, state),
        AutomationViewMode::NoteVelocities => {},
    }
}

// ---------------------------------------------------------------------------
// Deleting.
// ---------------------------------------------------------------------------

pub open spec fn instrument_deleted(s: RiffDAWStateView, time: i64, id: ItemId) -> RiffDAWStateView {
    instrument_edited(s, id, true, ListEdit::Delete {
        m: EventMatch::ParameterOfKind { plugin: selected_instrument_of(s), index: or_zero(s.instrument_parameter_type), instrument: true },
        time,
        sort: false,
    })
}

pub open spec fn note_expression_deleted(s: RiffDAWStateView, time: i64, id: ItemId) -> RiffDAWStateView {
    note_expression_edited(s, id, ListEdit::Delete {
        m: EventMatch::NoteExpressionFor { note_id: s.note_expression_id, expression_type: s.note_expression_type },
        time,
        sort: true,
    })
}

pub open spec fn effect_deleted(s: RiffDAWStateView, time: i64, id: ItemId) -> RiffDAWStateView {
    effect_edited(s, id, ListEdit::Delete {
        m: EventMatch::ParameterOfKind { plugin: selected_effect_of(s), index: or_zero(s.effect_parameter_type), instrument: false },
        time,
        sort: false,
    })
}

pub open spec fn controller_deleted(s: RiffDAWStateView, time: i64, id: ItemId) -> RiffDAWStateView {
    controller_edited(s, id, ListEdit::Delete { m: EventMatch::ControllerNumber(chosen_controller(s)), time, sort: true })
}

pub open spec fn pitch_bend_deleted(s: RiffDAWStateView, time: i64, id: ItemId) -> RiffDAWStateView {
    pitch_bend_edited(s, id, ListEdit::Delete { m: EventMatch::AnyPitchBend, time, sort: true })
}

/// Deletes the values of the chosen instrument parameter near a time.
pub fn handle_automation_instrument_delete(time: i64, state: &mut RiffDAWState)
    ensures
        exists|id: ItemId| is_fresh_id(id) && final(state)@ == instrument_deleted(old(state)@, time, id),
{
    let id = new_item_id();
    let req = instrument_request_of(state);
    let m = EventMatch::ParameterOfKind {
        plugin: selected_instrument(state),
        index: value_or_zero(state.instrument_parameter_type),
        instrument: true,
    };
    let apply = state.instrument_parameter_type.is_some();
    edit_target(state, &req, id, apply, &ListEdit::Delete { m, time, sort: false });
    assert(state@ == instrument_deleted(old(state)@, time, id));
}

/// Deletes the note expressions of the set type (and note id, unless it is -1) near a time.
pub fn handle_automation_note_expression_delete(time: i64, state: &mut RiffDAWState)
    ensures
        exists|id: ItemId| is_fresh_id(id) && final(state)@ == note_expression_deleted(old(state)@, time, id),
{
    let id = new_item_id();
    let req = note_expression_request_of(state);
    let m = EventMatch::NoteExpressionFor { note_id: state.note_expression_id, expression_type: state.note_expression_type };
    edit_target(state, &req, id, true, &ListEdit::Delete { m, time, sort: true });
    assert(state@ == note_expression_deleted(old(state)@, time, id));
}

/// Deletes the values of the chosen parameter of the selected effect near a time.
pub fn handle_automation_effect_delete(time: i64, state: &mut RiffDAWState)
    ensures
        exists|id: ItemId| is_fresh_id(id) && final(state)@ == effect_deleted(old(state)@, time, id),
{
    let id = new_item_id();
    match state.selected_effect_plugin_uuid {
        Some(fx) => {
            let req = effect_request_of(state, fx);
            let m = EventMatch::ParameterOfKind { plugin: fx, index: value_or_zero(state.effect_parameter_type), instrument: false };
            let apply = state.effect_parameter_type.is_some();
            edit_target(state, &req, id, apply, &ListEdit::Delete { m, time, sort: false });
        },
        None => {},
    }
    assert(state@ == effect_deleted(old(state)@, time, id));
}

/// Deletes the values of the chosen controller near a time.
pub fn handle_automation_controller_delete(time: i64, state: &mut RiffDAWState)
    requires
        controller_index_usable(old(state)@),
    ensures
        exists|id: ItemId| is_fresh_id(id) && final(state)@ == controller_deleted(old(state)@, time, id),
{
    let id = new_item_id();
    let req = controller_request_of(state);
    let m = EventMatch::ControllerNumber(controller_number_of(value_or_zero(state.controller_type_index)));
    let apply = state.controller_type_index.is_some();
    edit_target(state, &req, id, apply, &ListEdit::Delete { m, time, sort: true });
    assert(state@ == controller_deleted(old(state)@, time, id));
}

/// Deletes the pitch bends near a time.
pub fn handle_automation_pitch_bend_delete(time: i64, state: &mut RiffDAWState)
    ensures
        exists|id: ItemId| is_fresh_id(id) && final(state)@ == pitch_bend_deleted(old(state)@, time, id),
{
    let id = new_item_id();
    let req = pitch_bend_request_of(state);
    edit_target(state, &req, id, true, &ListEdit::Delete { m: EventMatch::AnyPitchBend, time, sort: true });
    assert(state@ == pitch_bend_deleted(old(state)@, time, id));
}

/// Deletes events of the kind the automation view shows near a time.
pub fn handle_automation_delete(time: i64, state: &mut RiffDAWState)
    requires
        old(state)@.automation_view_mode == AutomationViewMode::Controllers ==> controller_index_usable(old(state)@),
    ensures
        match old(state)@.automation_view_mode {
            AutomationViewMode::Controllers => exists|id: ItemId| is_fresh_id(id) && final(state)@ == controller_deleted(old(state)@, time, id),
            AutomationViewMode::PitchBend => exists|id: ItemId| is_fresh_id(id) && final(state)@ == pitch_bend_deleted(old(state)@, time, id),
            AutomationViewMode::Instrument => exists|id: ItemId| is_fresh_id(id) && final(state)@ == instrument_deleted(old(state)@, time, id),
            AutomationViewMode::Effect => exists|id: ItemId| is_fresh_id(id) && final(state)@ == effect_deleted(old(state)@, time, id),
            AutomationViewMode::NoteExpression => exists|id: ItemId| is_fresh_id(id) && final(state)@ == note_expression_deleted(old(state)@, time, id),
            AutomationViewMode::NoteVelocities => final(state)@ == old(state)@,
        },
{
    match state.automation_view_mode {
        AutomationViewMode::Controllers => handle_automation_controller_delete(time, state),
        AutomationViewMode::PitchBend => handle_automation_pitch_bend_delete(time, state),
        AutomationViewMode::Instrument => handle_automation_instrument_delete(time, state),
        AutomationViewMode::Effect => handle_automation_effect_delete(time, state),
        AutomationViewMode::NoteExpression => handle_automation_note_expression_delete(time, state),
        AutomationViewMode::NoteVelocities => {},
    }
}

// ---------------------------------------------------------------------------
// Cutting and copying.
// ---------------------------------------------------------------------------

/// Copies (with `cut`, cuts) the selected values of the chosen instrument parameter;
/// a cut removes the selected values of the parameter's index whatever their plugin.
pub open spec fn instrument_clipped(s: RiffDAWStateView, cursor: i64, id: ItemId, cut: bool) -> RiffDAWStateView {
    let i = or_zero(s.instrument_parameter_type);
    clipped(s, instrument_request(s), id, s.instrument_parameter_type is Some,
        Clip::All(EventMatch::ParameterOf { plugin: selected_instrument_of(s), index: i }),
        if cut { Some(EventMatch::ParameterIndex(i)) } else { None }, cursor)
}

pub open spec fn note_expression_clipped(s: RiffDAWStateView, cursor: i64, id: ItemId, cut: bool) -> RiffDAWStateView {
    clipped(s, note_expression_request(s), id, true, Clip::All(EventMatch::AnyNoteExpression),
        if cut { Some(EventMatch::AnyNoteExpression) } else { None }, cursor)
}

pub open spec fn effect_clipped(s: RiffDAWStateView, cursor: i64, id: ItemId, cut: bool) -> RiffDAWStateView {
    match s.selected_effect_plugin_uuid {
        Some(fx) => {
            let m = EventMatch::ParameterOf { plugin: fx, index: or_zero(s.effect_parameter_type) };
            clipped(s, effect_request(s, fx), id, s.effect_parameter_type is Some, Clip::All(m), if cut { Some(m) } else { None }, cursor)
        },
        None => s,
    }
}

/// Copies the selected values of the chosen controller; a cut copies only the first
/// selected event (when it is of the chosen controller) and removes every selected one.
pub open spec fn controller_clipped(s: RiffDAWStateView, cursor: i64, id: ItemId, cut: bool) -> RiffDAWStateView {
    let m = EventMatch::ControllerNumber(chosen_controller(s));
    clipped(s, controller_request(s), id, s.controller_type_index is Some,
        if cut { Clip::First(m) } else { Clip::All(m) },
        if cut { Some(m) } else { None }, cursor)
}

pub open spec fn pitch_bend_clipped(s: RiffDAWStateView, cursor: i64, id: ItemId, cut: bool) -> RiffDAWStateView {
    clipped(s, pitch_bend_request(s), id, true, Clip::All(EventMatch::AnyPitchBend),
        if cut { Some(EventMatch::AnyPitchBend) } else { None }, cursor)
}

fn instrument_clip(state: &mut RiffDAWState, cursor: i64, cut: bool)
    ensures
        exists|id: ItemId| is_fresh_id(id) && final(state)@ == instrument_clipped(old(state)@, cursor, id, cut),
{
    let id = new_item_id();
    let req = instrument_request_of(state);
    let i = value_or_zero(state.instrument_parameter_type);
    let m = EventMatch::ParameterOf { plugin: selected_instrument(state), index: i };
    let remove = if cut { Some(EventMatch::ParameterIndex(i)) } else { None };
    let apply = state.instrument_parameter_type.is_some();
    clip_target(state, &req, id, apply, Clip::All(m), remove, cursor);
    assert(state@ == instrument_clipped(old(state)@, cursor, id, cut));
}

fn note_expression_clip(state: &mut RiffDAWState, cursor: i64, cut: bool)
    ensures
        exists|id: ItemId| is_fresh_id(id) && final(state)@ == note_expression_clipped(old(state)@, cursor, id, cut),
{
    let id = new_item_id();
    let req = note_expression_request_of(state);
    let remove = if cut { Some(EventMatch::AnyNoteExpression) } else { None };
    clip_target(state, &req, id, true, Clip::All(EventMatch::AnyNoteExpression), remove, cursor);
    assert(state@ == note_expression_clipped(old(state)@, cursor, id, cut));
}

fn effect_clip(state: &mut RiffDAWState, cursor: i64, cut: bool)
    ensures
        exists|id: ItemId| is_fresh_id(id) && final(state)@ == effect_clipped(old(state)@, cursor, id, cut),
{
    let id = new_item_id();
    match state.selected_effect_plugin_uuid {
        Some(fx) => {
            let req = effect_request_of(state, fx);
            let m = EventMatch::ParameterOf { plugin: fx, index: value_or_zero(state.effect_parameter_type) };
            let remove = if cut { Some(m) } else { None };
            let apply = state.effect_parameter_type.is_some();
            clip_target(state, &req, id, apply, Clip::All(m), remove, cursor);
        },
        None => {},
    }
    assert(state@ == effect_clipped(old(state)@, cursor, id, cut));
}

fn controller_clip(state: &mut RiffDAWState, cursor: i64, cut: bool)
    ensures
        exists|id: ItemId| is_fresh_id(id) && final(state)@ == controller_clipped(old(state)@, cursor, id, cut),
{
    let id = new_item_id();
    let req = controller_request_of(state);
    let m = EventMatch::ControllerNumber(controller_number_of(value_or_zero(state.controller_type_index)));
    let clip = if cut { Clip::First(m) } else { Clip::All(m) };
    let remove = if cut { Some(m) } else { None };
    let apply = state.controller_type_index.is_some();
    clip_target(state, &req, id, apply, clip, remove, cursor);
    assert(state@ == controller_clipped(old(state)@, cursor, id, cut));
}

fn pitch_bend_clip(state: &mut RiffDAWState, cursor: i64, cut: bool)
    ensures
        exists|id: ItemId| is_fresh_id(id) && final(state)@ == pitch_bend_clipped(old(state)@, cursor, id, cut),
{
    let id = new_item_id();
    let req = pitch_bend_request_of(state);
    let remove = if cut { Some(EventMatch::AnyPitchBend) } else { None };
    clip_target(state, &req, id, true, Clip::All(EventMatch::AnyPitchBend), remove, cursor);
    assert(state@ == pitch_bend_clipped(old(state)@, cursor, id, cut));
}

/// Cuts the selected values of the chosen instrument parameter, relative to the cursor.
pub fn handle_automation_instrument_cut(state: &mut RiffDAWState, edit_cursor_time: i64)
    ensures
        exists|id: ItemId| is_fresh_id(id) && final(state)@ == instrument_clipped(old(state)@, edit_cursor_time, id, true),
{
    instrument_clip(state, edit_cursor_time, true);
}

/// Cuts the selected note expressions, relative to the cursor.
pub fn handle_automation_note_expression_cut(state: &mut RiffDAWState, edit_cursor_time: i64)
    ensures
        exists|id: ItemId| is_fresh_id(id) && final(state)@ == note_expression_clipped(old(state)@, edit_cursor_time, id, true),
{
    note_expression_clip(state, edit_cursor_time, true);
}

/// Cuts the selected values of the chosen parameter of the selected effect.
pub fn handle_automation_effect_cut(state: &mut RiffDAWState, edit_cursor_time: i64)
    ensures
        exists|id: ItemId| is_fresh_id(id) && final(state)@ == effect_clipped(old(state)@, edit_cursor_time, id, true),
{
    effect_clip(state, edit_cursor_time, true);
}

/// Cuts the selected values of the chosen controller.
pub fn handle_automation_controller_cut(state: &mut RiffDAWState, edit_cursor_time: i64)
    requires
        controller_index_usable(old(state)@),
    ensures
        exists|id: ItemId| is_fresh_id(id) && final(state)@ == controller_clipped(old(state)@, edit_cursor_time, id, true),
{
    controller_clip(state, edit_cursor_time, true);
}

/// Cuts the selected pitch bends.
pub fn handle_automation_pitch_bend_cut(state: &mut RiffDAWState, edit_cursor_time: i64)
    ensures
        exists|id: ItemId| is_fresh_id(id) && final(state)@ == pitch_bend_clipped(old(state)@, edit_cursor_time, id, true),
{
    pitch_bend_clip(state, edit_cursor_time, true);
}

/// Copies the selected values of the chosen instrument parameter, relative to the cursor.
pub fn handle_automation_instrument_copy(state: &mut RiffDAWState, edit_cursor_time: i64)
    ensures
        exists|id: ItemId| is_fresh_id(id) && final(state)@ == instrument_clipped(old(state)@, edit_cursor_time, id, false),
{
    instrument_clip(state, edit_cursor_time, false);
}

/// Copies the selected note expressions, relative to the cursor.
pub fn handle_automation_note_expression_copy(state: &mut RiffDAWState, edit_cursor_time: i64)
    ensures
        exists|id: ItemId| is_fresh_id(id) && final(state)@ == note_expression_clipped(old(state)@, edit_cursor_time, id, false),
{
    note_expression_clip(state, edit_cursor_time, false);
}

/// Copies the selected values of the chosen parameter of the selected effect.
pub fn handle_automation_effect_copy(state: &mut RiffDAWState, edit_cursor_time: i64)
    ensures
        exists|id: ItemId| is_fresh_id(id) && final(state)@ == effect_clipped(old(state)@, edit_cursor_time, id, false),
{
    effect_clip(state, edit_cursor_time, false);
}

/// Copies the selected values of the chosen controller.
pub fn handle_automation_controller_copy(state: &mut RiffDAWState, edit_cursor_time: i64)
    requires
        controller_index_usable(old(state)@),
    ensures
        exists|id: ItemId| is_fresh_id(id) && final(state)@ == controller_clipped(old(state)@, edit_cursor_time, id, false),
{
    controller_clip(state, edit_cursor_time, false);
}

/// Copies the selected pitch bends.
pub fn handle_automation_pitch_bend_copy(state: &mut RiffDAWState, edit_cursor_time: i64)
    ensures
        exists|id: ItemId| is_fresh_id(id) && final(state)@ == pitch_bend_clipped(old(state)@, edit_cursor_time, id, false),
{
    pitch_bend_clip(state, edit_cursor_time, false);
}

/// Cuts the selected events of the kind the automation view shows.
pub fn handle_automation_cut(state: &mut RiffDAWState, edit_cursor_time: i64)
    requires
        old(state)@.automation_view_mode == AutomationViewMode::Controllers ==> controller_index_usable(old(state)@),
    ensures
        match old(state)@.automation_view_mode {
            AutomationViewMode::Controllers => exists|id: ItemId| is_fresh_id(id) && final(state)@ == controller_clipped(old(state)@, edit_cursor_time, id, true),
            AutomationViewMode::PitchBend => exists|id: ItemId| is_fresh_id(id) && final(state)@ == pitch_bend_clipped(old(state)@, edit_cursor_time, id, true),
            AutomationViewMode::Instrument => exists|id: ItemId| is_fresh_id(id) && final(state)@ == instrument_clipped(old(state)@, edit_cursor_time, id, true),
            AutomationViewMode::Effect => exists|id: ItemId| is_fresh_id(id) && final(state)@ == effect_clipped(old(state)@, edit_cursor_time, id, true),
            AutomationViewMode::NoteExpression => exists|id: ItemId| is_fresh_id(id) && final(state)@ == note_expression_clipped(old(state)@, edit_cursor_time, id, true),
            AutomationViewMode::NoteVelocities => final(state)@ == old(state)@,
        },
{
    match state.automation_view_mode {
        AutomationViewMode::Controllers => controller_clip(state, edit_cursor_time, true),
        AutomationViewMode::PitchBend => pitch_bend_clip(state, edit_cursor_time, true),
        AutomationViewMode::Instrument => instrument_clip(state, edit_cursor_time, true),
        AutomationViewMode::Effect => effect_clip(state, edit_cursor_time, true),
        AutomationViewMode::NoteExpression => note_expression_clip(state, edit_cursor_time, true),
        AutomationViewMode::NoteVelocities => {},
    }
}

/// Copies the selected events of the kind the automation view shows.
pub fn handle_automation_copy(state: &mut RiffDAWState, edit_cursor_time: i64)
    requires
        old(state)@.automation_view_mode == AutomationViewMode::Controllers ==> controller_index_usable(old(state)@),
    ensures
        match old(state)@.automation_view_mode {
            AutomationViewMode::Controllers => exists|id: ItemId| is_fresh_id(id) && final(state)@ == controller_clipped(old(state)@, edit_cursor_time, id, false),
            AutomationViewMode::PitchBend => exists|id: ItemId| is_fresh_id(id) && final(state)@ == pitch_bend_clipped(old(state)@, edit_cursor_time, id, false),
            AutomationViewMode::Instrument => exists|id: ItemId| is_fresh_id(id) && final(state)@ == instrument_clipped(old(state)@, edit_cursor_time, id, false),
            AutomationViewMode::Effect => exists|id: ItemId| is_fresh_id(id) && final(state)@ == effect_clipped(old(state)@, edit_cursor_time, id, false),
            AutomationViewMode::NoteExpression => exists|id: ItemId| is_fresh_id(id) && final(state)@ == note_expression_clipped(old(state)@, edit_cursor_time, id, false),
            AutomationViewMode::NoteVelocities => final(state)@ == old(state)@,
        },
{
    match state.automation_view_mode {
        AutomationViewMode::Controllers => controller_clip(state, edit_cursor_time, false),
        AutomationViewMode::PitchBend => pitch_bend_clip(state, edit_cursor_time, false),
        AutomationViewMode::Instrument => instrument_clip(state, edit_cursor_time, false),
        AutomationViewMode::Effect => effect_clip(state, edit_cursor_time, false),
        AutomationViewMode::NoteExpression => note_expression_clip(state, edit_cursor_time, false),
        AutomationViewMode::NoteVelocities => {},
    }
}

// ---------------------------------------------------------------------------
// Pasting.
// ---------------------------------------------------------------------------

pub open spec fn instrument_pasted(s: RiffDAWStateView, buffer: Vec<TrackEvent>, cursor: i64, id: ItemId, ids: Vec<ItemId>) -> RiffDAWStateView {
    instrument_edited(s, id, true, ListEdit::Paste {
        buffer,
        m: EventMatch::ParameterOf { plugin: selected_instrument_of(s), index: or_zero(s.instrument_parameter_type) },
        cursor,
        ids,
    })
}

pub open spec fn note_expression_pasted(s: RiffDAWStateView, buffer: Vec<TrackEvent>, cursor: i64, id: ItemId, ids: Vec<ItemId>) -> RiffDAWStateView {
    note_expression_edited(s, id, ListEdit::Paste { buffer, m: EventMatch::AnyNoteExpression, cursor, ids })
}

pub open spec fn effect_pasted(s: RiffDAWStateView, buffer: Vec<TrackEvent>, cursor: i64, id: ItemId, ids: Vec<ItemId>) -> RiffDAWStateView {
    effect_edited(s, id, ListEdit::Paste {
        buffer,
        m: EventMatch::ParameterOf { plugin: selected_effect_of(s), index: or_zero(s.effect_parameter_type) },
        cursor,
        ids,
    })
}

pub open spec fn controller_pasted(s: RiffDAWStateView, buffer: Vec<TrackEvent>, cursor: i64, id: ItemId, ids: Vec<ItemId>) -> RiffDAWStateView {
    controller_edited(s, id, ListEdit::Paste { buffer, m: EventMatch::ControllerNumber(chosen_controller(s)), cursor, ids })
}

pub open spec fn pitch_bend_pasted(s: RiffDAWStateView, buffer: Vec<TrackEvent>, cursor: i64, id: ItemId, ids: Vec<ItemId>) -> RiffDAWStateView {
    pitch_bend_edited(s, id, ListEdit::Paste { buffer, m: EventMatch::AnyPitchBend, cursor, ids })
}

/// Pastes the copied values of the chosen instrument parameter at the cursor, each under
/// a fresh identifier.
pub fn handle_automation_instrument_paste(state: &mut RiffDAWState, edit_cursor_time: i64)
    ensures
        exists|id: ItemId, ids: Vec<ItemId>| is_fresh_id(id) && all_fresh(ids@) && ids@.len() == old(state).automation_event_copy_buffer@.len()
            && final(state)@ == instrument_pasted(old(state)@, old(state).automation_event_copy_buffer, edit_cursor_time, id, ids),
{
    let id = new_item_id();
    let req = instrument_request_of(state);
    let buffer = crate::event_edits::copy_events(&state.automation_event_copy_buffer);
    let ids = crate::ids::new_item_ids(buffer.len());
    let ghost chosen = ids;
    let m = EventMatch::ParameterOf { plugin: selected_instrument(state), index: value_or_zero(state.instrument_parameter_type) };
    let apply = state.instrument_parameter_type.is_some();
    let op = ListEdit::Paste { buffer, m, cursor: edit_cursor_time, ids };
    edit_target(state, &req, id, apply, &op);
    proof {
        let spec_op = ListEdit::Paste { buffer: old(state).automation_event_copy_buffer, m, cursor: edit_cursor_time, ids: chosen };
        lemma_edited_same(old(state)@, req, id, apply, op, spec_op);
    }
    assert(state@ == instrument_pasted(old(state)@, old(state).automation_event_copy_buffer, edit_cursor_time, id, chosen));
}

/// Pastes the copied note expressions at the cursor, each under a fresh identifier.
pub fn handle_automation_note_expression_paste(state: &mut RiffDAWState, edit_cursor_time: i64)
    ensures
        exists|id: ItemId, ids: Vec<ItemId>| is_fresh_id(id) && all_fresh(ids@) && ids@.len() == old(state).automation_event_copy_buffer@.len()
            && final(state)@ == note_expression_pasted(old(state)@, old(state).automation_event_copy_buffer, edit_cursor_time, id, ids),
{
    let id = new_item_id();
    let req = note_expression_request_of(state);
    let buffer = crate::event_edits::copy_events(&state.automation_event_copy_buffer);
    let ids = crate::ids::new_item_ids(buffer.len());
    let ghost chosen = ids;
    let m = EventMatch::AnyNoteExpression;
    let op = ListEdit::Paste { buffer, m, cursor: edit_cursor_time, ids };
    edit_target(state, &req, id, true, &op);
    proof {
        let spec_op = ListEdit::Paste { buffer: old(state).automation_event_copy_buffer, m, cursor: edit_cursor_time, ids: chosen };
        lemma_edited_same(old(state)@, req, id, true, op, spec_op);
    }
    assert(state@ == note_expression_pasted(old(state)@, old(state).automation_event_copy_buffer, edit_cursor_time, id, chosen));
}

/// Pastes the copied values of the chosen parameter of the selected effect at the cursor.
pub fn handle_automation_effect_paste(state: &mut RiffDAWState, edit_cursor_time: i64)
    ensures
        exists|id: ItemId, ids: Vec<ItemId>| is_fresh_id(id) && all_fresh(ids@) && ids@.len() == old(state).automation_event_copy_buffer@.len()
            && final(state)@ == effect_pasted(old(state)@, old(state).automation_event_copy_buffer, edit_cursor_time, id, ids),
{
    let id = new_item_id();
    let buffer = crate::event_edits::copy_events(&state.automation_event_copy_buffer);
    let ids = crate::ids::new_item_ids(buffer.len());
    let ghost chosen = ids;
    match state.selected_effect_plugin_uuid {
        Some(fx) => {
            let req = effect_request_of(state, fx);
            let m = EventMatch::ParameterOf { plugin: fx, index: value_or_zero(state.effect_parameter_type) };
            let apply = state.effect_parameter_type.is_some();
            let op = ListEdit::Paste { buffer, m, cursor: edit_cursor_time, ids };
            edit_target(state, &req, id, apply, &op);
            proof {
                let spec_op = ListEdit::Paste { buffer: old(state).automation_event_copy_buffer, m, cursor: edit_cursor_time, ids: chosen };
                lemma_edited_same(old(state)@, req, id, apply, op, spec_op);
            }
        },
        None => {},
    }
    assert(state@ == effect_pasted(old(state)@, old(state).automation_event_copy_buffer, edit_cursor_time, id, chosen));
}

/// Pastes the copied values of the chosen controller at the cursor.
pub fn handle_automation_controller_paste(state: &mut RiffDAWState, edit_cursor_time: i64)
    requires
        controller_index_usable(old(state)@),
    ensures
        exists|id: ItemId, ids: Vec<ItemId>| is_fresh_id(id) && all_fresh(ids@) && ids@.len() == old(state).automation_event_copy_buffer@.len()
            && final(state)@ == controller_pasted(old(state)@, old(state).automation_event_copy_buffer, edit_cursor_time, id, ids),
{
    let id = new_item_id();
    let req = controller_request_of(state);
    let buffer = crate::event_edits::copy_events(&state.automation_event_copy_buffer);
    let ids = crate::ids::new_item_ids(buffer.len());
    let ghost chosen = ids;
    let m = EventMatch::ControllerNumber(controller_number_of(value_or_zero(state.controller_type_index)));
    let apply = state.controller_type_index.is_some();
    let op = ListEdit::Paste { buffer, m, cursor: edit_cursor_time, ids };
    edit_target(state, &req, id, apply, &op);
    proof {
        let spec_op = ListEdit::Paste { buffer: old(state).automation_event_copy_buffer, m, cursor: edit_cursor_time, ids: chosen };
        lemma_edited_same(old(state)@, req, id, apply, op, spec_op);
    }
    assert(state@ == controller_pasted(old(state)@, old(state).automation_event_copy_buffer, edit_cursor_time, id, chosen));
}

/// Pastes the copied pitch bends at the cursor.
pub fn handle_automation_pitch_bend_paste(state: &mut RiffDAWState, edit_cursor_time: i64)
    ensures
        exists|id: ItemId, ids: Vec<ItemId>| is_fresh_id(id) && all_fresh(ids@) && ids@.len() == old(state).automation_event_copy_buffer@.len()
            && final(state)@ == pitch_bend_pasted(old(state)@, old(state).automation_event_copy_buffer, edit_cursor_time, id, ids),
{
    let id = new_item_id();
    let req = pitch_bend_request_of(state);
    let buffer = crate::event_edits::copy_events(&state.automation_event_copy_buffer);
    let ids = crate::ids::new_item_ids(buffer.len());
    let ghost chosen = ids;
    let m = EventMatch::AnyPitchBend;
    let op = ListEdit::Paste { buffer, m, cursor: edit_cursor_time, ids };
    edit_target(state, &req, id, true, &op);
    proof {
        let spec_op = ListEdit::Paste { buffer: old(state).automation_event_copy_buffer, m, cursor: edit_cursor_time, ids: chosen };
        lemma_edited_same(old(state)@, req, id, true, op, spec_op);
    }
    assert(state@ == pitch_bend_pasted(old(state)@, old(state).automation_event_copy_buffer, edit_cursor_time, id, chosen));
}

/// Pastes the copied events of the kind the automation view shows at the cursor.
pub fn handle_automation_paste(state: &mut RiffDAWState, edit_cursor_time: i64)
    requires
        old(state)@.automation_view_mode == AutomationViewMode::Controllers ==> controller_index_usable(old(state)@),
    ensures
        match old(state)@.automation_view_mode {
            AutomationViewMode::Controllers => exists|id: ItemId, ids: Vec<ItemId>| is_fresh_id(id) && all_fresh(ids@) && ids@.len() == old(state).automation_event_copy_buffer@.len()
                && final(state)@ == controller_pasted(old(state)@, old(state).automation_event_copy_buffer, edit_cursor_time, id, ids),
            AutomationViewMode::PitchBend => exists|id: ItemId, ids: Vec<ItemId>| is_fresh_id(id) && all_fresh(ids@) && ids@.len() == old(state).automation_event_copy_buffer@.len()
                && final(state)@ == pitch_bend_pasted(old(state)@, old(state).automation_event_copy_buffer, edit_cursor_time, id, ids),
            AutomationViewMode::Instrument => exists|id: ItemId, ids: Vec<ItemId>| is_fresh_id(id) && all_fresh(ids@) && ids@.len() == old(state).automation_event_copy_buffer@.len()
                && final(state)@ == instrument_pasted(old(state)@, old(state).automation_event_copy_buffer, edit_cursor_time, id, ids),
            AutomationViewMode::Effect => exists|id: ItemId, ids: Vec<ItemId>| is_fresh_id(id) && all_fresh(ids@) && ids@.len() == old(state).automation_event_copy_buffer@.len()
                && final(state)@ == effect_pasted(old(state)@, old(state).automation_event_copy_buffer, edit_cursor_time, id, ids),
            AutomationViewMode::NoteExpression => exists|id: ItemId, ids: Vec<ItemId>| is_fresh_id(id) && all_fresh(ids@) && ids@.len() == old(state).automation_event_copy_buffer@.len()
                && final(state)@ == note_expression_pasted(old(state)@, old(state).automation_event_copy_buffer, edit_cursor_time, id, ids),
            AutomationViewMode::NoteVelocities => final(state)@ == old(state)@,
        },
{
    match state.automation_view_mode {
        AutomationViewMode::Controllers => handle_automation_controller_paste(state, edit_cursor_time),
        AutomationViewMode::PitchBend => handle_automation_pitch_bend_paste(state, edit_cursor_time),
        AutomationViewMode::Instrument => handle_automation_instrument_paste(state, edit_cursor_time),
        AutomationViewMode::Effect => handle_automation_effect_paste(state, edit_cursor_time),
        AutomationViewMode::NoteExpression => handle_automation_note_expression_paste(state, edit_cursor_time),
        AutomationViewMode::NoteVelocities => {},
    }
}

// ---------------------------------------------------------------------------
// Nudging the selection.
// ---------------------------------------------------------------------------

pub open spec fn instrument_translated(s: RiffDAWStateView, selected: Vec<ItemId>, dir: TranslateDirection, snap: i64, id: ItemId) -> RiffDAWStateView {
    instrument_edited(s, id, true, ListEdit::Translate {
        m: EventMatch::ParameterIndex(or_zero(s.instrument_parameter_type)), selected, dir, snap, sort: true,
    })
}

pub open spec fn note_expression_translated(s: RiffDAWStateView, selected: Vec<ItemId>, dir: TranslateDirection, snap: i64, id: ItemId) -> RiffDAWStateView {
    note_expression_edited(s, id, ListEdit::Translate { m: EventMatch::AnyNoteExpression, selected, dir, snap, sort: true })
}

pub open spec fn effect_translated(s: RiffDAWStateView, selected: Vec<ItemId>, dir: TranslateDirection, snap: i64, id: ItemId) -> RiffDAWStateView {
    effect_edited(s, id, ListEdit::Translate {
        m: EventMatch::ParameterIndex(or_zero(s.effect_parameter_type)), selected, dir, snap, sort: true,
    })
}

pub open spec fn controller_translated(s: RiffDAWStateView, selected: Vec<ItemId>, dir: TranslateDirection, snap: i64, id: ItemId) -> RiffDAWStateView {
    controller_edited(s, id, ListEdit::Translate { m: EventMatch::ControllerNumber(chosen_controller(s)), selected, dir, snap, sort: true })
}

pub open spec fn pitch_bend_translated(s: RiffDAWStateView, selected: Vec<ItemId>, dir: TranslateDirection, snap: i64, id: ItemId) -> RiffDAWStateView {
    pitch_bend_edited(s, id, ListEdit::Translate { m: EventMatch::AnyPitchBend, selected, dir, snap, sort: true })
}

/// Selected notes with their velocities nudged up or down by one within 0 to 127; the
/// list keeps its order. Nothing is ever created, so no identifier is needed.
pub open spec fn velocities_translated(s: RiffDAWStateView, selected: Vec<ItemId>, dir: TranslateDirection) -> RiffDAWStateView {
    edited(s, velocity_request(s), 0, true, ListEdit::Translate { m: EventMatch::AnyNote, selected, dir, snap: 0, sort: false })
}

/// Nudges the selected values of the chosen instrument parameter (their index only
/// counts) by a hundredth up or down, or by a snap left or right.
pub fn handle_automation_instrument_translate_selected(state: &mut RiffDAWState, translate_direction: TranslateDirection, snap: i64)
    ensures
        exists|id: ItemId| is_fresh_id(id) && final(state)@ == instrument_translated(old(state)@, old(state).selected_automation, translate_direction, snap, id),
{
    let id = new_item_id();
    let req = instrument_request_of(state);
    let selected = copy_ids(&state.selected_automation);
    let m = EventMatch::ParameterIndex(value_or_zero(state.instrument_parameter_type));
    let apply = state.instrument_parameter_type.is_some();
    let op = ListEdit::Translate { m, selected, dir: translate_direction, snap, sort: true };
    edit_target(state, &req, id, apply, &op);
    proof {
        let spec_op = ListEdit::Translate { m, selected: old(state).selected_automation, dir: translate_direction, snap, sort: true };
        lemma_edited_same(old(state)@, req, id, apply, op, spec_op);
    }
    assert(state@ == instrument_translated(old(state)@, old(state).selected_automation, translate_direction, snap, id));
}

/// Nudges the selected note expressions.
pub fn handle_automation_note_expression_translate_selected(state: &mut RiffDAWState, translate_direction: TranslateDirection, snap: i64)
    ensures
        exists|id: ItemId| is_fresh_id(id) && final(state)@ == note_expression_translated(old(state)@, old(state).selected_automation, translate_direction, snap, id),
{
    let id = new_item_id();
    let req = note_expression_request_of(state);
    let selected = copy_ids(&state.selected_automation);
    let m = EventMatch::AnyNoteExpression;
    let op = ListEdit::Translate { m, selected, dir: translate_direction, snap, sort: true };
    edit_target(state, &req, id, true, &op);
    proof {
        let spec_op = ListEdit::Translate { m, selected: old(state).selected_automation, dir: translate_direction, snap, sort: true };
        lemma_edited_same(old(state)@, req, id, true, op, spec_op);
    }
    assert(state@ == note_expression_translated(old(state)@, old(state).selected_automation, translate_direction, snap, id));
}

/// Nudges the selected values of the chosen effect parameter (their index only counts).
pub fn handle_automation_effect_translate_selected(state: &mut RiffDAWState, translate_direction: TranslateDirection, snap: i64)
    ensures
        exists|id: ItemId| is_fresh_id(id) && final(state)@ == effect_translated(old(state)@, old(state).selected_automation, translate_direction, snap, id),
{
    let id = new_item_id();
    match state.selected_effect_plugin_uuid {
        Some(fx) => {
            let req = effect_request_of(state, fx);
            let selected = copy_ids(&state.selected_automation);
            let m = EventMatch::ParameterIndex(value_or_zero(state.effect_parameter_type));
            let apply = state.effect_parameter_type.is_some();
            let op = ListEdit::Translate { m, selected, dir: translate_direction, snap, sort: true };
            edit_target(state, &req, id, apply, &op);
            proof {
                let spec_op = ListEdit::Translate { m, selected: old(state).selected_automation, dir: translate_direction, snap, sort: true };
                lemma_edited_same(old(state)@, req, id, apply, op, spec_op);
            }
        },
        None => {},
    }
    assert(state@ == effect_translated(old(state)@, old(state).selected_automation, translate_direction, snap, id));
}

/// Nudges the selected values of the chosen controller by one within 0 to 127, or by a snap.
pub fn handle_automation_controller_translate_selected(state: &mut RiffDAWState, translate_direction: TranslateDirection, snap: i64)
    requires
        controller_index_usable(old(state)@),
    ensures
        exists|id: ItemId| is_fresh_id(id) && final(state)@ == controller_translated(old(state)@, old(state).selected_automation, translate_direction, snap, id),
{
    let id = new_item_id();
    let req = controller_request_of(state);
    let selected = copy_ids(&state.selected_automation);
    let m = EventMatch::ControllerNumber(controller_number_of(value_or_zero(state.controller_type_index)));
    let apply = state.controller_type_index.is_some();
    let op = ListEdit::Translate { m, selected, dir: translate_direction, snap, sort: true };
    edit_target(state, &req, id, apply, &op);
    proof {
        let spec_op = ListEdit::Translate { m, selected: old(state).selected_automation, dir: translate_direction, snap, sort: true };
        lemma_edited_same(old(state)@, req, id, apply, op, spec_op);
    }
    assert(state@ == controller_translated(old(state)@, old(state).selected_automation, translate_direction, snap, id));
}

/// Nudges the selected pitch bends by one within -8192 to 8192, or by a snap.
pub fn handle_automation_pitch_bend_translate_selected(state: &mut RiffDAWState, translate_direction: TranslateDirection, snap: i64)
    ensures
        exists|id: ItemId| is_fresh_id(id) && final(state)@ == pitch_bend_translated(old(state)@, old(state).selected_automation, translate_direction, snap, id),
{
    let id = new_item_id();
    let req = pitch_bend_request_of(state);
    let selected = copy_ids(&state.selected_automation);
    let m = EventMatch::AnyPitchBend;
    let op = ListEdit::Translate { m, selected, dir: translate_direction, snap, sort: true };
    edit_target(state, &req, id, true, &op);
    proof {
        let spec_op = ListEdit::Translate { m, selected: old(state).selected_automation, dir: translate_direction, snap, sort: true };
        lemma_edited_same(old(state)@, req, id, true, op, spec_op);
    }
    assert(state@ == pitch_bend_translated(old(state)@, old(state).selected_automation, translate_direction, snap, id));
}

/// Nudges the velocities of the selected notes up or down by one, within 0 to 127.
pub fn handle_automation_note_velocities_translate_selected(state: &mut RiffDAWState, translate_direction: TranslateDirection)
    ensures
        final(state)@ == velocities_translated(old(state)@, old(state).selected_automation, translate_direction),
{
    let req = TargetRequest { tracks: TrackFilter::Any, discrete: true, envelope: None, create_in_arrangement: false };
    let selected = copy_ids(&state.selected_automation);
    let m = EventMatch::AnyNote;
    let op = ListEdit::Translate { m, selected, dir: translate_direction, snap: 0, sort: false };
    edit_target(state, &req, 0, true, &op);
    proof {
        let spec_op = ListEdit::Translate { m, selected: old(state).selected_automation, dir: translate_direction, snap: 0, sort: false };
        lemma_edited_same(old(state)@, req, 0, true, op, spec_op);
    }
}

/// Nudges the selection of the kind the automation view shows.
pub fn handle_automation_translate_selected(state: &mut RiffDAWState, translate_direction: TranslateDirection, snap: i64)
    requires
        old(state)@.automation_view_mode == AutomationViewMode::Controllers ==> controller_index_usable(old(state)@),
    ensures
        match old(state)@.automation_view_mode {
            AutomationViewMode::Controllers => exists|id: ItemId| is_fresh_id(id) && final(state)@ == controller_translated(old(state)@, old(state).selected_automation, translate_direction, snap, id),
            AutomationViewMode::PitchBend => exists|id: ItemId| is_fresh_id(id) && final(state)@ == pitch_bend_translated(old(state)@, old(state).selected_automation, translate_direction, snap, id),
            AutomationViewMode::Instrument => exists|id: ItemId| is_fresh_id(id) && final(state)@ == instrument_translated(old(state)@, old(state).selected_automation, translate_direction, snap, id),
            AutomationViewMode::Effect => exists|id: ItemId| is_fresh_id(id) && final(state)@ == effect_translated(old(state)@, old(state).selected_automation, translate_direction, snap, id),
            AutomationViewMode::NoteExpression => exists|id: ItemId| is_fresh_id(id) && final(state)@ == note_expression_translated(old(state)@, old(state).selected_automation, translate_direction, snap, id),
            AutomationViewMode::NoteVelocities => final(state)@ == velocities_translated(old(state)@, old(state).selected_automation, translate_direction),
        },
{
    match state.automation_view_mode {
        AutomationViewMode::Controllers => handle_automation_controller_translate_selected(state, translate_direction, snap),
        AutomationViewMode::PitchBend => handle_automation_pitch_bend_translate_selected(state, translate_direction, snap),
        AutomationViewMode::Instrument => handle_automation_instrument_translate_selected(state, translate_direction, snap),
        AutomationViewMode::Effect => handle_automation_effect_translate_selected(state, translate_direction, snap),
        AutomationViewMode::NoteExpression => handle_automation_note_expression_translate_selected(state, translate_direction, snap),
        AutomationViewMode::NoteVelocities => handle_automation_note_velocities_translate_selected(state, translate_direction),
    }
}

// ---------------------------------------------------------------------------
// Changes made in the editor.
// ---------------------------------------------------------------------------

pub open spec fn instrument_changed(s: RiffDAWStateView, changes: Vec<(TrackEvent, TrackEvent)>, id: ItemId) -> RiffDAWStateView {
    instrument_edited(s, id, false, ListEdit::Change { changes, kind: EventKind::PluginParameter })
}

pub open spec fn note_expression_changed(s: RiffDAWStateView, changes: Vec<(TrackEvent, TrackEvent)>, id: ItemId) -> RiffDAWStateView {
    note_expression_edited(s, id, ListEdit::Change { changes, kind: EventKind::NoteExpression })
}

pub open spec fn effect_changed(s: RiffDAWStateView, changes: Vec<(TrackEvent, TrackEvent)>, id: ItemId) -> RiffDAWStateView {
    effect_edited(s, id, ListEdit::Change { changes, kind: EventKind::PluginParameter })
}

pub open spec fn controller_changed(s: RiffDAWStateView, changes: Vec<(TrackEvent, TrackEvent)>, id: ItemId) -> RiffDAWStateView {
    controller_edited(s, id, ListEdit::Change { changes, kind: EventKind::Controller })
}

pub open spec fn pitch_bend_changed(s: RiffDAWStateView, changes: Vec<(TrackEvent, TrackEvent)>, id: ItemId) -> RiffDAWStateView {
    pitch_bend_edited(s, id, ListEdit::Change { changes, kind: EventKind::PitchBend })
}

/// Applies the editor's changes (pairs of the event before and after) to the instrument
/// parameter values they name.
pub fn handle_automation_instrument_change(state: &mut RiffDAWState, changed_events: Vec<(TrackEvent, TrackEvent)>)
    ensures
        exists|id: ItemId| is_fresh_id(id) && final(state)@ == instrument_changed(old(state)@, changed_events, id),
{
    let id = new_item_id();
    let req = instrument_request_of(state);
    let ghost changes = changed_events;
    edit_target(state, &req, id, true, &ListEdit::Change { changes: changed_events, kind: EventKind::PluginParameter });
    assert(state@ == instrument_changed(old(state)@, changes, id));
}

/// Applies the editor's changes to the note expressions they name.
pub fn handle_automation_note_expression_change(state: &mut RiffDAWState, changed_events: Vec<(TrackEvent, TrackEvent)>)
    ensures
        exists|id: ItemId| is_fresh_id(id) && final(state)@ == note_expression_changed(old(state)@, changed_events, id),
{
    let id = new_item_id();
    let req = note_expression_request_of(state);
    let ghost changes = changed_events;
    edit_target(state, &req, id, true, &ListEdit::Change { changes: changed_events, kind: EventKind::NoteExpression });
    assert(state@ == note_expression_changed(old(state)@, changes, id));
}

/// Applies the editor's changes to the effect parameter values they name, when an
/// effect and a parameter are chosen.
pub fn handle_automation_effect_change(state: &mut RiffDAWState, changed_events: Vec<(TrackEvent, TrackEvent)>)
    ensures
        exists|id: ItemId| is_fresh_id(id) && final(state)@ == effect_changed(old(state)@, changed_events, id),
{
    let id = new_item_id();
    let ghost changes = changed_events;
    match state.selected_effect_plugin_uuid {
        Some(fx) => {
            let req = effect_request_of(state, fx);
            let apply = state.effect_parameter_type.is_some();
            edit_target(state, &req, id, apply, &ListEdit::Change { changes: changed_events, kind: EventKind::PluginParameter });
        },
        None => {},
    }
    assert(state@ == effect_changed(old(state)@, changes, id));
}

/// Applies the editor's changes to the controller values they name, when a controller is chosen.
pub fn handle_automation_controller_change(state: &mut RiffDAWState, changed_events: Vec<(TrackEvent, TrackEvent)>)
    requires
        controller_envelope_usable(old(state)@),
    ensures
        exists|id: ItemId| is_fresh_id(id) && final(state)@ == controller_changed(old(state)@, changed_events, id),
{
    let id = new_item_id();
    let req = controller_request_of(state);
    let ghost changes = changed_events;
    let apply = state.controller_type_index.is_some();
    edit_target(state, &req, id, apply, &ListEdit::Change { changes: changed_events, kind: EventKind::Controller });
    assert(state@ == controller_changed(old(state)@, changes, id));
}

/// Applies the editor's changes to the pitch bends they name.
pub fn handle_automation_pitch_bend_change(state: &mut RiffDAWState, changed_events: Vec<(TrackEvent, TrackEvent)>)
    ensures
        exists|id: ItemId| is_fresh_id(id) && final(state)@ == pitch_bend_changed(old(state)@, changed_events, id),
{
    let id = new_item_id();
    let req = pitch_bend_request_of(state);
    let ghost changes = changed_events;
    edit_target(state, &req, id, true, &ListEdit::Change { changes: changed_events, kind: EventKind::PitchBend });
    assert(state@ == pitch_bend_changed(old(state)@, changes, id));
}

/// Applies the editor's changes to events of the kind the automation view shows.
pub fn handle_automation_change(state: &mut RiffDAWState, changed_events: Vec<(TrackEvent, TrackEvent)>)
    requires
        old(state)@.automation_view_mode == AutomationViewMode::Controllers ==> controller_envelope_usable(old(state)@),
    ensures
        match old(state)@.automation_view_mode {
            AutomationViewMode::Controllers => exists|id: ItemId| is_fresh_id(id) && final(state)@ == controller_changed(old(state)@, changed_events, id),
            AutomationViewMode::PitchBend => exists|id: ItemId| is_fresh_id(id) && final(state)@ == pitch_bend_changed(old(state)@, changed_events, id),
            AutomationViewMode::Instrument => exists|id: ItemId| is_fresh_id(id) && final(state)@ == instrument_changed(old(state)@, changed_events, id),
            AutomationViewMode::Effect => exists|id: ItemId| is_fresh_id(id) && final(state)@ == effect_changed(old(state)@, changed_events, id),
            AutomationViewMode::NoteExpression => exists|id: ItemId| is_fresh_id(id) && final(state)@ == note_expression_changed(old(state)@, changed_events, id),
            AutomationViewMode::NoteVelocities => final(state)@ == old(state)@,
        },
{
    match state.automation_view_mode {
        AutomationViewMode::Controllers => handle_automation_controller_change(state, changed_events),
        AutomationViewMode::PitchBend => handle_automation_pitch_bend_change(state, changed_events),
        AutomationViewMode::Instrument => handle_automation_instrument_change(state, changed_events),
        AutomationViewMode::Effect => handle_automation_effect_change(state, changed_events),
        AutomationViewMode::NoteExpression => handle_automation_note_expression_change(state, changed_events),
        AutomationViewMode::NoteVelocities => {},
    }
}

} // verus!
