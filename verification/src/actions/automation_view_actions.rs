//! Handlers of the automation view's settings.
use vstd::prelude::*;
use crate::event::{AutomationEditType, AutomationViewMode, OperationModeType, ShowType};
use crate::state::{RiffDAWState, RiffDAWStateView};

verus! {

/// The automation view mode that shows what the user picked.
pub open spec fn view_mode_for(show_type: ShowType) -> AutomationViewMode {
    match show_type {
        ShowType::Velocity => AutomationViewMode::NoteVelocities,
        ShowType::Controller => AutomationViewMode::Controllers,
        ShowType::PitchBend => AutomationViewMode::PitchBend,
        ShowType::InstrumentParameter => AutomationViewMode::Instrument,
        ShowType::EffectParameter => AutomationViewMode::Effect,
        ShowType::NoteExpression => AutomationViewMode::NoteExpression,
    }
}

/// Records whether the automation editor edits the track's or the riff's automation.
pub fn daw_events_AutomationEditTypeChange(state: &mut RiffDAWState, automation_edit_type: AutomationEditType)
    ensures
        final(state)@ == (RiffDAWStateView { automation_edit_type: automation_edit_type, ..old(state)@ }),
{
    state.automation_edit_type = automation_edit_type;
}

/// Switches what the automation view shows.
pub fn daw_events_AutomationViewShowTypeChange(state: &mut RiffDAWState, show_type: ShowType)
    ensures
        final(state)@ == (RiffDAWStateView { automation_view_mode: view_mode_for(show_type), ..old(state)@ }),
{
    let type_to_show = match show_type {
        ShowType::Velocity => AutomationViewMode::NoteVelocities,
        ShowType::Controller => AutomationViewMode::Controllers,
        ShowType::PitchBend => AutomationViewMode::PitchBend,
        ShowType::InstrumentParameter => AutomationViewMode::Instrument,
        ShowType::EffectParameter => AutomationViewMode::Effect,
        ShowType::NoteExpression => AutomationViewMode::NoteExpression,
    };
    state.automation_view_mode = type_to_show;
}

/// A change of the controller editor's operation mode changes no state.
pub fn daw_events_ControllerOperationModeChange(state: &mut RiffDAWState, mode: OperationModeType)
    ensures
        final(state)@ == old(state)@,
{
}

/// A repaint of the automation view changes no state.
pub fn daw_events_RepaintAutomationView(state: &mut RiffDAWState)
    ensures
        final(state)@ == old(state)@,
{
}

} // verus!
