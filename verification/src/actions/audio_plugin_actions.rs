//! Recording the result of a plugin scan.
use vstd::prelude::*;
use crate::state::{ConfigurationView, RiffDAWState, RiffDAWStateView, ScannedPlugin};

verus! {

/// Records the instrument and effect plugins that a scan of the configured
/// plugin paths found.
pub fn daw_events_ScanPlugins(
    state: &mut RiffDAWState,
    instrument_audio_plugins: Vec<ScannedPlugin>,
    effect_audio_plugins: Vec<ScannedPlugin>,
)
    ensures
        final(state)@ == (RiffDAWStateView {
            configuration: ConfigurationView {
                scanned_instrument_plugins: instrument_audio_plugins@.map_values(|p: ScannedPlugin| p@),
                scanned_effect_plugins: effect_audio_plugins@.map_values(|p: ScannedPlugin| p@),
                ..old(state)@.configuration
            },
            ..old(state)@
        }),
{
    state.configuration.scanned_instrument_plugins = instrument_audio_plugins;
    state.configuration.scanned_effect_plugins = effect_audio_plugins;
}

} // verus!
