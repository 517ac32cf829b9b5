#![allow(non_snake_case)]
#![allow(unused_variables)]
#![allow(unused_imports)]

pub mod seq_search;
pub mod numeric;
pub mod ids;
pub mod text;
pub mod domain;
pub mod sorting;
pub mod event;
pub mod state;
pub mod automation_target;
pub mod event_edits;
pub mod automation_edits;
pub mod arrangement_length;
pub mod midi_import;
pub mod dawproject_import;
pub mod plugin_scan;
pub mod actions;
pub mod laws;

use vstd::prelude::*;

verus! {
} // verus!
