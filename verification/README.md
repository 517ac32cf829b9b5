# riff_daw_core

The event handlers of a digital audio workstation, verified with Verus: what each
handler does to the song and the application state, and which commands it hands on to
the audio layer, the track processors and the user interface.

- `src/domain.rs`, `src/state.rs`, `src/event.rs`: the song model (positions in
  thousandths of a beat), the application state and the commands handlers emit, each
  with a mathematical view.
- `src/automation_target.rs`, `src/event_edits.rs`, `src/automation_edits.rs`: where an
  automation edit applies and what it does to an event list.
- `src/actions/`: the handlers, one module per group of events.
- `src/midi_import.rs`, `src/dawproject_import.rs`: building tracks from a MIDI file and
  a song from a DAWproject file, once the files are read.
- `src/plugin_scan.rs`: the decisions of the plugin checker.
- `src/laws.rs`: properties across handlers (undoing moves, add then delete, what edits
  leave unchanged, imports keeping the project's structure).
- `app/`: the plugin checker program and the file readers around the importers.

Quantising automation events to a grid is not part of the library.
