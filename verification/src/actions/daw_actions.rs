//! Handlers of general application events: immediate notes, the master channel,
//! note trimming, shutdown, history and audio configuration.
use vstd::prelude::*;
use crate::domain::{
    find_track, Note, Riff, RiffView, Song, SongView, Track, TrackEvent, TrackKind, TrackView,
};
use crate::event::{
    AudioLayerEvent, AudioLayerInwardEvent, AudioMode, Command, MasterChannelChangeType,
    MessageLevel, NotificationType, TrackBackgroundProcessorInwardEvent,
};
use crate::numeric::{clamp_i32, clamp_i64, sat_sub_i64, trunc_div};
use crate::state::{
    lemma_per_track_all, lemma_per_track_step, midi_channel_of, per_track, selected_track_index,
    to_each_track, track_midi_channel, with_audio, ConfigurationView, RiffDAWState,
    RiffDAWStateView,
};

verus! {

/// A progress message for a dialog changes no state.
pub fn daw_events_UpdateProgressBarMessage(state: &mut RiffDAWState, message: String)
    ensures
        final(state)@ == old(state)@,
{
}

/// A redraw of the user interface changes no state.
pub fn daw_events_UpdateUI(state: &mut RiffDAWState)
    ensures
        final(state)@ == old(state)@,
{
}

/// A refresh of the plugin lists of the user interface changes no state.
pub fn daw_events_UpdateUIPlugins(state: &mut RiffDAWState)
    ensures
        final(state)@ == old(state)@,
{
}

pub fn daw_events_TranslateHorizontalChange(state: &mut RiffDAWState, value: i32)
    ensures
        final(state)@ == old(state)@,
{
}

pub fn daw_events_TranslateVerticalChange(state: &mut RiffDAWState, value: i32)
    ensures
        final(state)@ == old(state)@,
{
}

pub fn daw_events_ViewAutomationChange(state: &mut RiffDAWState, show_automation_events: bool)
    ensures
        final(state)@ == old(state)@,
{
}

pub fn daw_events_ViewNoteChange(state: &mut RiffDAWState, show_note_events: bool)
    ensures
        final(state)@ == old(state)@,
{
}

pub fn daw_events_ViewPanChange(state: &mut RiffDAWState, show_pan_events: bool)
    ensures
        final(state)@ == old(state)@,
{
}

pub fn daw_events_ViewVolumeChange(state: &mut RiffDAWState, show_volume_events: bool)
    ensures
        final(state)@ == old(state)@,
{
}

/// The script console is not wired to a script engine: running a script changes no state.
pub fn daw_events_RunLuaScript(state: &mut RiffDAWState, script: String)
    ensures
        final(state)@ == old(state)@,
{
}

pub fn daw_events_HideProgressDialogue(state: &mut RiffDAWState)
    ensures
        final(state)@ == old(state)@,
{
}

pub fn daw_events_RepaintRiffArrangementBox(state: &mut RiffDAWState)
    ensures
        final(state)@ == old(state)@,
{
}

pub fn daw_events_RepaintRiffSetsBox(state: &mut RiffDAWState)
    ensures
        final(state)@ == old(state)@,
{
}

pub fn daw_events_RepaintRiffSequencesBox(state: &mut RiffDAWState)
    ensures
        final(state)@ == old(state)@,
{
}

/// The outbox after an immediate note event for the selected track: sent to the
/// selected track's processor when that track exists, on its MIDI channel.
pub open spec fn immediate_note_outbox(s: RiffDAWStateView, note: i32, on: bool) -> Seq<Command> {
    match selected_track_index(s) {
        Some(i) => {
            let t = s.song.tracks[i];
            let e = if on {
                TrackBackgroundProcessorInwardEvent::PlayNoteImmediate(note, midi_channel_of(t))
            } else {
                TrackBackgroundProcessorInwardEvent::StopNoteImmediate(note, midi_channel_of(t))
            };
            s.outbox.push(Command::ToTrack(t.id, e))
        },
        None => s.outbox,
    }
}

fn immediate_note(state: &mut RiffDAWState, note: i32, on: bool)
    ensures
        final(state)@ == (RiffDAWStateView { outbox: immediate_note_outbox(old(state)@, note, on), ..old(state)@ }),
{
    match state.selected_track {
        Some(track_uuid) => {
            match find_track(&state.song.tracks, track_uuid) {
                Some(i) => {
                    let midi_channel = track_midi_channel(&state.song.tracks[i]);
                    let id = state.song.tracks[i].id;
                    if on {
                        state.send_to_track_background_processor(
                            id,
                            TrackBackgroundProcessorInwardEvent::PlayNoteImmediate(note, midi_channel),
                        );
                    } else {
                        state.send_to_track_background_processor(
                            id,
                            TrackBackgroundProcessorInwardEvent::StopNoteImmediate(note, midi_channel),
                        );
                    }
                },
                None => {},
            }
        },
        None => {},
    }
}

/// Plays a note at once on the selected track.
pub fn daw_events_PlayNoteImmediate(state: &mut RiffDAWState, note: i32)
    ensures
        final(state)@ == (RiffDAWStateView { outbox: immediate_note_outbox(old(state)@, note, true), ..old(state)@ }),
{
    immediate_note(state, note, true);
}

/// Stops a note at once on the selected track.
pub fn daw_events_StopNoteImmediate(state: &mut RiffDAWState, note: i32)
    ensures
        final(state)@ == (RiffDAWStateView { outbox: immediate_note_outbox(old(state)@, note, false), ..old(state)@ }),
{
    immediate_note(state, note, false);
}

/// Note-off messages for all 128 notes of a track, on the track's channel.
pub open spec fn all_notes_off(t: TrackView) -> Seq<Command> {
    Seq::new(
        128,
        |n: int|
            Command::ToTrack(t.id, TrackBackgroundProcessorInwardEvent::StopNoteImmediate(n as i32, midi_channel_of(t))),
    )
}

pub open spec fn all_notes_off_fn() -> spec_fn(TrackView) -> Seq<Command> {
    |t: TrackView| all_notes_off(t)
}

/// Sends a note-off for every note to every track.
pub fn daw_events_Panic(state: &mut RiffDAWState)
    ensures
        final(state)@ == (RiffDAWStateView {
            outbox: old(state)@.outbox + per_track(old(state)@.song.tracks, all_notes_off_fn()),
            ..old(state)@
        }),
{
    let ghost s0 = state@;
    let n = state.song.tracks.len();
    let mut i: usize = 0;
    while i < n
        invariant
            i <= n,
            n == state.song.tracks@.len(),
            state@ == (RiffDAWStateView {
                outbox: s0.outbox + per_track(s0.song.tracks.take(i as int), all_notes_off_fn()),
                ..s0
            }),
        decreases n - i,
    {
        let id = state.song.tracks[i].id;
        let midi_channel = track_midi_channel(&state.song.tracks[i]);
        let ghost before = state@.outbox;
        let ghost t = s0.song.tracks[i as int];
        assert(t == state.song.tracks@[i as int]@);
        let mut note_number: i32 = 0;
        while note_number < 128
            invariant
                0 <= note_number <= 128,
                state@ == (RiffDAWStateView { outbox: before + all_notes_off(t).take(note_number as int), ..s0 }),
                id == t.id,
                midi_channel == midi_channel_of(t),
            decreases 128 - note_number,
        {
            state.send_to_track_background_processor(
                id,
                TrackBackgroundProcessorInwardEvent::StopNoteImmediate(note_number, midi_channel),
            );
            assert(all_notes_off(t).take(note_number + 1) =~= all_notes_off(t).take(note_number as int).push(
                Command::ToTrack(id, TrackBackgroundProcessorInwardEvent::StopNoteImmediate(note_number, midi_channel)),
            ));
            assert(before + all_notes_off(t).take(note_number + 1) =~= (before + all_notes_off(t).take(
                note_number as int,
            )).push(
                Command::ToTrack(id, TrackBackgroundProcessorInwardEvent::StopNoteImmediate(note_number, midi_channel)),
            ));
            note_number = note_number + 1;
        }
        proof {
            assert(all_notes_off(t).take(128) =~= all_notes_off(t));
            lemma_per_track_step(s0.song.tracks, all_notes_off_fn(), i as int);
            assert(s0.outbox + per_track(s0.song.tracks.take(i + 1), all_notes_off_fn()) =~= before
                + all_notes_off(t));
        }
        i = i + 1;
    }
    proof { lemma_per_track_all(s0.song.tracks, all_notes_off_fn()); }
}

/// The audio-layer event for a master channel change.
pub open spec fn master_channel_event(c: MasterChannelChangeType) -> AudioLayerEvent {
    match c {
        MasterChannelChangeType::VolumeChange(v) => AudioLayerEvent::AudioLayerInward(AudioLayerInwardEvent::Volume(v)),
        MasterChannelChangeType::PanChange(p) => AudioLayerEvent::AudioLayerInward(AudioLayerInwardEvent::Pan(p)),
    }
}

/// Passes a master volume or pan change on to the audio layer.
pub fn daw_events_MasterChannelChange(state: &mut RiffDAWState, channel_change_type: MasterChannelChangeType)
    ensures
        final(state)@ == (RiffDAWStateView {
            outbox: with_audio(old(state)@.outbox, old(state)@.audio_layer_connected, master_channel_event(channel_change_type)),
            ..old(state)@
        }),
{
    match channel_change_type {
        MasterChannelChangeType::VolumeChange(volume) => {
            state.send_to_audio_layer(AudioLayerEvent::AudioLayerInward(AudioLayerInwardEvent::Volume(volume)));
        },
        MasterChannelChangeType::PanChange(pan) => {
            state.send_to_audio_layer(AudioLayerEvent::AudioLayerInward(AudioLayerInwardEvent::Pan(pan)));
        },
    }
}

/// How much a trim shortens each note: a hundredth of a beat.
pub const NOTE_TRIM: i64 = 10;

/// A note shortened by the trim; other events unchanged.
pub open spec fn trimmed_event(e: TrackEvent) -> TrackEvent {
    match e {
        TrackEvent::Note(n) => TrackEvent::Note(Note { length: clamp_i64(n.length - NOTE_TRIM), ..n }),
        _ => e,
    }
}

pub open spec fn trimmed_riff(r: RiffView) -> RiffView {
    RiffView { events: r.events.map_values(|e: TrackEvent| trimmed_event(e)), ..r }
}

/// The notes of an instrument track's riffs trimmed; other tracks unchanged.
pub open spec fn trimmed_track(t: TrackView) -> TrackView {
    if t.kind == TrackKind::Instrument {
        TrackView { riffs: t.riffs.map_values(|r: RiffView| trimmed_riff(r)), ..t }
    } else {
        t
    }
}

fn trim_events(events: &mut Vec<TrackEvent>)
    ensures
        final(events)@ == old(events)@.map_values(|e: TrackEvent| trimmed_event(e)),
{
    let ghost e0 = events@;
    let n = events.len();
    let mut i: usize = 0;
    while i < n
        invariant
            i <= n,
            n == e0.len(),
            events@.len() == n,
            forall|j: int| 0 <= j < i ==> events@[j] == trimmed_event(#[trigger] e0[j]),
            forall|j: int| i <= j < n ==> events@[j] == e0[j],
        decreases n - i,
    {
        let e = events[i];
        match e {
            TrackEvent::Note(note_on) => {
                let mut note = note_on;
                note.length = sat_sub_i64(note.length, NOTE_TRIM);
                events.set(i, TrackEvent::Note(note));
            },
            _ => {},
        }
        i = i + 1;
    }
    assert(events@ =~= e0.map_values(|e: TrackEvent| trimmed_event(e)));
}

fn trim_track(track: &mut Track)
    ensures
        final(track)@ == trimmed_track(old(track)@),
{
    match track.kind {
        TrackKind::Instrument => {
            let ghost t0 = track@;
            let n = track.riffs.len();
            let mut i: usize = 0;
            assert(t0.riffs =~= Seq::new(n as nat, |j: int| if j < 0 { trimmed_riff(t0.riffs[j]) } else { t0.riffs[j] }));
            while i < n
                invariant
                    i <= n,
                    n == t0.riffs.len(),
                    track.riffs@.len() == n,
                    track@ == (TrackView {
                        riffs: Seq::new(n as nat, |j: int| if j < i { trimmed_riff(t0.riffs[j]) } else { t0.riffs[j] }),
                        ..t0
                    }),
                decreases n - i,
            {
                let ghost before = track.riffs@;
                trim_events(&mut track.riffs[i].events);
                proof {
                    assert(track.riffs@[i as int]@ == trimmed_riff(before[i as int]@));
                    let after = track.riffs@.map_values(|r: Riff| r@);
                    assert forall|j: int| 0 <= j < n implies #[trigger] after[j]
                        == (if j < i + 1 { trimmed_riff(t0.riffs[j]) } else { t0.riffs[j] }) by {
                        if j != i {
                            assert(track.riffs@[j] == before[j]);
                            assert(before.map_values(|r: Riff| r@)[j] == before[j]@);
                        } else {
                            assert(before.map_values(|r: Riff| r@)[j] == before[j]@);
                        }
                    }
                    assert(track.riffs@.map_values(|r: Riff| r@) =~= Seq::new(
                        n as nat,
                        |j: int| if j < i + 1 { trimmed_riff(t0.riffs[j]) } else { t0.riffs[j] },
                    ));
                }
                i = i + 1;
            }
            assert(track@.riffs =~= t0.riffs.map_values(|r: RiffView| trimmed_riff(r)));
        },
        _ => {},
    }
}

/// Shortens every note of every instrument track's riffs by a hundredth of a beat.
pub fn daw_events_TrimAllNoteDurations(state: &mut RiffDAWState)
    ensures
        final(state)@ == (RiffDAWStateView {
            song: SongView { tracks: old(state)@.song.tracks.map_values(|t: TrackView| trimmed_track(t)), ..old(state)@.song },
            ..old(state)@
        }),
{
    let ghost s0 = state@;
    let n = state.song.tracks.len();
    let mut i: usize = 0;
    assert(s0.song.tracks =~= Seq::new(
        n as nat,
        |j: int| if j < 0 { trimmed_track(s0.song.tracks[j]) } else { s0.song.tracks[j] },
    ));
    while i < n
        invariant
            i <= n,
            n == s0.song.tracks.len(),
            state.song.tracks@.len() == n,
            state@ == (RiffDAWStateView {
                song: SongView {
                    tracks: Seq::new(
                        n as nat,
                        |j: int| if j < i { trimmed_track(s0.song.tracks[j]) } else { s0.song.tracks[j] },
                    ),
                    ..s0.song
                },
                ..s0
            }),
        decreases n - i,
    {
        let ghost before = state.song.tracks@;
        trim_track(&mut state.song.tracks[i]);
        proof {
            let after = state.song.tracks@.map_values(|t: Track| t@);
            assert forall|j: int| 0 <= j < n implies #[trigger] after[j]
                == (if j < i + 1 { trimmed_track(s0.song.tracks[j]) } else { s0.song.tracks[j] }) by {
                assert(before.map_values(|t: Track| t@)[j] == before[j]@);
                if j != i {
                    assert(state.song.tracks@[j] == before[j]);
                }
            }
            assert(state.song.tracks@.map_values(|t: Track| t@) =~= Seq::new(
                n as nat,
                |j: int| if j < i + 1 { trimmed_track(s0.song.tracks[j]) } else { s0.song.tracks[j] },
            ));
        }
        i = i + 1;
    }
    assert(state@.song.tracks =~= s0.song.tracks.map_values(|t: TrackView| trimmed_track(t)));
}

/// Sends one event to the processor of every track, in track order.
pub fn send_to_each_track(state: &mut RiffDAWState, e: TrackBackgroundProcessorInwardEvent)
    ensures
        final(state)@ == (RiffDAWStateView {
            outbox: old(state)@.outbox + per_track(old(state)@.song.tracks, to_each_track(e)),
            ..old(state)@
        }),
{
    let ghost s0 = state@;
    let n = state.song.tracks.len();
    let mut i: usize = 0;
    while i < n
        invariant
            i <= n,
            n == state.song.tracks@.len(),
            state@ == (RiffDAWStateView {
                outbox: s0.outbox + per_track(s0.song.tracks.take(i as int), to_each_track(e)),
                ..s0
            }),
        decreases n - i,
    {
        let id = state.song.tracks[i].id;
        state.send_to_track_background_processor(id, e);
        proof {
            lemma_per_track_step(s0.song.tracks, to_each_track(e), i as int);
            assert(s0.outbox + per_track(s0.song.tracks.take(i + 1), to_each_track(e)) =~= (s0.outbox
                + per_track(s0.song.tracks.take(i as int), to_each_track(e))).push(Command::ToTrack(id, e)));
        }
        i = i + 1;
    }
    proof { lemma_per_track_all(s0.song.tracks, to_each_track(e)); }
}

/// The commands of a shutdown: the audio layer coasts, every track's processor is
/// killed, and the audio layer shuts down.
pub open spec fn shutdown_outbox(s: RiffDAWStateView) -> Seq<Command> {
    with_audio(
        with_audio(s.outbox, s.audio_layer_connected, AudioLayerEvent::AudioMode(AudioMode::Coast)) + per_track(
            s.song.tracks,
            to_each_track(TrackBackgroundProcessorInwardEvent::Kill),
        ),
        s.audio_layer_connected,
        AudioLayerEvent::AudioLayerInward(AudioLayerInwardEvent::Shutdown),
    )
}

/// Stops audio and every track's processing.
pub fn daw_events_Shutdown(state: &mut RiffDAWState)
    ensures
        final(state)@ == (RiffDAWStateView { outbox: shutdown_outbox(old(state)@), ..old(state)@ }),
{
    state.send_to_audio_layer(AudioLayerEvent::AudioMode(AudioMode::Coast));
    send_to_each_track(state, TrackBackgroundProcessorInwardEvent::Kill);
    state.send_to_audio_layer(AudioLayerEvent::AudioLayerInward(AudioLayerInwardEvent::Shutdown));
}

/// Asks the history to undo the last action.
pub fn daw_events_Undo(state: &mut RiffDAWState)
    ensures
        final(state)@ == (RiffDAWStateView { outbox: old(state)@.outbox.push(Command::Undo), ..old(state)@ }),
{
    state.send(Command::Undo);
}

/// Asks the history to redo the last undone action.
pub fn daw_events_Redo(state: &mut RiffDAWState)
    ensures
        final(state)@ == (RiffDAWStateView { outbox: old(state)@.outbox.push(Command::Redo), ..old(state)@ }),
{
    state.send(Command::Redo);
}

/// A command to start each track's processing at a tempo.
pub open spec fn init_each_track(tempo: u32) -> spec_fn(TrackView) -> Seq<Command> {
    |t: TrackView| seq![Command::InitTrack(t.id, tempo)]
}

/// Asks for every track's processing to be started at the song's tempo.
pub fn init_all_tracks(state: &mut RiffDAWState)
    ensures
        final(state)@ == (RiffDAWStateView {
            outbox: old(state)@.outbox + per_track(old(state)@.song.tracks, init_each_track(old(state)@.song.tempo)),
            ..old(state)@
        }),
{
    let ghost s0 = state@;
    let tempo = state.song.tempo;
    let n = state.song.tracks.len();
    let mut i: usize = 0;
    while i < n
        invariant
            i <= n,
            n == state.song.tracks@.len(),
            tempo == s0.song.tempo,
            state@ == (RiffDAWStateView {
                outbox: s0.outbox + per_track(s0.song.tracks.take(i as int), init_each_track(tempo)),
                ..s0
            }),
        decreases n - i,
    {
        let id = state.song.tracks[i].id;
        state.send(Command::InitTrack(id, tempo));
        proof {
            lemma_per_track_step(s0.song.tracks, init_each_track(tempo), i as int);
            assert(s0.outbox + per_track(s0.song.tracks.take(i + 1), init_each_track(tempo)) =~= (s0.outbox
                + per_track(s0.song.tracks.take(i as int), init_each_track(tempo))).push(Command::InitTrack(id, tempo)));
        }
        i = i + 1;
    }
    proof { lemma_per_track_all(s0.song.tracks, init_each_track(tempo)); }
}

/// The commands of a change of audio configuration: close and reset, start every
/// track again, rewire the processors and send the tempo to the audio layer.
pub open spec fn audio_configuration_outbox(s: RiffDAWStateView) -> Seq<Command> {
    with_audio(
        s.outbox + seq![Command::CloseAllTracks, Command::ResetState] + per_track(s.song.tracks, init_each_track(s.song.tempo))
            + seq![Command::UpdateTrackSendersAndReceivers],
        s.audio_layer_connected,
        AudioLayerEvent::AudioLayerInward(AudioLayerInwardEvent::Tempo(s.song.tempo)),
    )
}

/// Takes on a new sample rate and block size and restarts every track.
pub fn daw_events_AudioConfigurationChanged(state: &mut RiffDAWState, sample_rate: i32, block_size: i32)
    ensures
        final(state)@ == (RiffDAWStateView {
            configuration: ConfigurationView {
                sample_rate: sample_rate,
                block_size: block_size,
                ..old(state)@.configuration
            },
            outbox: audio_configuration_outbox(old(state)@),
            ..old(state)@
        }),
{
    let ghost s0 = state@;
    state.send(Command::CloseAllTracks);
    state.send(Command::ResetState);
    assert(state@.outbox =~= s0.outbox + seq![Command::CloseAllTracks, Command::ResetState]);
    state.configuration.sample_rate = sample_rate;
    state.configuration.block_size = block_size;
    init_all_tracks(state);
    state.send(Command::UpdateTrackSendersAndReceivers);
    assert(state@.outbox =~= s0.outbox + seq![Command::CloseAllTracks, Command::ResetState] + per_track(
        s0.song.tracks,
        init_each_track(s0.song.tempo),
    ) + seq![Command::UpdateTrackSendersAndReceivers]);
    let tempo = state.song.tempo;
    state.send_to_audio_layer(AudioLayerEvent::AudioLayerInward(AudioLayerInwardEvent::Tempo(tempo)));
}

/// The message level a notification is shown with.
pub open spec fn message_level_of(n: NotificationType) -> MessageLevel {
    match n {
        NotificationType::Info => MessageLevel::Info,
        NotificationType::Warning => MessageLevel::Warning,
        NotificationType::Error => MessageLevel::Error,
    }
}

/// Asks for a notification to be shown to the user.
pub fn daw_events_Notification(state: &mut RiffDAWState, notification_type: NotificationType, message: String)
    ensures
        final(state)@ == (RiffDAWStateView {
            outbox: old(state)@.outbox.push(Command::ShowMessage(message_level_of(notification_type), message)),
            ..old(state)@
        }),
{
    let level = match notification_type {
        NotificationType::Info => MessageLevel::Info,
        NotificationType::Warning => MessageLevel::Warning,
        NotificationType::Error => MessageLevel::Error,
    };
    state.send(Command::ShowMessage(level, message));
}

pub open spec fn clamp_u32(x: int) -> u32 {
    if x < 0 { 0 } else if x > u32::MAX { u32::MAX } else { x as u32 }
}

/// A position (thousandths of a beat) in frames at a tempo and sample rate, rounded
/// toward zero within `u32`; with no tempo the position is infinitely far.
pub open spec fn frames_at(position: i64, tempo: u32, sample_rate: i32) -> u32 {
    let num = 60 * (position * sample_rate);
    let den = 1000 * tempo;
    if den == 0 {
        if num > 0 { u32::MAX } else { 0 }
    } else {
        clamp_u32(trunc_div(num, den))
    }
}

/// The block of a position (thousandths of a beat), rounded toward zero within `i32`;
/// with no tempo or block size the block is infinitely far in the direction of the
/// quotient (none for a zero position).
pub open spec fn block_at(position: i64, tempo: u32, sample_rate: i32, block_size: i32) -> i32 {
    let num = 60 * (position * sample_rate);
    let den = 1000 * tempo;
    if den != 0 && block_size != 0 {
        clamp_i32(trunc_div(num, den * block_size))
    } else if num == 0 {
        0
    } else if (num > 0) == (block_size >= 0) {
        i32::MAX
    } else {
        i32::MIN
    }
}

fn div_toward_zero_i128(num: i128, den: i128) -> (q: i128)
    requires
        den != 0,
        -100000000000000000000000000000000 <= num <= 100000000000000000000000000000000,
        -100000000000000000000000000000000 <= den <= 100000000000000000000000000000000,
    ensures
        q == trunc_div(num as int, den as int),
        -100000000000000000000000000000000 <= q <= 100000000000000000000000000000000,
{
    let an: i128 = if num < 0 { -num } else { num };
    let ad: i128 = if den < 0 { -den } else { den };
    let q0: i128 = an / ad;
    assert(0 <= q0 <= an) by (nonlinear_arith)
        requires
            q0 == an / ad,
            an >= 0,
            ad >= 1;
    if (num >= 0) == (den > 0) { q0 } else { -q0 }
}

fn frames_of(position: i64, tempo: u32, sample_rate: i32) -> (r: u32)
    ensures
        r == frames_at(position, tempo, sample_rate),
{
    let p = position as i128;
    let sr = sample_rate as i128;
    assert(-100000000000000000000000000000 <= p * sr <= 100000000000000000000000000000) by (nonlinear_arith)
        requires
            -9223372036854775808 <= p <= 9223372036854775807,
            -2147483648 <= sr <= 2147483647;
    let num: i128 = 60 * (p * sr);
    let den: i128 = 1000 * (tempo as i128);
    if den == 0 {
        if num > 0 { u32::MAX } else { 0 }
    } else {
        let q = div_toward_zero_i128(num, den);
        if q < 0 { 0 } else if q > u32::MAX as i128 { u32::MAX } else { q as u32 }
    }
}

fn block_of_position(position: i64, tempo: u32, sample_rate: i32, block_size: i32) -> (r: i32)
    ensures
        r == block_at(position, tempo, sample_rate, block_size),
{
    let p = position as i128;
    let sr = sample_rate as i128;
    assert(-100000000000000000000000000000 <= p * sr <= 100000000000000000000000000000) by (nonlinear_arith)
        requires
            -9223372036854775808 <= p <= 9223372036854775807,
            -2147483648 <= sr <= 2147483647;
    let num: i128 = 60 * (p * sr);
    let den: i128 = 1000 * (tempo as i128);
    if den != 0 && block_size != 0 {
        let b = block_size as i128;
        assert(-100000000000000000000000 <= den * b <= 100000000000000000000000 && den * b != 0) by (nonlinear_arith)
            requires
                0 < den <= 4294967295000,
                -2147483648 <= b <= 2147483647,
                b != 0;
        let d = den * b;
        let q = div_toward_zero_i128(num, d);
        if q < i32::MIN as i128 { i32::MIN } else if q > i32::MAX as i128 { i32::MAX } else { q as i32 }
    } else if num == 0 {
        0
    } else if (num > 0) == (block_size >= 0) {
        i32::MAX
    } else {
        i32::MIN
    }
}

/// Moving the play position to a position (thousandths of a beat): the position in
/// frames is recorded and every track is told its block.
pub open spec fn play_position_moved(s: RiffDAWStateView, position: i64) -> RiffDAWStateView {
    let block = block_at(position, s.song.tempo, s.configuration.sample_rate, s.configuration.block_size);
    RiffDAWStateView {
        play_position_in_frames: frames_at(position, s.song.tempo, s.configuration.sample_rate),
        outbox: s.outbox + per_track(s.song.tracks, to_each_track(TrackBackgroundProcessorInwardEvent::SetBlockPosition(block))),
        ..s
    }
}

pub fn daw_events_PlayPositionInBeats(state: &mut RiffDAWState, play_position: i64)
    ensures
        final(state)@ == play_position_moved(old(state)@, play_position),
{
    let tempo = state.song.tempo;
    let sample_rate = state.configuration.sample_rate;
    let block_size = state.configuration.block_size;
    state.play_position_in_frames = frames_of(play_position, tempo, sample_rate);
    let block = block_of_position(play_position, tempo, sample_rate, block_size);
    send_to_each_track(state, TrackBackgroundProcessorInwardEvent::SetBlockPosition(block));
}

} // verus!
