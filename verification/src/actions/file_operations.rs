//! Handlers of file operations: a new song, opening, saving and exporting. The file
//! work itself is asked for by commands; the handlers decide what is asked and when the
//! audio layer pauses around it.
use vstd::prelude::*;
use crate::domain::{Song, SongView, Track, TrackKind, TrackView};
use crate::ids::{all_fresh, is_fresh_id, new_item_id, new_item_ids};
use crate::midi_import::{import_ids_fresh, import_track, imported_track, read_tempo, tempo_before, ImportIds, MidiFileContents};
use crate::dawproject_import::{
    encodable, imported_song, project_ids_fresh, plugin_presets, presets_of, project_ids_enough, song_from_project,
    DawProjectFile, ProjectContents, ProjectImportIds, ProjectLaneIds, ProjectTrackIds, NEW_SONG_TEMPO,
};
use crate::event::{AudioLayerEvent, AudioLayerInwardEvent, AudioMode, Command, TrackBackgroundProcessorInwardEvent};
use crate::state::{lemma_per_track_all, lemma_per_track_step, per_track, with_audio, RiffDAWState, RiffDAWStateView};

verus! {

/// How long (in milliseconds) the audio layer is given to coast before a file is read or written.
pub const COAST_PAUSE_MILLISECONDS: u32 = 1000;

pub open spec fn audio_mode(outbox: Seq<Command>, connected: bool, mode: AudioMode) -> Seq<Command> {
    with_audio(outbox, connected, AudioLayerEvent::AudioMode(mode))
}

pub open spec fn audio_inward(outbox: Seq<Command>, connected: bool, e: AudioLayerInwardEvent) -> Seq<Command> {
    with_audio(outbox, connected, AudioLayerEvent::AudioLayerInward(e))
}

/// The audio settings sent to the audio layer after a song was set up: block size,
/// tempo and sample rate.
pub open spec fn audio_settings_sent(outbox: Seq<Command>, s: RiffDAWStateView, tempo: u32) -> Seq<Command> {
    audio_inward(
        audio_inward(
            audio_inward(outbox, s.audio_layer_connected, AudioLayerInwardEvent::BlockSize(s.configuration.block_size)),
            s.audio_layer_connected,
            AudioLayerInwardEvent::Tempo(tempo),
        ),
        s.audio_layer_connected,
        AudioLayerInwardEvent::SampleRate(s.configuration.sample_rate),
    )
}

fn send_audio_settings(state: &mut RiffDAWState)
    ensures
        final(state)@ == (RiffDAWStateView {
            outbox: audio_settings_sent(old(state)@.outbox, old(state)@, old(state)@.song.tempo),
            ..old(state)@
        }),
{
    let block_size = state.configuration.block_size;
    let tempo = state.song.tempo;
    let sample_rate = state.configuration.sample_rate;
    state.send_to_audio_layer(AudioLayerEvent::AudioLayerInward(AudioLayerInwardEvent::BlockSize(block_size)));
    state.send_to_audio_layer(AudioLayerEvent::AudioLayerInward(AudioLayerInwardEvent::Tempo(tempo)));
    state.send_to_audio_layer(AudioLayerEvent::AudioLayerInward(AudioLayerInwardEvent::SampleRate(sample_rate)));
}

/// A new, empty song in 4/4 at a tempo.
pub open spec fn new_song(tempo: u32) -> SongView {
    SongView {
        name: Seq::empty(),
        tempo,
        time_signature_numerator: 4,
        time_signature_denominator: 4,
        tracks: Seq::empty(),
        loops: Seq::empty(),
        riff_sets: Seq::empty(),
        riff_sequences: Seq::empty(),
        riff_grids: Seq::empty(),
        riff_arrangements: Seq::empty(),
    }
}

/// Starting a new song: the tracks are closed and the state reset, the song is replaced
/// by an empty one at the same tempo, the track processors are rewired and the audio
/// layer gets the audio settings.
pub open spec fn new_file(s: RiffDAWStateView) -> RiffDAWStateView {
    let outbox = s.outbox + seq![Command::CloseAllTracks, Command::ResetState, Command::UpdateTrackSendersAndReceivers];
    RiffDAWStateView { song: new_song(s.song.tempo), outbox: audio_settings_sent(outbox, s, s.song.tempo), ..s }
}

pub fn daw_events_NewFile(state: &mut RiffDAWState)
    ensures
        final(state)@ == new_file(old(state)@),
{
    state.send(Command::CloseAllTracks);
    state.send(Command::ResetState);
    let tempo = state.song.tempo;
    state.song = Song {
        name: String::new(),
        tempo,
        time_signature_numerator: 4,
        time_signature_denominator: 4,
        tracks: Vec::new(),
        loops: Vec::new(),
        riff_sets: Vec::new(),
        riff_sequences: Vec::new(),
        riff_grids: Vec::new(),
        riff_arrangements: Vec::new(),
    };
    assert(state@.song.name =~= Seq::<char>::empty());
    assert(state@.song.tracks =~= Seq::<TrackView>::empty());
    assert(state@.song.loops =~= new_song(tempo).loops);
    assert(state@.song.riff_sets =~= new_song(tempo).riff_sets);
    assert(state@.song.riff_sequences =~= new_song(tempo).riff_sequences);
    assert(state@.song.riff_grids =~= new_song(tempo).riff_grids);
    assert(state@.song.riff_arrangements =~= new_song(tempo).riff_arrangements);
    assert(state@.song == new_song(tempo));
    state.send(Command::UpdateTrackSendersAndReceivers);
    assert(state@.outbox =~= old(state)@.outbox + seq![Command::CloseAllTracks, Command::ResetState, Command::UpdateTrackSendersAndReceivers]);
    send_audio_settings(state);
}

pub fn daw_events_OpenFile(state: &mut RiffDAWState, path: String)
    ensures
        final(state)@ == open_file_state(old(state)@, path),
{
    state.send_to_audio_layer(AudioLayerEvent::AudioMode(AudioMode::Coast));
    let ghost o1 = state@.outbox;
    state.send(Command::Pause(COAST_PAUSE_MILLISECONDS));
    state.send(Command::CloseAllTracks);
    state.send(Command::ResetState);
    state.send(Command::LoadFromFile(path));
    assert(state@.outbox =~= o1 + seq![
        Command::Pause(COAST_PAUSE_MILLISECONDS),
        Command::CloseAllTracks,
        Command::ResetState,
        Command::LoadFromFile(path),
    ]);
}

/// Opening a file: the audio layer coasts, a pause, the tracks are closed and the state
/// reset, and the file is asked to be loaded (`daw_events_OpenFileLoaded` follows).
pub open spec fn open_file_state(s: RiffDAWStateView, path: String) -> RiffDAWStateView {
    RiffDAWStateView {
        outbox: audio_mode(s.outbox, s.audio_layer_connected, AudioMode::Coast) + seq![
            Command::Pause(COAST_PAUSE_MILLISECONDS),
            Command::CloseAllTracks,
            Command::ResetState,
            Command::LoadFromFile(path),
        ],
        ..s
    }
}

/// The tempo for a track that is not a MIDI track.
pub open spec fn tempo_for(tempo: u32) -> spec_fn(TrackView) -> Seq<Command> {
    |t: TrackView| if t.kind == TrackKind::Midi {
        Seq::empty()
    } else {
        seq![Command::ToTrack(t.id, TrackBackgroundProcessorInwardEvent::Tempo(tempo))]
    }
}

/// A MIDI output port for a MIDI track.
pub open spec fn midi_port_for() -> spec_fn(TrackView) -> Seq<Command> {
    |t: TrackView| if t.kind == TrackKind::Midi { seq![Command::RegisterMidiOutPort(t.id)] } else { Seq::empty() }
}

/// After a file was loaded: each track that is not a MIDI track gets the tempo, the
/// audio layer gets the audio settings, each MIDI track gets an output port, and the
/// audio layer plays out again.
pub open spec fn file_loaded(s: RiffDAWStateView) -> RiffDAWStateView {
    let o1 = s.outbox + per_track(s.song.tracks, tempo_for(s.song.tempo));
    let o2 = audio_settings_sent(o1, s, s.song.tempo) + per_track(s.song.tracks, midi_port_for());
    RiffDAWStateView { outbox: audio_mode(o2, s.audio_layer_connected, AudioMode::AudioOut), ..s }
}

fn send_per_track(state: &mut RiffDAWState, midi_ports: bool)
    ensures
        final(state)@ == (RiffDAWStateView {
            outbox: old(state)@.outbox + per_track(old(state)@.song.tracks, if midi_ports { midi_port_for() } else { tempo_for(old(state)@.song.tempo) }),
            ..old(state)@
        }),
{
    let ghost s0 = state@;
    let ghost f = if midi_ports { midi_port_for() } else { tempo_for(s0.song.tempo) };
    let tempo = state.song.tempo;
    let n = state.song.tracks.len();
    let mut i: usize = 0;
    while i < n
        invariant
            i <= n,
            n == state.song.tracks@.len(),
            tempo == s0.song.tempo,
            f == (if midi_ports { midi_port_for() } else { tempo_for(s0.song.tempo) }),
            state@ == (RiffDAWStateView { outbox: s0.outbox + per_track(s0.song.tracks.take(i as int), f), ..s0 }),
        decreases n - i,
    {
        let id = state.song.tracks[i].id;
        let is_midi = match state.song.tracks[i].kind {
            TrackKind::Midi => true,
            _ => false,
        };
        let ghost before = state@.outbox;
        if midi_ports {
            if is_midi {
                state.send(Command::RegisterMidiOutPort(id));
            }
        } else {
            if !is_midi {
                state.send(Command::ToTrack(id, TrackBackgroundProcessorInwardEvent::Tempo(tempo)));
            }
        }
        proof {
            lemma_per_track_step(s0.song.tracks, f, i as int);
            assert(s0.song.tracks[i as int] == state.song.tracks@[i as int]@);
            assert(state@.outbox =~= before + f(s0.song.tracks[i as int]));
            assert(s0.outbox + per_track(s0.song.tracks.take(i + 1), f) =~= before + f(s0.song.tracks[i as int]));
        }
        i = i + 1;
    }
    proof { lemma_per_track_all(s0.song.tracks, f); }
}

/// Finishes opening a file once the song was loaded into the state.
pub fn daw_events_OpenFileLoaded(state: &mut RiffDAWState)
    ensures
        final(state)@ == file_loaded(old(state)@),
{
    send_per_track(state, false);
    send_audio_settings(state);
    send_per_track(state, true);
    state.send_to_audio_layer(AudioLayerEvent::AudioMode(AudioMode::AudioOut));
}

/// Saving: the audio layer coasts, a pause, the song is saved, and the audio layer
/// plays out again.
pub open spec fn saved(s: RiffDAWStateView) -> RiffDAWStateView {
    RiffDAWStateView {
        outbox: audio_mode(
            audio_mode(s.outbox, s.audio_layer_connected, AudioMode::Coast) + seq![Command::Pause(COAST_PAUSE_MILLISECONDS), Command::Save],
            s.audio_layer_connected,
            AudioMode::AudioOut,
        ),
        ..s
    }
}

pub fn daw_events_Save(state: &mut RiffDAWState)
    ensures
        final(state)@ == saved(old(state)@),
{
    state.send_to_audio_layer(AudioLayerEvent::AudioMode(AudioMode::Coast));
    let ghost o1 = state@.outbox;
    state.send(Command::Pause(COAST_PAUSE_MILLISECONDS));
    state.send(Command::Save);
    assert(state@.outbox =~= o1 + seq![Command::Pause(COAST_PAUSE_MILLISECONDS), Command::Save]);
    state.send_to_audio_layer(AudioLayerEvent::AudioMode(AudioMode::AudioOut));
}

/// Work done while the audio layer is in a mode, then back to playing out.
pub open spec fn around(s: RiffDAWStateView, mode: AudioMode, c: Command) -> Seq<Command> {
    audio_mode(audio_mode(s.outbox, s.audio_layer_connected, mode).push(c), s.audio_layer_connected, AudioMode::AudioOut)
}

fn send_around(state: &mut RiffDAWState, mode: AudioMode, c: Command)
    ensures
        final(state)@ == (RiffDAWStateView { outbox: around(old(state)@, mode, c), ..old(state)@ }),
{
    state.send_to_audio_layer(AudioLayerEvent::AudioMode(mode));
    state.send(c);
    state.send_to_audio_layer(AudioLayerEvent::AudioMode(AudioMode::AudioOut));
}

/// Saves the song under a path, which becomes the current file.
pub fn daw_events_SaveAs(state: &mut RiffDAWState, path: String)
    ensures
        final(state)@ == (RiffDAWStateView {
            outbox: around(old(state)@, AudioMode::Coast, Command::SaveAs(path)),
            current_file_path: Some(path@),
            ..old(state)@
        }),
{
    let p = path.clone();
    send_around(state, AudioMode::Coast, Command::SaveAs(p));
    state.current_file_path = Some(path);
}

/// Exports the song to a MIDI file while the audio layer renders.
pub fn daw_events_ExportMidiFile(state: &mut RiffDAWState, path: String)
    ensures
        final(state)@ == (RiffDAWStateView { outbox: around(old(state)@, AudioMode::Render, Command::ExportMidiFile(path)), ..old(state)@ }),
{
    send_around(state, AudioMode::Render, Command::ExportMidiFile(path));
}

/// Exports the riffs to one MIDI file while the audio layer renders.
pub fn daw_events_ExportRiffsToMidiFile(state: &mut RiffDAWState, path: String)
    ensures
        final(state)@ == (RiffDAWStateView { outbox: around(old(state)@, AudioMode::Render, Command::ExportRiffsToMidiFile(path)), ..old(state)@ }),
{
    send_around(state, AudioMode::Render, Command::ExportRiffsToMidiFile(path));
}

/// Exports the riffs to separate MIDI files in a directory while the audio layer coasts.
pub fn daw_events_ExportRiffsToSeparateMidiFiles(state: &mut RiffDAWState, path: String)
    ensures
        final(state)@ == (RiffDAWStateView { outbox: around(old(state)@, AudioMode::Coast, Command::ExportRiffsToSeparateMidiFiles(path)), ..old(state)@ }),
{
    send_around(state, AudioMode::Coast, Command::ExportRiffsToSeparateMidiFiles(path));
}

/// Exports the song to a wave file while the audio layer renders.
pub fn daw_events_ExportWaveFile(state: &mut RiffDAWState, path: String)
    ensures
        final(state)@ == (RiffDAWStateView { outbox: around(old(state)@, AudioMode::Render, Command::ExportWaveFile(path)), ..old(state)@ }),
{
    send_around(state, AudioMode::Render, Command::ExportWaveFile(path));
}

/// The tracks a MIDI file's tracks become, in order, each with its identifiers.
pub open spec fn imported_tracks(midi: MidiFileContents, ids: Seq<ImportIds>) -> Seq<TrackView> {
    Seq::new(midi.tracks@.len(), |k: int| imported_track(midi.tracks@[k]@, midi.ppqn, ids[k]))
}

/// Enough identifiers for every track and every event.
pub open spec fn import_ids_enough(midi: MidiFileContents, ids: Seq<ImportIds>) -> bool {
    &&& ids.len() == midi.tracks@.len()
    &&& forall|k: int| 0 <= k < ids.len() ==> #[trigger] ids[k].notes@.len() >= midi.tracks@[k]@.len()
}

/// The commands starting the first `k` imported tracks: each at the tempo read from the
/// file up to and including its own track (0 while none was read).
pub open spec fn import_inits(m: MidiFileContents, ids: Seq<ImportIds>, k: nat) -> Seq<Command> {
    Seq::new(k, |j: int| Command::InitTrack(ids[j].track, tempo_before(m.tracks@, (j + 1) as nat)))
}

/// Importing a MIDI file (`None`: it could not be read): the audio layer coasts; the
/// file's tracks are added to the song as instrument tracks (see `imported_track`), each
/// started at the tempo the file gave so far (see `import_inits`), and the track
/// processors rewired; the audio layer plays out again.
pub open spec fn midi_imported(s: RiffDAWStateView, midi: Option<MidiFileContents>, ids: Seq<ImportIds>) -> RiffDAWStateView {
    let o1 = audio_mode(s.outbox, s.audio_layer_connected, AudioMode::Coast);
    match midi {
        None => RiffDAWStateView { outbox: audio_mode(o1, s.audio_layer_connected, AudioMode::AudioOut), ..s },
        Some(m) => {
            let added = imported_tracks(m, ids);
            RiffDAWStateView {
                song: SongView { tracks: s.song.tracks + added, ..s.song },
                outbox: audio_mode(
                    o1 + import_inits(m, ids, m.tracks@.len()) + seq![Command::UpdateTrackSendersAndReceivers],
                    s.audio_layer_connected,
                    AudioMode::AudioOut,
                ),
                ..s
            }
        },
    }
}

fn fresh_import_ids(events: usize) -> (r: ImportIds)
    ensures
        r.notes@.len() == events,
        import_ids_fresh(r),
{
    ImportIds {
        track: new_item_id(),
        instrument: new_item_id(),
        empty_riff: new_item_id(),
        riff: new_item_id(),
        riff_ref: new_item_id(),
        notes: new_item_ids(events),
    }
}

/// Imports the tracks of a MIDI file that the application has read; every new item gets
/// a fresh identifier.
pub fn daw_events_ImportMidiFile(state: &mut RiffDAWState, midi: Option<MidiFileContents>)
    ensures
        exists|ids: Seq<ImportIds>| (forall|k: int| 0 <= k < ids.len() ==> import_ids_fresh(#[trigger] ids[k]))
            && (midi matches Some(m) ==> import_ids_enough(m, ids))
            && final(state)@ == midi_imported(old(state)@, midi, ids),
{
    state.send_to_audio_layer(AudioLayerEvent::AudioMode(AudioMode::Coast));
    let ghost s1 = state@;
    let ghost mut ids: Seq<ImportIds> = Seq::empty();
    match &midi {
        None => {},
        Some(m) => {
            let n = m.tracks.len();
            let mut k: usize = 0;
            let mut tempo: u32 = 0;
            while k < n
                invariant
                    k <= n,
                    n == m.tracks@.len(),
                    ids.len() == k,
                    forall|j: int| 0 <= j < k ==> import_ids_fresh(#[trigger] ids[j]),
                    tempo == tempo_before(m.tracks@, k as nat),
                    forall|j: int| 0 <= j < k ==> #[trigger] ids[j].notes@.len() >= m.tracks@[j]@.len(),
                    state@ == (RiffDAWStateView {
                        song: SongView { tracks: s1.song.tracks + Seq::new(k as nat, |j: int| imported_track(m.tracks@[j]@, m.ppqn, ids[j])), ..s1.song },
                        outbox: s1.outbox + import_inits(*m, ids, k as nat),
                        ..s1
                    }),
                decreases n - k,
            {
                let track_ids = fresh_import_ids(m.tracks[k].len());
                let track = import_track(&m.tracks[k], m.ppqn, &track_ids);
                tempo = read_tempo(&m.tracks[k], tempo);
                let id = track.id;
                let ghost tv = track@;
                let ghost old_ids = ids;
                proof {
                    ids = ids.push(track_ids);
                }
                let ghost before_tracks = state.song.tracks@;
                state.song.tracks.push(track);
                state.send(Command::InitTrack(id, tempo));
                proof {
                    let added = Seq::new((k + 1) as nat, |j: int| imported_track(m.tracks@[j]@, m.ppqn, ids[j]));
                    let prev = Seq::new(k as nat, |j: int| imported_track(m.tracks@[j]@, m.ppqn, ids[j]));
                    assert(added =~= prev.push(tv));
                    assert(tempo == tempo_before(m.tracks@, (k + 1) as nat));
                    assert(import_inits(*m, old_ids, k as nat) =~= import_inits(*m, ids, k as nat));
                    assert(import_inits(*m, ids, (k + 1) as nat) =~= import_inits(*m, ids, k as nat).push(Command::InitTrack(id, tempo)));
                    assert(state.song.tracks@.map_values(|t: Track| t@) =~= before_tracks.map_values(|t: Track| t@).push(tv));
                    assert(s1.song.tracks + added =~= (s1.song.tracks + prev).push(tv));
                    assert(s1.outbox + import_inits(*m, ids, (k + 1) as nat) =~= (s1.outbox + import_inits(*m, ids, k as nat)).push(Command::InitTrack(id, tempo)));
                    assert(state@.song.tracks == s1.song.tracks + added);
                }
                k = k + 1;
            }
            state.send(Command::UpdateTrackSendersAndReceivers);
            proof {
                let added = Seq::new(n as nat, |j: int| imported_track(m.tracks@[j]@, m.ppqn, ids[j]));
                assert(added =~= imported_tracks(*m, ids));
                assert(state@.outbox =~= s1.outbox + import_inits(*m, ids, n as nat) + seq![Command::UpdateTrackSendersAndReceivers]);
            }
        },
    }
    state.send_to_audio_layer(AudioLayerEvent::AudioMode(AudioMode::AudioOut));
    assert(state@ == midi_imported(old(state)@, midi, ids));
}

/// Whether there are fresh identifiers for what the file's project holds.
pub open spec fn file_ids_enough(file: Option<DawProjectFile>, ids: ProjectImportIds) -> bool {
    match file {
        Some(f) => match f.project {
            Some(c) => project_ids_enough(c, ids),
            None => true,
        },
        None => true,
    }
}

/// Importing a DAWproject file (`None`: it could not be opened): the audio layer
/// coasts, a pause, the tracks are closed and the state reset; the song becomes the
/// file's project (see `imported_song`), with the plugin presets the file stores, or an
/// empty song when the file or its project could not be read; then the song is set up
/// as after opening a file.
pub open spec fn project_imported(s: RiffDAWStateView, file: Option<DawProjectFile>, ids: ProjectImportIds) -> RiffDAWStateView {
    let outbox = audio_mode(s.outbox, s.audio_layer_connected, AudioMode::Coast) + seq![
        Command::Pause(COAST_PAUSE_MILLISECONDS),
        Command::CloseAllTracks,
        Command::ResetState,
    ];
    let song = match file {
        Some(f) => match f.project {
            Some(c) => imported_song(c, presets_of(f.files@), s.configuration, ids),
            None => new_song(NEW_SONG_TEMPO),
        },
        None => new_song(NEW_SONG_TEMPO),
    };
    file_loaded(RiffDAWStateView { song, outbox, ..s })
}

fn fresh_project_ids(c: &ProjectContents) -> (r: ProjectImportIds)
    ensures
        project_ids_enough(*c, r),
        project_ids_fresh(r),
{
    let mut tracks: Vec<ProjectTrackIds> = Vec::new();
    let mut k: usize = 0;
    while k < c.tracks.len()
        invariant
            k <= c.tracks.len(),
            tracks@.len() == k,
            forall|m: int| 0 <= m < k ==> (#[trigger] tracks@[m]).effects@.len() >= c.tracks@[m].plugins@.len(),
            forall|m: int| 0 <= m < k ==> {
                &&& is_fresh_id((#[trigger] tracks@[m]).track)
                &&& is_fresh_id(tracks@[m].instrument)
                &&& is_fresh_id(tracks@[m].default_riff)
                &&& all_fresh(tracks@[m].effects@)
            },
        decreases c.tracks.len() - k,
    {
        let ids = ProjectTrackIds {
            track: new_item_id(),
            instrument: new_item_id(),
            default_riff: new_item_id(),
            effects: new_item_ids(c.tracks[k].plugins.len()),
        };
        tracks.push(ids);
        k = k + 1;
    }
    let mut lanes: Vec<ProjectLaneIds> = Vec::new();
    let mut l: usize = 0;
    while l < c.lanes.len()
        invariant
            l <= c.lanes.len(),
            lanes@.len() == l,
            forall|m: int| 0 <= m < l ==> (#[trigger] lanes@[m]).notes@.len() >= c.lanes@[m].notes@.len(),
            forall|m: int| 0 <= m < l ==> {
                &&& is_fresh_id((#[trigger] lanes@[m]).riff)
                &&& is_fresh_id(lanes@[m].riff_ref)
                &&& all_fresh(lanes@[m].notes@)
            },
        decreases c.lanes.len() - l,
    {
        let ids = ProjectLaneIds { riff: new_item_id(), riff_ref: new_item_id(), notes: new_item_ids(c.lanes[l].notes.len()) };
        lanes.push(ids);
        l = l + 1;
    }
    ProjectImportIds { tracks, lanes }
}

fn empty_song(tempo: u32) -> (r: Song)
    ensures
        r@ == new_song(tempo),
{
    let song = Song {
        name: String::new(),
        tempo,
        time_signature_numerator: 4,
        time_signature_denominator: 4,
        tracks: Vec::new(),
        loops: Vec::new(),
        riff_sets: Vec::new(),
        riff_sequences: Vec::new(),
        riff_grids: Vec::new(),
        riff_arrangements: Vec::new(),
    };
    assert(song@.tracks =~= new_song(tempo).tracks);
    assert(song@.loops =~= new_song(tempo).loops);
    assert(song@.riff_sets =~= new_song(tempo).riff_sets);
    assert(song@.riff_sequences =~= new_song(tempo).riff_sequences);
    assert(song@.riff_grids =~= new_song(tempo).riff_grids);
    assert(song@.riff_arrangements =~= new_song(tempo).riff_arrangements);
    song
}

/// Imports a DAWproject file that the application has opened and read; every new item
/// gets a fresh identifier.
pub fn daw_events_ImportDAWProjectFile(state: &mut RiffDAWState, file: Option<DawProjectFile>)
    requires
        file matches Some(f) ==> encodable(f.files@),
    ensures
        exists|ids: ProjectImportIds| project_ids_fresh(ids) && file_ids_enough(file, ids) && final(state)@ == project_imported(old(state)@, file, ids),
{
    let ghost s0 = state@;
    state.send_to_audio_layer(AudioLayerEvent::AudioMode(AudioMode::Coast));
    let ghost o1 = state@.outbox;
    state.send(Command::Pause(COAST_PAUSE_MILLISECONDS));
    state.send(Command::CloseAllTracks);
    state.send(Command::ResetState);
    assert(state@.outbox =~= o1 + seq![
        Command::Pause(COAST_PAUSE_MILLISECONDS),
        Command::CloseAllTracks,
        Command::ResetState,
    ]);
    let no_ids = ProjectImportIds { tracks: Vec::new(), lanes: Vec::new() };
    let ghost mut ids: ProjectImportIds = no_ids;
    let song = match &file {
        Some(f) => match &f.project {
            Some(c) => {
                let presets = plugin_presets(&f.files);
                let fresh = fresh_project_ids(c);
                let song = song_from_project(c, &presets, &state.configuration, &fresh);
                proof {
                    ids = fresh;
                }
                song
            },
            None => empty_song(NEW_SONG_TEMPO),
        },
        None => empty_song(NEW_SONG_TEMPO),
    };
    state.song = song;
    daw_events_OpenFileLoaded(state);
    assert(project_ids_fresh(ids) && file_ids_enough(file, ids) && state@ == project_imported(s0, file, ids));
}

} // verus!
