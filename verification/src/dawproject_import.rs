//! Building a song from the contents of a DAWproject file.
//!
//! Each track of the project's structure becomes an instrument track: its name, mute,
//! pan and solo are taken over, and its VST2, VST3 and CLAP plugins become the track's
//! instrument (those in the instrument role) or effects (the others). Each lane of the
//! arrangement that names a track gives that track a riff "1", placed at the start,
//! holding the lane's notes. Plugin states stored under `plugins/` in the file are
//! carried, base64 encoded, as the plugins' preset data.
use vstd::prelude::*;
use crate::domain::{
    empty_automation, AudioPlugin, AudioPluginView, Automation, ItemId, Note, Riff, RiffReference,
    RiffView, Song, SongView, Track, TrackEvent, TrackKind, TrackView,
};
use crate::midi_import::{default_instrument, default_riff, DEFAULT_RIFF_LENGTH};
use crate::numeric::{clamp_i64, sat_add_i64};
use crate::ids::{all_fresh, is_fresh_id};
use crate::seq_search::{first_match, lemma_first_match_at, lemma_first_match_none};
use crate::state::{Configuration, ConfigurationView, ScannedPlugin, ScannedPluginView};
use crate::text::{before_first, chars_of, first_piece, has_prefix, starts_with, string_from_chars, trim, trimmed, TrimKind};

verus! {

/// The length of the riff each arrangement lane becomes: six times 140 beats.
pub const LANE_RIFF_LENGTH: i64 = 840000;

/// The tempo of a song that the file does not give one for.
pub const NEW_SONG_TEMPO: u32 = 140;

/// The tempo taken when the file's tempo is not a number.
pub const FALLBACK_TEMPO: u32 = 140;

/// The plugin formats whose devices the import takes over.
#[derive(Clone, Copy, PartialEq, Eq, Structural, Debug)]
pub enum PluginFormat {
    Vst2,
    Vst3,
    Clap,
}

/// A plugin device of a track's channel.
pub struct ProjectPlugin {
    pub format: PluginFormat,
    /// Whether the device plays the instrument role.
    pub instrument_role: bool,
    pub name: Option<String>,
    pub device_name: String,
    pub device_vendor: Option<String>,
    pub plugin_version: Option<String>,
    /// The path in the file of the plugin's saved state.
    pub state_path: Option<String>,
}

/// A track of the project's structure, with what its channel says.
pub struct ProjectTrack {
    pub id: Option<String>,
    pub name: Option<String>,
    pub mute: Option<bool>,
    /// The pan in thousandths; `None` when the file gives none or one that is not a
    /// number (the track is then centred).
    pub pan: Option<i32>,
    pub solo: Option<bool>,
    pub plugins: Vec<ProjectPlugin>,
}

/// A note of a clip: the clip's start and the note's time within it, its duration (all
/// in thousandths of a beat), its key, and its velocity scaled to 0..127 when the file
/// gives a velocity that is a number.
#[derive(Clone, Copy, PartialEq, Eq, Structural, Debug)]
pub struct ProjectNote {
    pub clip_time: i64,
    pub time: i64,
    pub duration: i64,
    pub key: i32,
    pub velocity: Option<i32>,
}

/// A lane of the arrangement: the track it belongs to and the notes of its clips, in order.
pub struct ProjectLane {
    pub track: Option<String>,
    pub notes: Vec<ProjectNote>,
}

/// What the import reads of a project: the application's name, the transport's time
/// signature and tempo (`Some(None)`: a tempo that is not a number), the structure's
/// tracks and the arrangement's lanes.
pub struct ProjectContents {
    pub application_name: String,
    pub time_signature: Option<(i32, i32)>,
    pub tempo: Option<Option<u32>>,
    pub tracks: Vec<ProjectTrack>,
    pub lanes: Vec<ProjectLane>,
}

/// A file stored in the project file, with its bytes when they could be read.
pub struct ProjectFileEntry {
    pub name: String,
    pub data: Option<Vec<u8>>,
}

/// A DAWproject file that could be opened: the files it stores, and its project when
/// that could be read.
pub struct DawProjectFile {
    pub files: Vec<ProjectFileEntry>,
    pub project: Option<ProjectContents>,
}

/// The fresh identifiers of one imported track: the track, its instrument, its default
/// riff, and one per plugin for the effect it may become.
pub struct ProjectTrackIds {
    pub track: ItemId,
    pub instrument: ItemId,
    pub default_riff: ItemId,
    pub effects: Vec<ItemId>,
}

/// The fresh identifiers of one lane: its riff, the riff's placement, and one per note.
pub struct ProjectLaneIds {
    pub riff: ItemId,
    pub riff_ref: ItemId,
    pub notes: Vec<ItemId>,
}

/// The fresh identifiers of a whole import.
pub struct ProjectImportIds {
    pub tracks: Vec<ProjectTrackIds>,
    pub lanes: Vec<ProjectLaneIds>,
}

/// Whether every identifier of a project import is as `new_item_id` gives them.
pub open spec fn project_ids_fresh(ids: ProjectImportIds) -> bool {
    &&& forall|k: int| 0 <= k < ids.tracks@.len() ==> {
        &&& is_fresh_id((#[trigger] ids.tracks@[k]).track)
        &&& is_fresh_id(ids.tracks@[k].instrument)
        &&& is_fresh_id(ids.tracks@[k].default_riff)
        &&& all_fresh(ids.tracks@[k].effects@)
    }
    &&& forall|k: int| 0 <= k < ids.lanes@.len() ==> {
        &&& is_fresh_id((#[trigger] ids.lanes@[k]).riff)
        &&& is_fresh_id(ids.lanes@[k].riff_ref)
        &&& all_fresh(ids.lanes@[k].notes@)
    }
}

/// The standard base64 encoding (with padding) of the bytes.
pub uninterp spec fn base64_standard(bytes: Seq<u8>) -> Seq<char>;

/// `base64::encode`, which encodes with the standard alphabet and padding; its
/// result is named, not stated. The crate panics when the encoded length overflows
/// `usize`, which the bound on the input rules out.
#[verifier::external_body]
#[allow(deprecated)]
fn encode_base64(bytes: &Vec<u8>) -> (r: String)
    requires
        bytes@.len() <= usize::MAX / 2,
    ensures
        r@ == base64_standard(bytes@),
{
    base64::encode(bytes)
}

/// The folder of a project file that holds the plugins' saved states.
pub open spec fn presets_folder() -> Seq<char> {
    seq!['p', 'l', 'u', 'g', 'i', 'n', 's', '/']
}

fn presets_folder_chars() -> (r: Vec<char>)
    ensures
        r@ == presets_folder(),
{
    let r: Vec<char> = vec!['p', 'l', 'u', 'g', 'i', 'n', 's', '/'];
    assert(r@ =~= presets_folder());
    r
}

/// Whether a stored file holds a plugin's saved state.
pub fn is_plugin_preset_path(name: &String) -> (r: bool)
    ensures
        r == has_prefix(name@, presets_folder()),
{
    let chars = chars_of(name.as_str());
    let folder = presets_folder_chars();
    starts_with(&chars, &folder)
}

/// The preset a stored file gives: its name and its bytes encoded, when it is a
/// plugin state whose bytes could be read.
pub open spec fn preset_of(f: ProjectFileEntry) -> Seq<(Seq<char>, Seq<char>)> {
    match f.data {
        Some(d) => if has_prefix(f.name@, presets_folder()) {
            seq![(f.name@, base64_standard(d@))]
        } else {
            Seq::empty()
        },
        None => Seq::empty(),
    }
}

/// The presets of the stored files, in order.
pub open spec fn presets_of(files: Seq<ProjectFileEntry>) -> Seq<(Seq<char>, Seq<char>)>
    decreases files.len(),
{
    if files.len() == 0 {
        Seq::empty()
    } else {
        presets_of(files.drop_last()) + preset_of(files.last())
    }
}

/// Whether every stored file's bytes are few enough to be encoded.
pub open spec fn encodable(files: Seq<ProjectFileEntry>) -> bool {
    forall|i: int| 0 <= i < files.len() ==> ((#[trigger] files[i]).data matches Some(d) ==> d@.len() <= usize::MAX / 2)
}

/// Presets as text.
pub open spec fn presets_view(presets: Seq<(String, String)>) -> Seq<(Seq<char>, Seq<char>)> {
    presets.map_values(|p: (String, String)| (p.0@, p.1@))
}

/// The plugin presets of the stored files: each plugin state that could be read,
/// under its name, base64 encoded.
pub fn plugin_presets(files: &Vec<ProjectFileEntry>) -> (r: Vec<(String, String)>)
    requires
        encodable(files@),
    ensures
        presets_view(r@) == presets_of(files@),
{
    let folder = presets_folder_chars();
    let mut r: Vec<(String, String)> = Vec::new();
    let mut i: usize = 0;
    while i < files.len()
        invariant
            i <= files.len(),
            encodable(files@),
            folder@ == presets_folder(),
            presets_view(r@) == presets_of(files@.take(i as int)),
        decreases files.len() - i,
    {
        let f = &files[i];
        let ghost before = r@;
        proof {
            assert(files@.take(i + 1).drop_last() =~= files@.take(i as int));
            assert(files@.take(i + 1).last() == *f);
        }
        match &f.data {
            Some(d) => {
                let name = chars_of(f.name.as_str());
                if starts_with(&name, &folder) {
                    assert(files@[i as int] == *f);
                    let encoded = encode_base64(d);
                    r.push((f.name.clone(), encoded));
                    assert(presets_view(r@) =~= presets_view(before) + preset_of(*f));
                } else {
                    assert(presets_view(r@) =~= presets_view(before) + preset_of(*f));
                }
            },
            None => {
                assert(presets_view(r@) =~= presets_view(before) + preset_of(*f));
            },
        }
        i = i + 1;
    }
    assert(files@.take(i as int) =~= files@);
    r
}

/// The preset stored under a path: the last one of that name.
pub open spec fn preset_for(presets: Seq<(Seq<char>, Seq<char>)>, path: Seq<char>) -> Option<Seq<char>>
    decreases presets.len(),
{
    if presets.len() == 0 {
        None
    } else if presets.last().0 == path {
        Some(presets.last().1)
    } else {
        preset_for(presets.drop_last(), path)
    }
}

fn find_preset(presets: &Vec<(String, String)>, path: &String) -> (r: Option<String>)
    ensures
        match r {
            Some(d) => preset_for(presets_view(presets@), path@) == Some(d@),
            None => preset_for(presets_view(presets@), path@) == None::<Seq<char>>,
        },
{
    let mut k: usize = presets.len();
    assert(presets@.take(k as int) =~= presets@);
    while k > 0
        invariant
            k <= presets.len(),
            preset_for(presets_view(presets@), path@) == preset_for(presets_view(presets@.take(k as int)), path@),
        decreases k,
    {
        proof {
            assert(presets_view(presets@.take(k as int)).drop_last() =~= presets_view(presets@.take(k - 1)));
            assert(presets_view(presets@.take(k as int)).last() == (presets@[k - 1].0@, presets@[k - 1].1@));
        }
        if presets[k - 1].0 == *path {
            return Some(presets[k - 1].1.clone());
        }
        k = k - 1;
    }
    assert(presets_view(presets@.take(0)) =~= Seq::<(Seq<char>, Seq<char>)>::empty());
    None
}

/// An optional text as characters.
pub open spec fn text_of(o: Option<String>) -> Option<Seq<char>> {
    match o {
        Some(t) => Some(t@),
        None => None,
    }
}

/// The name the library gives a plugin format.
pub open spec fn format_name(f: PluginFormat) -> Seq<char> {
    match f {
        PluginFormat::Vst2 => seq!['V', 'S', 'T', '2', '4'],
        PluginFormat::Vst3 => seq!['V', 'S', 'T', '3'],
        PluginFormat::Clap => seq!['C', 'L', 'A', 'P'],
    }
}

fn format_chars(f: PluginFormat) -> (r: Vec<char>)
    ensures
        r@ == format_name(f),
{
    let r: Vec<char> = match f {
        PluginFormat::Vst2 => vec!['V', 'S', 'T', '2', '4'],
        PluginFormat::Vst3 => vec!['V', 'S', 'T', '3'],
        PluginFormat::Clap => vec!['C', 'L', 'A', 'P'],
    };
    assert(r@ =~= format_name(f));
    r
}

/// The format and category of an imported plugin.
pub open spec fn unknown_text() -> Seq<char> {
    seq!['U', 'n', 'k', 'n', 'o', 'w', 'n']
}

fn unknown_string() -> (r: String)
    ensures
        r@ == unknown_text(),
{
    let v: Vec<char> = vec!['U', 'n', 'k', 'n', 'o', 'w', 'n'];
    assert(v@ =~= unknown_text());
    string_from_chars(&v)
}

/// The name under which a plugin is looked up among the scanned ones: the project's
/// name up to its first `(`, trimmed, then the format in brackets.
pub open spec fn display_name(name: Seq<char>, f: PluginFormat) -> Seq<char> {
    trimmed(TrimKind::WhiteSpace, before_first(name, '(')) + seq![' ', '('] + format_name(f) + seq![')']
}

fn display_name_of(name: &String, f: PluginFormat) -> (r: String)
    ensures
        r@ == display_name(name@, f),
{
    let chars = chars_of(name.as_str());
    let piece = first_piece(&chars, '(');
    let mut out = trim(&piece, TrimKind::WhiteSpace);
    let mut open: Vec<char> = vec![' ', '('];
    let mut format = format_chars(f);
    let mut close: Vec<char> = vec![')'];
    out.append(&mut open);
    out.append(&mut format);
    out.append(&mut close);
    assert(out@ =~= display_name(name@, f));
    string_from_chars(&out)
}

/// The test for a scanned plugin of a name.
pub open spec fn scanned_named(name: Seq<char>) -> spec_fn(ScannedPluginView) -> bool {
    |p: ScannedPluginView| p.name == name
}

/// The library file of the first scanned plugin of a name: its details up to the first `:`.
pub open spec fn scanned_file(scanned: Seq<ScannedPluginView>, name: Seq<char>) -> Option<Seq<char>> {
    match first_match(scanned, scanned_named(name)) {
        Some(i) => Some(before_first(scanned[i].details, ':')),
        None => None,
    }
}

fn scanned_file_of(scanned: &Vec<ScannedPlugin>, name: &String) -> (r: Option<String>)
    ensures
        text_of(r) == scanned_file(scanned@.map_values(|p: ScannedPlugin| p@), name@),
{
    let ghost sv = scanned@.map_values(|p: ScannedPlugin| p@);
    let mut i: usize = 0;
    while i < scanned.len()
        invariant
            i <= scanned.len(),
            sv == scanned@.map_values(|p: ScannedPlugin| p@),
            forall|j: int| 0 <= j < i ==> !(scanned_named(name@))(#[trigger] sv[j]),
        decreases scanned.len() - i,
    {
        if scanned[i].name == *name {
            proof {
                assert(sv[i as int] == scanned@[i as int]@);
                lemma_first_match_at(sv, scanned_named(name@), i as int);
            }
            let details = chars_of(scanned[i].details.as_str());
            let piece = first_piece(&details, ':');
            return Some(string_from_chars(&piece));
        }
        assert(sv[i as int] == scanned@[i as int]@);
        i = i + 1;
    }
    proof {
        lemma_first_match_none(sv, scanned_named(name@));
    }
    None
}

/// The scanned plugins a device is looked up among: the instruments for a device in
/// the instrument role, the effects otherwise.
pub open spec fn scanned_for(p: ProjectPlugin, config: ConfigurationView) -> Seq<ScannedPluginView> {
    if p.instrument_role { config.scanned_instrument_plugins } else { config.scanned_effect_plugins }
}

/// A plugin filled in from a project device: its descriptive name; its name (the
/// display name) and library file (of the scanned plugin of that name) when the device
/// has a name; format and category unknown; vendor and version when given; marked as
/// an instrument and as a VST2 plugin; and the preset stored at the device's state path.
pub open spec fn populated_plugin(
    base: AudioPluginView,
    p: ProjectPlugin,
    config: ConfigurationView,
    presets: Seq<(Seq<char>, Seq<char>)>,
) -> AudioPluginView {
    let name = match p.name {
        Some(n) => display_name(n@, p.format),
        None => base.name,
    };
    let file = match p.name {
        Some(n) => match scanned_file(scanned_for(p, config), display_name(n@, p.format)) {
            Some(f) => f,
            None => base.file,
        },
        None => base.file,
    };
    AudioPluginView {
        id: base.id,
        name,
        descriptive_name: p.device_name@,
        file,
        format: unknown_text(),
        category: unknown_text(),
        manufacturer: match p.device_vendor {
            Some(v) => v@,
            None => base.manufacturer,
        },
        version: match p.plugin_version {
            Some(v) => v@,
            None => base.version,
        },
        is_instrument: true,
        plugin_type: format_name(PluginFormat::Vst2),
        preset_data: match p.state_path {
            Some(path) => match preset_for(presets, path@) {
                Some(d) => d,
                None => base.preset_data,
            },
            None => base.preset_data,
        },
    }
}

fn populate_plugin(
    base: AudioPlugin,
    p: &ProjectPlugin,
    config: &Configuration,
    presets: &Vec<(String, String)>,
) -> (r: AudioPlugin)
    ensures
        r@ == populated_plugin(base@, *p, config@, presets_view(presets@)),
{
    let mut r = base;
    r.descriptive_name = p.device_name.clone();
    match &p.name {
        Some(n) => {
            let shown = display_name_of(n, p.format);
            let found = if p.instrument_role {
                scanned_file_of(&config.scanned_instrument_plugins, &shown)
            } else {
                scanned_file_of(&config.scanned_effect_plugins, &shown)
            };
            match found {
                Some(f) => {
                    r.file = f;
                },
                None => {},
            }
            r.name = shown;
        },
        None => {},
    }
    r.format = unknown_string();
    r.category = unknown_string();
    match &p.device_vendor {
        Some(v) => {
            r.manufacturer = v.clone();
        },
        None => {},
    }
    match &p.plugin_version {
        Some(v) => {
            r.version = v.clone();
        },
        None => {},
    }
    r.is_instrument = true;
    let vst2 = format_chars(PluginFormat::Vst2);
    r.plugin_type = string_from_chars(&vst2);
    match &p.state_path {
        Some(path) => match find_preset(presets, path) {
            Some(d) => {
                r.preset_data = d;
            },
            None => {},
        },
        None => {},
    }
    r
}

/// A new instrument track: no name, not muted or soloed, centred, the default
/// instrument, no effects, the default riff and nothing placed.
pub open spec fn fresh_instrument_track(ids: ProjectTrackIds) -> TrackView {
    TrackView {
        id: ids.track,
        kind: TrackKind::Instrument,
        name: Seq::empty(),
        midi_channel: 0,
        mute: false,
        solo: false,
        pan: 0,
        instrument: default_instrument(ids.instrument),
        effects: Seq::empty(),
        riffs: seq![default_riff(ids.default_riff)],
        riff_refs: Seq::empty(),
        automation: empty_automation(),
    }
}

/// A track after taking over plugin devices in order: one in the instrument role fills
/// in the instrument, any other becomes a new effect (under the device's identifier).
pub open spec fn with_plugins(
    t: TrackView,
    plugins: Seq<ProjectPlugin>,
    effect_ids: Seq<ItemId>,
    config: ConfigurationView,
    presets: Seq<(Seq<char>, Seq<char>)>,
) -> TrackView
    decreases plugins.len(),
{
    if plugins.len() == 0 {
        t
    } else {
        let before = with_plugins(t, plugins.drop_last(), effect_ids, config, presets);
        let p = plugins.last();
        if p.instrument_role {
            TrackView { instrument: populated_plugin(before.instrument, p, config, presets), ..before }
        } else {
            TrackView {
                effects: before.effects.push(
                    populated_plugin(default_instrument(effect_ids[plugins.len() - 1]), p, config, presets),
                ),
                ..before
            }
        }
    }
}

/// A track with the name, mute, pan and solo that a structure track gives.
pub open spec fn track_settings(t: ProjectTrack, base: TrackView) -> TrackView {
    TrackView {
        name: match t.name {
            Some(n) => n@,
            None => base.name,
        },
        mute: match t.mute {
            Some(m) => m,
            None => base.mute,
        },
        pan: match t.pan {
            Some(v) => v,
            None => 0,
        },
        solo: match t.solo {
            Some(v) => v,
            None => base.solo,
        },
        ..base
    }
}

/// The instrument track a structure track becomes.
pub open spec fn structure_track(
    t: ProjectTrack,
    ids: ProjectTrackIds,
    config: ConfigurationView,
    presets: Seq<(Seq<char>, Seq<char>)>,
) -> TrackView {
    let set = track_settings(t, fresh_instrument_track(ids));
    with_plugins(set, t.plugins@, ids.effects@, config, presets)
}

fn new_plugin(id: ItemId) -> (r: AudioPlugin)
    ensures
        r@ == default_instrument(id),
{
    AudioPlugin {
        id,
        name: String::new(),
        descriptive_name: String::new(),
        file: String::new(),
        format: String::new(),
        category: String::new(),
        manufacturer: String::new(),
        version: String::new(),
        is_instrument: true,
        plugin_type: String::new(),
        preset_data: String::new(),
    }
}

fn default_riff_of(id: ItemId) -> (r: Riff)
    ensures
        r@ == default_riff(id),
{
    let name: Vec<char> = vec!['e', 'm', 'p', 't', 'y'];
    proof {
        reveal_strlit("empty");
        assert(name@ =~= "empty"@);
    }
    Riff { id, name: string_from_chars(&name), length: DEFAULT_RIFF_LENGTH, events: Vec::new() }
}

fn structure_track_of(
    t: &ProjectTrack,
    ids: &ProjectTrackIds,
    config: &Configuration,
    presets: &Vec<(String, String)>,
) -> (r: Track)
    requires
        ids.effects@.len() >= t.plugins@.len(),
    ensures
        r@ == structure_track(*t, *ids, config@, presets_view(presets@)),
{
    let mut riffs: Vec<Riff> = Vec::new();
    riffs.push(default_riff_of(ids.default_riff));
    let mut track = Track {
        id: ids.track,
        kind: TrackKind::Instrument,
        name: String::new(),
        midi_channel: 0,
        mute: false,
        solo: false,
        pan: 0,
        instrument: new_plugin(ids.instrument),
        effects: Vec::new(),
        riffs,
        riff_refs: Vec::new(),
        automation: Automation::new(),
    };
    match &t.name {
        Some(n) => {
            track.name = n.clone();
        },
        None => {},
    }
    match t.mute {
        Some(m) => {
            track.mute = m;
        },
        None => {},
    }
    match t.pan {
        Some(v) => {
            track.pan = v;
        },
        None => {},
    }
    match t.solo {
        Some(v) => {
            track.solo = v;
        },
        None => {},
    }
    let ghost set = track_settings(*t, fresh_instrument_track(*ids));
    proof {
        assert(track@.effects =~= Seq::<AudioPluginView>::empty());
        assert(track@.riffs =~= seq![default_riff(ids.default_riff)]);
        assert(track@.riff_refs =~= Seq::<RiffReference>::empty());
        assert(track@ == set);
        assert(t.plugins@.take(0) =~= Seq::<ProjectPlugin>::empty());
    }
    let n = t.plugins.len();
    let mut i: usize = 0;
    while i < n
        invariant
            i <= n,
            n == t.plugins@.len(),
            ids.effects@.len() >= n,
            track@ == with_plugins(set, t.plugins@.take(i as int), ids.effects@, config@, presets_view(presets@)),
        decreases n - i,
    {
        let p = &t.plugins[i];
        proof {
            assert(t.plugins@.take(i + 1).drop_last() =~= t.plugins@.take(i as int));
            assert(t.plugins@.take(i + 1).last() == *p);
        }
        if p.instrument_role {
            let mut current = new_plugin(0);
            std::mem::swap(&mut current, &mut track.instrument);
            track.instrument = populate_plugin(current, p, config, presets);
        } else {
            let effect = populate_plugin(new_plugin(ids.effects[i]), p, config, presets);
            let ghost before = track@;
            track.effects.push(effect);
            proof {
                assert(track@.effects =~= before.effects.push(effect@));
            }
        }
        i = i + 1;
    }
    assert(t.plugins@.take(n as int) =~= t.plugins@);
    track
}

/// Whether a structure track carries the identifier.
pub open spec fn has_id(t: ProjectTrack, id: Seq<char>) -> bool {
    match t.id {
        Some(x) => x@ == id,
        None => false,
    }
}

/// The index of the last structure track with the identifier (a later track of the
/// same identifier takes the identifier over).
pub open spec fn lane_track_index(tracks: Seq<ProjectTrack>, id: Seq<char>) -> Option<int>
    decreases tracks.len(),
{
    if tracks.len() == 0 {
        None
    } else if has_id(tracks.last(), id) {
        Some(tracks.len() - 1)
    } else {
        lane_track_index(tracks.drop_last(), id)
    }
}

/// The note a project note becomes: placed at the clip's start plus the note's time,
/// with no velocity when the file gives none that is a number.
pub open spec fn imported_note(n: ProjectNote, id: ItemId) -> TrackEvent {
    TrackEvent::Note(Note {
        id,
        position: clamp_i64(n.clip_time + n.time),
        note: n.key,
        velocity: match n.velocity {
            Some(v) => v,
            None => 0,
        },
        length: n.duration,
        note_id: -1i32,
    })
}

/// The riff a lane becomes: "1", of the lane riff length, holding the lane's notes.
pub open spec fn lane_riff(lane: ProjectLane, ids: ProjectLaneIds) -> RiffView {
    RiffView {
        id: ids.riff,
        name: seq!['1'],
        length: LANE_RIFF_LENGTH,
        events: Seq::new(lane.notes@.len(), |j: int| imported_note(lane.notes@[j], ids.notes@[j])),
    }
}

/// The placement of a lane's riff at the start of the song.
pub open spec fn lane_placement(ids: ProjectLaneIds) -> RiffReference {
    RiffReference { id: ids.riff_ref, linked_to: ids.riff, position: 0 }
}

/// The tracks after one lane: when it names a structure track, that track gets the
/// lane's riff and its placement; otherwise nothing changes.
pub open spec fn with_lane(
    tracks: Seq<TrackView>,
    structure: Seq<ProjectTrack>,
    lane: ProjectLane,
    ids: ProjectLaneIds,
) -> Seq<TrackView> {
    match lane.track {
        Some(id) => match lane_track_index(structure, id@) {
            Some(k) => tracks.update(
                k,
                TrackView {
                    riffs: tracks[k].riffs.push(lane_riff(lane, ids)),
                    riff_refs: tracks[k].riff_refs.push(lane_placement(ids)),
                    ..tracks[k]
                },
            ),
            None => tracks,
        },
        None => tracks,
    }
}

/// The tracks after the lanes, in order.
pub open spec fn with_lanes(
    tracks: Seq<TrackView>,
    structure: Seq<ProjectTrack>,
    lanes: Seq<ProjectLane>,
    ids: Seq<ProjectLaneIds>,
) -> Seq<TrackView>
    decreases lanes.len(),
{
    if lanes.len() == 0 {
        tracks
    } else {
        with_lane(with_lanes(tracks, structure, lanes.drop_last(), ids), structure, lanes.last(), ids[lanes.len() - 1])
    }
}

pub proof fn lemma_lane_track_index(tracks: Seq<ProjectTrack>, id: Seq<char>)
    ensures
        lane_track_index(tracks, id) matches Some(k) ==> 0 <= k < tracks.len(),
    decreases tracks.len(),
{
    if tracks.len() > 0 {
        lemma_lane_track_index(tracks.drop_last(), id);
    }
}

fn lane_track_index_of(structure: &Vec<ProjectTrack>, id: &String) -> (r: Option<usize>)
    ensures
        match r {
            Some(k) => lane_track_index(structure@, id@) == Some(k as int),
            None => lane_track_index(structure@, id@) == None::<int>,
        },
{
    let mut k: usize = structure.len();
    assert(structure@.take(k as int) =~= structure@);
    while k > 0
        invariant
            k <= structure.len(),
            lane_track_index(structure@, id@) == lane_track_index(structure@.take(k as int), id@),
        decreases k,
    {
        proof {
            assert(structure@.take(k as int).drop_last() =~= structure@.take(k - 1));
            assert(structure@.take(k as int).last() == structure@[k - 1]);
        }
        let matches = match &structure[k - 1].id {
            Some(x) => *x == *id,
            None => false,
        };
        if matches {
            return Some(k - 1);
        }
        k = k - 1;
    }
    None
}

fn lane_riff_of(lane: &ProjectLane, ids: &ProjectLaneIds) -> (r: Riff)
    requires
        ids.notes@.len() >= lane.notes@.len(),
    ensures
        r@ == lane_riff(*lane, *ids),
{
    let mut events: Vec<TrackEvent> = Vec::new();
    let mut j: usize = 0;
    while j < lane.notes.len()
        invariant
            j <= lane.notes.len(),
            ids.notes@.len() >= lane.notes@.len(),
            events@ == Seq::new(j as nat, |m: int| imported_note(lane.notes@[m], ids.notes@[m])),
        decreases lane.notes.len() - j,
    {
        let n = lane.notes[j];
        let note = Note {
            id: ids.notes[j],
            position: sat_add_i64(n.clip_time, n.time),
            note: n.key,
            velocity: match n.velocity {
                Some(v) => v,
                None => 0,
            },
            length: n.duration,
            note_id: -1,
        };
        events.push(TrackEvent::Note(note));
        assert(events@ =~= Seq::new((j + 1) as nat, |m: int| imported_note(lane.notes@[m], ids.notes@[m])));
        j = j + 1;
    }
    let name: Vec<char> = vec!['1'];
    assert(name@ =~= seq!['1']);
    Riff { id: ids.riff, name: string_from_chars(&name), length: LANE_RIFF_LENGTH, events }
}

fn apply_lane(tracks: &mut Vec<Track>, structure: &Vec<ProjectTrack>, lane: &ProjectLane, ids: &ProjectLaneIds)
    requires
        old(tracks)@.len() == structure@.len(),
        ids.notes@.len() >= lane.notes@.len(),
    ensures
        final(tracks)@.len() == structure@.len(),
        final(tracks)@.map_values(|t: Track| t@) == with_lane(
            old(tracks)@.map_values(|t: Track| t@),
            structure@,
            *lane,
            *ids,
        ),
{
    let ghost before = tracks@.map_values(|t: Track| t@);
    match &lane.track {
        Some(id) => match lane_track_index_of(structure, id) {
            Some(k) => {
                proof {
                    lemma_lane_track_index(structure@, id@);
                }
                let riff = lane_riff_of(lane, ids);
                let ghost tv = tracks@[k as int]@;
                let ghost old_tracks = tracks@;
                let placement = RiffReference { id: ids.riff_ref, linked_to: ids.riff, position: 0 };
                tracks[k].riff_refs.push(placement);
                tracks[k].riffs.push(riff);
                proof {
                    let after = tracks@.map_values(|t: Track| t@);
                    let expected = before.update(
                        k as int,
                        TrackView {
                            riffs: before[k as int].riffs.push(lane_riff(*lane, *ids)),
                            riff_refs: before[k as int].riff_refs.push(lane_placement(*ids)),
                            ..before[k as int]
                        },
                    );
                    assert(tracks@[k as int]@.riffs =~= tv.riffs.push(riff@));
                    assert(tracks@[k as int]@.riff_refs =~= tv.riff_refs.push(placement));
                    assert forall|j: int| 0 <= j < after.len() implies after[j] == expected[j] by {
                        if j != k {
                            assert(tracks@[j] == old_tracks[j]);
                        }
                    }
                    assert(after =~= expected);
                }
            },
            None => {},
        },
        None => {},
    }
}

/// Whether there are fresh identifiers for every track, plugin, lane and note.
pub open spec fn project_ids_enough(c: ProjectContents, ids: ProjectImportIds) -> bool {
    &&& ids.tracks@.len() == c.tracks@.len()
    &&& forall|k: int| 0 <= k < ids.tracks@.len() ==> (#[trigger] ids.tracks@[k]).effects@.len() >= c.tracks@[k].plugins@.len()
    &&& ids.lanes@.len() == c.lanes@.len()
    &&& forall|k: int| 0 <= k < ids.lanes@.len() ==> (#[trigger] ids.lanes@[k]).notes@.len() >= c.lanes@[k].notes@.len()
}

/// The song a project becomes: named after the application, with the project's time
/// signature as it stands (4/4 when it gives none) and tempo (the fallback tempo when it is not a
/// number, the new-song tempo when it gives none), and the structure's tracks after
/// the arrangement's lanes.
pub open spec fn imported_song(
    c: ProjectContents,
    presets: Seq<(Seq<char>, Seq<char>)>,
    config: ConfigurationView,
    ids: ProjectImportIds,
) -> SongView {
    let structure = c.tracks@;
    let tracks = Seq::new(structure.len(), |k: int| structure_track(structure[k], ids.tracks@[k], config, presets));
    SongView {
        name: c.application_name@,
        tempo: match c.tempo {
            Some(Some(t)) => t,
            Some(None) => FALLBACK_TEMPO,
            None => NEW_SONG_TEMPO,
        },
        time_signature_numerator: match c.time_signature {
            Some(sig) => sig.0,
            None => 4,
        },
        time_signature_denominator: match c.time_signature {
            Some(sig) => sig.1,
            None => 4,
        },
        tracks: with_lanes(tracks, structure, c.lanes@, ids.lanes@),
        loops: Seq::empty(),
        riff_sets: Seq::empty(),
        riff_sequences: Seq::empty(),
        riff_grids: Seq::empty(),
        riff_arrangements: Seq::empty(),
    }
}

/// The song a project becomes (see `imported_song`), its new items under the given
/// identifiers and its plugins' presets taken from `presets`.
pub fn song_from_project(
    c: &ProjectContents,
    presets: &Vec<(String, String)>,
    config: &Configuration,
    ids: &ProjectImportIds,
) -> (r: Song)
    requires
        project_ids_enough(*c, *ids),
    ensures
        r@ == imported_song(*c, presets_view(presets@), config@, *ids),
{
    let ghost structure = c.tracks@;
    let ghost pv = presets_view(presets@);
    let mut tracks: Vec<Track> = Vec::new();
    let mut k: usize = 0;
    while k < c.tracks.len()
        invariant
            k <= c.tracks.len(),
            structure == c.tracks@,
            pv == presets_view(presets@),
            project_ids_enough(*c, *ids),
            tracks@.map_values(|t: Track| t@) == Seq::new(k as nat, |m: int| structure_track(structure[m], ids.tracks@[m], config@, pv)),
        decreases c.tracks.len() - k,
    {
        assert(ids.tracks@[k as int].effects@.len() >= c.tracks@[k as int].plugins@.len());
        let t = structure_track_of(&c.tracks[k], &ids.tracks[k], config, presets);
        let ghost before = tracks@;
        tracks.push(t);
        assert(tracks@.map_values(|t: Track| t@) =~= before.map_values(|t: Track| t@).push(t@));
        assert(tracks@.map_values(|t: Track| t@) =~= Seq::new((k + 1) as nat, |m: int| structure_track(structure[m], ids.tracks@[m], config@, pv)));
        k = k + 1;
    }
    let ghost initial = tracks@.map_values(|t: Track| t@);
    assert(c.lanes@.take(0) =~= Seq::<ProjectLane>::empty());
    let mut l: usize = 0;
    while l < c.lanes.len()
        invariant
            l <= c.lanes.len(),
            structure == c.tracks@,
            tracks@.len() == structure.len(),
            project_ids_enough(*c, *ids),
            tracks@.map_values(|t: Track| t@) == with_lanes(initial, structure, c.lanes@.take(l as int), ids.lanes@),
        decreases c.lanes.len() - l,
    {
        assert(ids.lanes@[l as int].notes@.len() >= c.lanes@[l as int].notes@.len());
        apply_lane(&mut tracks, &c.tracks, &c.lanes[l], &ids.lanes[l]);
        proof {
            assert(c.lanes@.take(l + 1).drop_last() =~= c.lanes@.take(l as int));
            assert(c.lanes@.take(l + 1).last() == c.lanes@[l as int]);
        }
        l = l + 1;
    }
    assert(c.lanes@.take(l as int) =~= c.lanes@);
    let tempo = match c.tempo {
        Some(Some(t)) => t,
        Some(None) => FALLBACK_TEMPO,
        None => NEW_SONG_TEMPO,
    };
    let (numerator, denominator) = match c.time_signature {
        Some(sig) => (sig.0, sig.1),
        None => (4, 4),
    };
    let song = Song {
        name: c.application_name.clone(),
        tempo,
        time_signature_numerator: numerator,
        time_signature_denominator: denominator,
        tracks,
        loops: Vec::new(),
        riff_sets: Vec::new(),
        riff_sequences: Vec::new(),
        riff_grids: Vec::new(),
        riff_arrangements: Vec::new(),
    };
    proof {
        let expected = imported_song(*c, pv, config@, *ids);
        assert(song@.loops =~= expected.loops);
        assert(song@.riff_sets =~= expected.riff_sets);
        assert(song@.riff_sequences =~= expected.riff_sequences);
        assert(song@.riff_grids =~= expected.riff_grids);
        assert(song@.riff_arrangements =~= expected.riff_arrangements);
        assert(initial =~= Seq::new(structure.len(), |m: int| structure_track(structure[m], ids.tracks@[m], config@, pv)));
    }
    song
}

} // verus!
