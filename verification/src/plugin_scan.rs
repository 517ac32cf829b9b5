//! The decisions of the plugin checker: which plugin files one command-line argument
//! names, and what kind of plugin a descriptor's feature list declares.
//!
//! The argument is a comma separated list of paths, possibly quoted: every double
//! quote is dropped and the rest split at each comma. A plugin's kind comes from its
//! features in order, a later recognised feature overriding an earlier one: an
//! instrument is kind 2, an audio effect kind 1, a note effect kind 11, and a plugin
//! with none of these kind 0.
use vstd::prelude::*;

verus! {

/// The kind of a plugin that declares no recognised feature.
pub const PLUGIN_KIND_UNKNOWN: u32 = 0;
/// The kind of an audio effect.
pub const PLUGIN_KIND_AUDIO_EFFECT: u32 = 1;
/// The kind of an instrument.
pub const PLUGIN_KIND_INSTRUMENT: u32 = 2;
/// The kind of a note effect.
pub const PLUGIN_KIND_NOTE_EFFECT: u32 = 11;

/// The characters with every double quote removed.
pub open spec fn without_quotes(s: Seq<char>) -> Seq<char>
    decreases s.len(),
{
    if s.len() == 0 {
        s
    } else if s.last() == '"' {
        without_quotes(s.drop_last())
    } else {
        without_quotes(s.drop_last()).push(s.last())
    }
}

/// The pieces of the characters between commas, in order; a text without a comma is
/// one piece, and an empty text one empty piece.
pub open spec fn split_at_commas(s: Seq<char>) -> Seq<Seq<char>>
    decreases s.len(),
{
    if s.len() == 0 {
        seq![Seq::<char>::empty()]
    } else {
        let pieces = split_at_commas(s.drop_last());
        if s.last() == ',' {
            pieces.push(Seq::<char>::empty())
        } else {
            pieces.update(pieces.len() - 1, pieces.last().push(s.last()))
        }
    }
}

/// The plugin paths that one argument names.
pub open spec fn plugin_paths(argument: Seq<char>) -> Seq<Seq<char>> {
    split_at_commas(without_quotes(argument))
}

/// The feature that marks an instrument.
pub open spec fn instrument_feature() -> Seq<u8> {
    seq![105u8, 110, 115, 116, 114, 117, 109, 101, 110, 116]
}

/// The feature that marks an audio effect.
pub open spec fn audio_effect_feature() -> Seq<u8> {
    seq![97u8, 117, 100, 105, 111, 45, 101, 102, 102, 101, 99, 116]
}

/// The older spelling of the audio effect feature, with an underscore.
pub open spec fn audio_effect_feature_underscored() -> Seq<u8> {
    seq![97u8, 117, 100, 105, 111, 95, 101, 102, 102, 101, 99, 116]
}

/// The feature that marks a note effect.
pub open spec fn note_effect_feature() -> Seq<u8> {
    seq![110u8, 111, 116, 101, 45, 101, 102, 102, 101, 99, 116]
}

/// The kind after reading one more feature.
pub open spec fn kind_after(kind: u32, feature: Seq<u8>) -> u32 {
    if feature == note_effect_feature() {
        PLUGIN_KIND_NOTE_EFFECT
    } else if feature == audio_effect_feature() || feature == audio_effect_feature_underscored() {
        PLUGIN_KIND_AUDIO_EFFECT
    } else if feature == instrument_feature() {
        PLUGIN_KIND_INSTRUMENT
    } else {
        kind
    }
}

/// The kind that a feature list declares, read from the first feature to the last.
pub open spec fn plugin_kind(features: Seq<Seq<u8>>) -> u32
    decreases features.len(),
{
    if features.len() == 0 {
        PLUGIN_KIND_UNKNOWN
    } else {
        kind_after(plugin_kind(features.drop_last()), features.last())
    }
}

fn bytes_equal(a: &Vec<u8>, b: &Vec<u8>) -> (r: bool)
    ensures
        r == (a@ == b@),
{
    if a.len() != b.len() {
        return false;
    }
    let mut i: usize = 0;
    while i < a.len()
        invariant
            a.len() == b.len(),
            i <= a.len(),
            forall|j: int| 0 <= j < i ==> a@[j] == b@[j],
        decreases a.len() - i,
    {
        if a[i] != b[i] {
            return false;
        }
        i = i + 1;
    }
    assert(a@ =~= b@);
    true
}

/// The kind of plugin that the features declare.
pub fn plugin_kind_from_features(features: &Vec<Vec<u8>>) -> (r: u32)
    ensures
        r == plugin_kind(features@.map_values(|f: Vec<u8>| f@)),
{
    let ghost fs = features@.map_values(|f: Vec<u8>| f@);
    let instrument: Vec<u8> = vec![105u8, 110, 115, 116, 114, 117, 109, 101, 110, 116];
    let audio_effect: Vec<u8> = vec![97u8, 117, 100, 105, 111, 45, 101, 102, 102, 101, 99, 116];
    let audio_effect_underscored: Vec<u8> = vec![97u8, 117, 100, 105, 111, 95, 101, 102, 102, 101, 99, 116];
    let note_effect: Vec<u8> = vec![110u8, 111, 116, 101, 45, 101, 102, 102, 101, 99, 116];
    assert(instrument@ =~= instrument_feature());
    assert(audio_effect@ =~= audio_effect_feature());
    assert(audio_effect_underscored@ =~= audio_effect_feature_underscored());
    assert(note_effect@ =~= note_effect_feature());
    let mut kind: u32 = PLUGIN_KIND_UNKNOWN;
    let mut i: usize = 0;
    while i < features.len()
        invariant
            i <= features.len(),
            fs == features@.map_values(|f: Vec<u8>| f@),
            instrument@ == instrument_feature(),
            audio_effect@ == audio_effect_feature(),
            audio_effect_underscored@ == audio_effect_feature_underscored(),
            note_effect@ == note_effect_feature(),
            kind == plugin_kind(fs.take(i as int)),
        decreases features.len() - i,
    {
        let feature = &features[i];
        if bytes_equal(feature, &instrument) {
            kind = PLUGIN_KIND_INSTRUMENT;
        }
        if bytes_equal(feature, &audio_effect) || bytes_equal(feature, &audio_effect_underscored) {
            kind = PLUGIN_KIND_AUDIO_EFFECT;
        }
        if bytes_equal(feature, &note_effect) {
            kind = PLUGIN_KIND_NOTE_EFFECT;
        }
        proof {
            assert(fs.take(i + 1).drop_last() =~= fs.take(i as int));
            assert(fs.take(i + 1).last() == feature@);
        }
        i = i + 1;
    }
    assert(fs.take(i as int) =~= fs);
    kind
}

/// The plugin paths that one command-line argument names: double quotes dropped, then
/// split at each comma.
pub fn plugin_paths_from_argument(argument: &Vec<char>) -> (r: Vec<Vec<char>>)
    ensures
        r@.map_values(|p: Vec<char>| p@) == plugin_paths(argument@),
{
    let ghost s = argument@;
    let mut unquoted: Vec<char> = Vec::new();
    let mut pieces: Vec<Vec<char>> = Vec::new();
    let mut current: Vec<char> = Vec::new();
    let mut i: usize = 0;
    proof {
        assert(s.take(0) =~= Seq::<char>::empty());
    }
    while i < argument.len()
        invariant
            i <= argument.len(),
            s == argument@,
            unquoted@ == without_quotes(s.take(i as int)),
            split_at_commas(unquoted@) == pieces@.map_values(|p: Vec<char>| p@).push(current@),
        decreases argument.len() - i,
    {
        let c = argument[i];
        proof {
            assert(s.take(i + 1).drop_last() =~= s.take(i as int));
            assert(s.take(i + 1).last() == c);
        }
        if c != '"' {
            let ghost before = unquoted@;
            unquoted.push(c);
            proof {
                assert(unquoted@.drop_last() =~= before);
            }
            if c == ',' {
                let ghost old_pieces = pieces@.map_values(|p: Vec<char>| p@);
                let done = current;
                pieces.push(done);
                current = Vec::new();
                proof {
                    assert(pieces@.map_values(|p: Vec<char>| p@) =~= old_pieces.push(done@));
                    assert(split_at_commas(unquoted@) =~= old_pieces.push(done@).push(Seq::<char>::empty()));
                }
            } else {
                let ghost old_current = current@;
                current.push(c);
                proof {
                    let ps = pieces@.map_values(|p: Vec<char>| p@);
                    assert(split_at_commas(before) == ps.push(old_current));
                    assert(split_at_commas(unquoted@) =~= ps.push(current@));
                }
            }
        }
        i = i + 1;
    }
    proof {
        assert(s.take(i as int) =~= s);
    }
    let ghost old_pieces = pieces@.map_values(|p: Vec<char>| p@);
    pieces.push(current);
    proof {
        assert(pieces@.map_values(|p: Vec<char>| p@) =~= old_pieces.push(current@));
    }
    pieces
}

} // verus!
