//! Handlers of loop changes: looping on and off, the active loop, its limits, and
//! adding, deleting and renaming loops.
//!
//! Loop positions are in thousandths of a beat; the track processors take loop extents
//! in blocks of the audio configuration.
use vstd::prelude::*;
use crate::actions::daw_actions::send_to_each_track;
use crate::domain::{find_loop, loop_has_id, ItemId, Loop, LoopView, SongView};
use crate::event::{AudioLayerEvent, AudioLayerInwardEvent, Command, LoopChangeType, TrackBackgroundProcessorInwardEvent};
use crate::numeric::{clamp_i32, trunc_div};
use crate::seq_search::first_match;
use crate::state::{lemma_per_track_all, lemma_per_track_step, per_track, to_each_track, with_audio, RiffDAWState, RiffDAWStateView};

verus! {

broadcast use vstd::seq_lib::group_seq_properties;

/// The block a position falls in, rounded toward zero and saturating; with a block size
/// of zero the block is infinitely far in the direction of the position.
pub open spec fn position_block(position: u64, sample_rate: i32, block_size: i32) -> i32 {
    let num = position * sample_rate;
    if block_size == 0 {
        if num > 0 { i32::MAX } else if num < 0 { i32::MIN } else { 0 }
    } else {
        clamp_i32(trunc_div(num, 1000 * block_size))
    }
}

pub fn block_of(position: u64, sample_rate: i32, block_size: i32) -> (r: i32)
    ensures
        r == position_block(position, sample_rate, block_size),
{
    let p = position as i128;
    let sr = sample_rate as i128;
    assert(-40000000000000000000000000000 <= p * sr <= 40000000000000000000000000000) by (nonlinear_arith)
        requires
            0 <= p <= 18446744073709551615,
            -2147483648 <= sr <= 2147483647;
    let num: i128 = p * sr;
    if block_size == 0 {
        if num > 0 { i32::MAX } else if num < 0 { i32::MIN } else { 0 }
    } else {
        let den: i128 = 1000 * (block_size as i128);
        let an: i128 = if num < 0 { -num } else { num };
        let ad: i128 = if den < 0 { -den } else { den };
        let q0: i128 = an / ad;
        let q: i128 = if (num >= 0) == (den > 0) { q0 } else { -q0 };
        assert(q == trunc_div(num as int, den as int));
        if q > i32::MAX as i128 {
            i32::MAX
        } else if q < i32::MIN as i128 {
            i32::MIN
        } else {
            q as i32
        }
    }
}

/// The blocks a loop starts and ends in: those of the loop with the identifier, or 0
/// and 44 when there is none.
pub open spec fn loop_blocks(s: RiffDAWStateView, id: Option<ItemId>) -> (i32, i32) {
    match id {
        Some(id) => match first_match(s.song.loops, loop_has_id(id)) {
            Some(i) => (
                position_block(s.song.loops[i].start_position, s.configuration.sample_rate, s.configuration.block_size),
                position_block(s.song.loops[i].end_position, s.configuration.sample_rate, s.configuration.block_size),
            ),
            None => (0, 44),
        },
        None => (0, 44),
    }
}

fn loop_blocks_of(state: &RiffDAWState, id: Option<ItemId>) -> (r: (i32, i32))
    ensures
        r == loop_blocks(state@, id),
{
    match id {
        Some(id) => match find_loop(&state.song.loops, id) {
            Some(i) => (
                block_of(state.song.loops[i].start_position, state.configuration.sample_rate, state.configuration.block_size),
                block_of(state.song.loops[i].end_position, state.configuration.sample_rate, state.configuration.block_size),
            ),
            None => (0, 44),
        },
        None => (0, 44),
    }
}

/// The loop extents, then looping on, for a track.
pub open spec fn loop_on_for(start: i32, end: i32) -> spec_fn(crate::domain::TrackView) -> Seq<Command> {
    |t: crate::domain::TrackView| seq![
        Command::ToTrack(t.id, TrackBackgroundProcessorInwardEvent::LoopExtents(start, end)),
        Command::ToTrack(t.id, TrackBackgroundProcessorInwardEvent::Loop(true)),
    ]
}

fn send_loop_on_to_each_track(state: &mut RiffDAWState, start: i32, end: i32)
    ensures
        final(state)@ == (RiffDAWStateView {
            outbox: old(state)@.outbox + per_track(old(state)@.song.tracks, loop_on_for(start, end)),
            ..old(state)@
        }),
{
    let ghost s0 = state@;
    let n = state.song.tracks.len();
    let mut i: usize = 0;
    while i < n
        invariant
            i <= n,
            n == state.song.tracks@.len(),
            state@ == (RiffDAWStateView {
                outbox: s0.outbox + per_track(s0.song.tracks.take(i as int), loop_on_for(start, end)),
                ..s0
            }),
        decreases n - i,
    {
        let id = state.song.tracks[i].id;
        state.send_to_track_background_processor(id, TrackBackgroundProcessorInwardEvent::LoopExtents(start, end));
        state.send_to_track_background_processor(id, TrackBackgroundProcessorInwardEvent::Loop(true));
        proof {
            lemma_per_track_step(s0.song.tracks, loop_on_for(start, end), i as int);
            assert(s0.outbox + per_track(s0.song.tracks.take(i + 1), loop_on_for(start, end)) =~= (s0.outbox
                + per_track(s0.song.tracks.take(i as int), loop_on_for(start, end)))
                .push(Command::ToTrack(id, TrackBackgroundProcessorInwardEvent::LoopExtents(start, end)))
                .push(Command::ToTrack(id, TrackBackgroundProcessorInwardEvent::Loop(true))));
        }
        i = i + 1;
    }
    proof { lemma_per_track_all(s0.song.tracks, loop_on_for(start, end)); }
}

/// Turning looping on with the extents of the active loop: (when `tell_audio`) the audio
/// layer gets the extent, each track the extents and looping on, and looping is on.
pub open spec fn looping_on(s: RiffDAWStateView, tell_audio: bool) -> RiffDAWStateView {
    let (start, end) = loop_blocks(s, s.active_loop);
    let outbox = if tell_audio {
        with_audio(s.outbox, s.audio_layer_connected, AudioLayerEvent::AudioLayerInward(AudioLayerInwardEvent::ExtentsChange((end - start) as i32)))
    } else {
        s.outbox
    };
    RiffDAWStateView { outbox: outbox + per_track(s.song.tracks, loop_on_for(start, end)), looping: true, ..s }
}

/// The extent sent to the audio layer fits an `i32`.
pub open spec fn loop_extent_fits(s: RiffDAWStateView) -> bool {
    let (start, end) = loop_blocks(s, s.active_loop);
    i32::MIN <= end - start <= i32::MAX
}

fn loop_on(state: &mut RiffDAWState, tell_audio: bool)
    requires
        tell_audio ==> loop_extent_fits(old(state)@),
    ensures
        final(state)@ == looping_on(old(state)@, tell_audio),
{
    let (start, end) = loop_blocks_of(state, state.active_loop);
    if tell_audio {
        state.send_to_audio_layer(AudioLayerEvent::AudioLayerInward(AudioLayerInwardEvent::ExtentsChange(end - start)));
    }
    send_loop_on_to_each_track(state, start, end);
    state.looping = true;
}

/// Turns looping on over the active loop.
pub fn loop_change_type_LoopOn(state: &mut RiffDAWState)
    requires
        loop_extent_fits(old(state)@),
    ensures
        final(state)@ == looping_on(old(state)@, true),
{
    loop_on(state, true);
}

pub open spec fn looping_off(s: RiffDAWStateView) -> RiffDAWStateView {
    RiffDAWStateView {
        outbox: s.outbox + per_track(s.song.tracks, to_each_track(TrackBackgroundProcessorInwardEvent::Loop(false))),
        looping: false,
        ..s
    }
}

/// Turns looping off on every track.
pub fn loop_change_type_LoopOff(state: &mut RiffDAWState)
    ensures
        final(state)@ == looping_off(old(state)@),
{
    state.looping = false;
    send_to_each_track(state, TrackBackgroundProcessorInwardEvent::Loop(false));
}

/// Making a loop (or none) the active one: each track gets its extents.
pub open spec fn active_loop_changed(s: RiffDAWStateView, id: Option<ItemId>) -> RiffDAWStateView {
    let (start, end) = loop_blocks(s, id);
    RiffDAWStateView {
        outbox: s.outbox + per_track(s.song.tracks, to_each_track(TrackBackgroundProcessorInwardEvent::LoopExtents(start, end))),
        active_loop: id,
        ..s
    }
}

pub fn loop_change_type_ActiveLoopChanged(state: &mut RiffDAWState, uuid: Option<ItemId>)
    ensures
        final(state)@ == active_loop_changed(old(state)@, uuid),
{
    let (start, end) = loop_blocks_of(state, uuid);
    send_to_each_track(state, TrackBackgroundProcessorInwardEvent::LoopExtents(start, end));
    state.active_loop = uuid;
}

pub open spec fn with_loop(s: RiffDAWStateView, i: int, l: LoopView) -> RiffDAWStateView {
    RiffDAWStateView { song: SongView { loops: s.song.loops.update(i, l), ..s.song }, ..s }
}

/// Moving a limit of the active loop: each track gets the new extents and the loop
/// takes the new limit; without an active loop that exists nothing changes.
pub open spec fn loop_limit_changed(s: RiffDAWStateView, position: u64, left: bool) -> RiffDAWStateView {
    match s.active_loop {
        None => s,
        Some(id) => match first_match(s.song.loops, loop_has_id(id)) {
            None => s,
            Some(i) => {
                let lp = s.song.loops[i];
                let sr = s.configuration.sample_rate;
                let bs = s.configuration.block_size;
                let start = position_block(if left { position } else { lp.start_position }, sr, bs);
                let end = position_block(if left { lp.end_position } else { position }, sr, bs);
                let s1 = RiffDAWStateView {
                    outbox: s.outbox + per_track(s.song.tracks, to_each_track(TrackBackgroundProcessorInwardEvent::LoopExtents(start, end))),
                    ..s
                };
                with_loop(s1, i, if left { LoopView { start_position: position, ..lp } } else { LoopView { end_position: position, ..lp } })
            },
        },
    }
}

fn change_loop_limit(state: &mut RiffDAWState, position: u64, left: bool)
    ensures
        final(state)@ == loop_limit_changed(old(state)@, position, left),
{
    match state.active_loop {
        None => {},
        Some(id) => match find_loop(&state.song.loops, id) {
            None => {},
            Some(i) => {
                let sr = state.configuration.sample_rate;
                let bs = state.configuration.block_size;
                let start = block_of(if left { position } else { state.song.loops[i].start_position }, sr, bs);
                let end = block_of(if left { state.song.loops[i].end_position } else { position }, sr, bs);
                send_to_each_track(state, TrackBackgroundProcessorInwardEvent::LoopExtents(start, end));
                let ghost before = state.song.loops@;
                if left {
                    state.song.loops[i].start_position = position;
                } else {
                    state.song.loops[i].end_position = position;
                }
                proof {
                    assert(state.song.loops@.map_values(|l: Loop| l@) =~= before.map_values(|l: Loop| l@).update(
                        i as int,
                        state.song.loops@[i as int]@,
                    ));
                }
            },
        },
    }
}

/// Moves the start of the active loop.
pub fn loop_change_type_LoopLimitLeftChanged(state: &mut RiffDAWState, start_position: u64)
    ensures
        final(state)@ == loop_limit_changed(old(state)@, start_position, true),
{
    change_loop_limit(state, start_position, true);
}

/// Moves the end of the active loop.
pub fn loop_change_type_LoopLimitRightChanged(state: &mut RiffDAWState, end_position: u64)
    ensures
        final(state)@ == loop_limit_changed(old(state)@, end_position, false),
{
    change_loop_limit(state, end_position, false);
}

/// A new loop: named, spanning nothing at the start of the song.
pub open spec fn new_loop(id: ItemId, name: Seq<char>) -> LoopView {
    LoopView { id, name, start_position: 0, end_position: 0 }
}

/// Adds a loop with the identifier and name.
pub fn loop_change_type_Added(state: &mut RiffDAWState, loop_name: String, uuid: ItemId)
    ensures
        final(state)@ == (RiffDAWStateView {
            song: SongView { loops: old(state)@.song.loops.push(new_loop(uuid, loop_name@)), ..old(state)@.song },
            ..old(state)@
        }),
{
    state.song.loops.push(Loop { id: uuid, name: loop_name, start_position: 0, end_position: 0 });
    assert(state@.song.loops =~= old(state)@.song.loops.push(new_loop(uuid, loop_name@)));
}

pub open spec fn other_loop(id: ItemId) -> spec_fn(LoopView) -> bool {
    |l: LoopView| l.id != id
}

/// Deletes the loops with the identifier.
pub fn loop_change_type_Deleted(state: &mut RiffDAWState, uuid: ItemId)
    ensures
        final(state)@ == (RiffDAWStateView {
            song: SongView { loops: old(state)@.song.loops.filter(other_loop(uuid)), ..old(state)@.song },
            ..old(state)@
        }),
{
    let ghost s = state.song.loops@.map_values(|l: Loop| l@);
    let mut kept: Vec<Loop> = Vec::new();
    let n = state.song.loops.len();
    let mut i: usize = 0;
    while i < n
        invariant
            i <= n,
            n == s.len(),
            state@ == old(state)@,
            state.song.loops@.map_values(|l: Loop| l@) == s,
            kept@.map_values(|l: Loop| l@) == s.take(i as int).filter(other_loop(uuid)),
        decreases n - i,
    {
        let l = &state.song.loops[i];
        proof {
            assert(s[i as int] == l@);
            assert(s.take(i + 1) =~= s.take(i as int).push(l@));
            s.take(i as int).lemma_filter_push(l@, other_loop(uuid));
        }
        if l.id != uuid {
            let copy = Loop { id: l.id, name: l.name.clone(), start_position: l.start_position, end_position: l.end_position };
            kept.push(copy);
            assert(kept@.map_values(|l: Loop| l@) =~= s.take(i + 1).filter(other_loop(uuid)));
        }
        i = i + 1;
    }
    assert(s.take(n as int) =~= s);
    state.song.loops = kept;
    assert(state@.song.loops =~= old(state)@.song.loops.filter(other_loop(uuid)));
}

/// Renames the first loop with the identifier.
pub open spec fn loop_renamed(s: RiffDAWStateView, id: ItemId, name: Seq<char>) -> RiffDAWStateView {
    match first_match(s.song.loops, loop_has_id(id)) {
        Some(i) => with_loop(s, i, LoopView { name, ..s.song.loops[i] }),
        None => s,
    }
}

pub fn loop_change_type_NameChanged(state: &mut RiffDAWState, name: String, uuid: ItemId)
    ensures
        final(state)@ == loop_renamed(old(state)@, uuid, name@),
{
    match find_loop(&state.song.loops, uuid) {
        Some(i) => {
            let ghost before = state.song.loops@;
            state.song.loops[i].name = name;
            proof {
                assert(state.song.loops@.map_values(|l: Loop| l@) =~= before.map_values(|l: Loop| l@).update(
                    i as int,
                    state.song.loops@[i as int]@,
                ));
            }
        },
        None => {},
    }
}

/// What a loop change does, as the main event loop applies it (looping on does not tell
/// the audio layer there).
pub open spec fn loop_changed(s: RiffDAWStateView, change: LoopChangeType, uuid: ItemId) -> RiffDAWStateView {
    match change {
        LoopChangeType::LoopOn => looping_on(s, false),
        LoopChangeType::LoopOff => looping_off(s),
        LoopChangeType::ActiveLoopChanged(id) => active_loop_changed(s, id),
        LoopChangeType::LoopLimitLeftChanged(p) => loop_limit_changed(s, p, true),
        LoopChangeType::LoopLimitRightChanged(p) => loop_limit_changed(s, p, false),
        LoopChangeType::Added(name) => RiffDAWStateView {
            song: SongView { loops: s.song.loops.push(new_loop(uuid, name@)), ..s.song },
            ..s
        },
        LoopChangeType::Deleted => RiffDAWStateView {
            song: SongView { loops: s.song.loops.filter(other_loop(uuid)), ..s.song },
            ..s
        },
        LoopChangeType::NameChanged(name) => loop_renamed(s, uuid, name@),
    }
}

pub fn daw_events_LoopChange(state: &mut RiffDAWState, change_type: LoopChangeType, uuid: ItemId)
    ensures
        final(state)@ == loop_changed(old(state)@, change_type, uuid),
{
    match change_type {
        LoopChangeType::LoopOn => loop_on(state, false),
        LoopChangeType::LoopOff => loop_change_type_LoopOff(state),
        LoopChangeType::ActiveLoopChanged(id) => loop_change_type_ActiveLoopChanged(state, id),
        LoopChangeType::LoopLimitLeftChanged(p) => change_loop_limit(state, p, true),
        LoopChangeType::LoopLimitRightChanged(p) => change_loop_limit(state, p, false),
        LoopChangeType::Added(name) => loop_change_type_Added(state, name, uuid),
        LoopChangeType::Deleted => loop_change_type_Deleted(state, uuid),
        LoopChangeType::NameChanged(name) => loop_change_type_NameChanged(state, name, uuid),
    }
}

} // verus!
