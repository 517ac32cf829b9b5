//! Properties that hold across the handlers and edits of the library.
use vstd::prelude::*;
use crate::actions::loop_change_actions::{new_loop, other_loop};
use crate::actions::riff_arrangement_actions::{item_moved, item_selection, other_arrangement, other_item, new_arrangement};
use crate::automation_edits::{clipped, edited, list_edited, Clip, ListEdit};
use crate::actions::automation_actions::{velocities_translated, velocity_request, effect_clipped, effect_pasted, effect_request, or_zero, instrument_clipped, note_expression_clipped, note_expression_request, pitch_bend_clipped, pitch_bend_request};
use crate::automation_target::{lemma_state_lists_fit, lemma_discrete_resolution, lemma_with_events_at, lists_fit, event_matches, events_at, lemma_resolve_changes_only_song, lemma_with_events_changes_only_song, resolve_target, with_events_at, EventMatch, TargetRequest};
use crate::domain::{ItemId, LoopView, Note, RiffArrangementView, RiffItem, TrackEvent};
use crate::event::TranslateDirection;
use crate::event_edits::{
    deleted_near, near, not_deleted_at, placed, relative_to, translated,
};
use crate::sorting::{lemma_sort_by_position, sort_by_position, sorted_by_position};
use crate::state::{RiffDAWState, RiffDAWStateView};
use crate::actions::midi_actions::{
    folded_position, forgotten, midi_recorded, other_note,
    recorded_in_riff, recording_step, remembered,
};
use crate::state::RecordedNote;
use crate::event::MidiMessage;
use crate::numeric::{clamp_i32, clamp_i64, trunc_div};
use crate::plugin_scan::{plugin_paths, split_at_commas, without_quotes};
use crate::dawproject_import::{
    fresh_instrument_track, imported_song, lane_placement, lane_track_index, lemma_lane_track_index, lane_riff, project_ids_enough,
    structure_track, track_settings, with_lane, with_lanes, with_plugins, ProjectContents,
    ProjectImportIds, ProjectLane, ProjectLaneIds, ProjectPlugin, ProjectTrack,
};
use crate::domain::{TrackKind, TrackView};
use crate::state::ConfigurationView;

verus! {

broadcast use vstd::seq_lib::group_seq_properties;

/// Nudging an event up and then down gives it back, when its value lies where neither
/// nudge is stopped by the end of its range (the velocity of a note, the value of any
/// other event).
pub proof fn law_nudge_up_then_down(e: TrackEvent, snap: i64)
    requires
        match e {
            TrackEvent::Note(n) => 0 <= n.velocity < 127,
            TrackEvent::NoteExpression(x) => 0 <= x.value <= 990,
            TrackEvent::Controller(c) => 0 <= c.value < 127,
            TrackEvent::PitchBend(p) => -8192 <= p.value < 8192,
            TrackEvent::AudioPluginParameter(p) => 0 <= p.value <= 990,
        },
    ensures
        translated(translated(e, TranslateDirection::Up, snap), TranslateDirection::Down, snap) == e,
{
}

/// Moving an event right by a snap and then left by it gives it back, when the snap is
/// positive and the move stays within range (notes do not move).
pub proof fn law_right_then_left(e: TrackEvent, snap: i64)
    requires
        snap > 0,
        e.pos() >= 0,
        e.pos() + snap <= i64::MAX,
    ensures
        translated(translated(e, TranslateDirection::Right, snap), TranslateDirection::Left, snap) == e,
{
}

/// Nudging keeps a note's velocity within 0 to 127.
pub proof fn law_velocity_stays_in_range(e: TrackEvent, dir: TranslateDirection, snap: i64)
    requires
        e matches TrackEvent::Note(n) && 0 <= n.velocity <= 127,
    ensures
        translated(e, dir, snap) matches TrackEvent::Note(n) && 0 <= n.velocity <= 127,
{
}

/// Pasting an event copied at a cursor back at that cursor puts it where it was, under
/// the new identifier, when the positions stay within range.
pub proof fn law_paste_puts_copy_back(e: TrackEvent, cursor: i64, id: ItemId)
    requires
        i64::MIN <= e.pos() - cursor <= i64::MAX,
    ensures
        placed(relative_to(e, cursor), id, cursor) == e.with_ident(id),
{
    match e {
        TrackEvent::Note(_) => {},
        TrackEvent::NoteExpression(_) => {},
        TrackEvent::Controller(_) => {},
        TrackEvent::PitchBend(_) => {},
        TrackEvent::AudioPluginParameter(_) => {},
    }
}

/// Deleting at a point removes exactly the events that meet the condition and lie near
/// the point, and keeps the others in order.
pub proof fn law_delete_removes_exactly(evs: Seq<TrackEvent>, m: EventMatch, time: i64)
    ensures
        forall|i: int| 0 <= i < deleted_near(evs, m, time).len() ==> !(event_matches(m, #[trigger] deleted_near(evs, m, time)[i]) && near(deleted_near(evs, m, time)[i].pos(), time)),
        forall|i: int| 0 <= i < evs.len() && !(event_matches(m, evs[i]) && near(evs[i].pos(), time)) ==> #[trigger] deleted_near(evs, m, time).contains(evs[i]),
        deleted_near(evs, m, time).len() <= evs.len(),
{
    broadcast use vstd::seq_lib::group_filter_ensures;
    assert forall|i: int| 0 <= i < deleted_near(evs, m, time).len() implies !(event_matches(m, #[trigger] deleted_near(evs, m, time)[i]) && near(deleted_near(evs, m, time)[i].pos(), time)) by {
        assert(not_deleted_at(m, time)(deleted_near(evs, m, time)[i]));
    }
    assert forall|i: int| 0 <= i < evs.len() && !(event_matches(m, evs[i]) && near(evs[i].pos(), time)) implies #[trigger] deleted_near(evs, m, time).contains(evs[i]) by {
        assert(not_deleted_at(m, time)(evs[i]));
    }
}

/// Every edit that ends by ordering leaves its list ordered by position, holding the
/// same number of events as the unordered result.
pub proof fn law_edits_leave_lists_ordered(evs: Seq<TrackEvent>, op: ListEdit)
    requires
        match op {
            ListEdit::Delete { sort, .. } => sort,
            ListEdit::Translate { sort, .. } => sort,
            _ => true,
        },
    ensures
        sorted_by_position(list_edited(evs, op)),
{
    match op {
        ListEdit::Add(e) => lemma_sort_by_position(evs.push(e)),
        ListEdit::Delete { m, time, sort } => lemma_sort_by_position(deleted_near(evs, m, time)),
        ListEdit::Paste { buffer, m, cursor, ids } => lemma_sort_by_position(evs + crate::event_edits::pasted(buffer@, ids@, m, cursor)),
        ListEdit::Translate { m, selected, dir, snap, sort } => lemma_sort_by_position(crate::event_edits::translated_selected(evs, m, selected@, dir, snap)),
        ListEdit::Change { changes, kind } => lemma_sort_by_position(crate::event_edits::with_changes(evs, changes@, kind)),
    }
}

/// Deleting a loop just added under an identifier no other loop has gives back the loops.
pub proof fn law_loop_add_then_delete(loops: Seq<LoopView>, id: ItemId, name: Seq<char>)
    requires
        forall|i: int| 0 <= i < loops.len() ==> #[trigger] loops[i].id != id,
    ensures
        loops.push(new_loop(id, name)).filter(other_loop(id)) == loops,
{
    loops.lemma_filter_push(new_loop(id, name), other_loop(id));
    lemma_filter_keeps_all(loops, other_loop(id));
}

/// A filter that every element passes keeps the sequence.
proof fn lemma_filter_keeps_all<A>(s: Seq<A>, p: spec_fn(A) -> bool)
    requires
        forall|i: int| 0 <= i < s.len() ==> p(#[trigger] s[i]),
    ensures
        s.filter(p) == s,
    decreases s.len(),
{
    reveal(Seq::filter);
    if s.len() > 0 {
        let t = s.drop_last();
        assert forall|i: int| 0 <= i < t.len() implies p(#[trigger] t[i]) by {
            assert(t[i] == s[i]);
        }
        lemma_filter_keeps_all(t, p);
        assert(p(s.last()));
        assert(t.push(s.last()) =~= s);
    }
}

/// Deleting an arrangement just added under an identifier no other arrangement has
/// gives back the arrangements.
pub proof fn law_arrangement_add_then_delete(s: RiffDAWStateView, id: ItemId)
    requires
        forall|i: int| 0 <= i < s.song.riff_arrangements.len() ==> #[trigger] s.song.riff_arrangements[i].id != id,
    ensures
        s.song.riff_arrangements.push(new_arrangement(s, id)).filter(other_arrangement(id)) == s.song.riff_arrangements,
{
    s.song.riff_arrangements.lemma_filter_push(new_arrangement(s, id), other_arrangement(id));
    lemma_filter_keeps_all(s.song.riff_arrangements, other_arrangement(id));
}

/// Deleting a riff item just added (at the end) under an identifier no other item has
/// gives back the items.
pub proof fn law_item_add_then_delete(items: Seq<RiffItem>, item: RiffItem)
    requires
        forall|i: int| 0 <= i < items.len() ==> #[trigger] items[i].id != item.id,
    ensures
        items.push(item).filter(other_item(item.id)) == items,
{
    items.lemma_filter_push(item, other_item(item.id));
    lemma_filter_keeps_all(items, other_item(item.id));
}

/// Selecting a riff item and then deselecting it leaves nothing selected.
pub proof fn law_select_then_deselect(current: Option<(ItemId, ItemId)>, arrangement: ItemId, item: ItemId)
    ensures
        item_selection(item_selection(current, arrangement, item, true), arrangement, item, false) is None,
{
}

/// Deselecting an item that is not the selected one keeps the selection.
pub proof fn law_deselect_other_keeps(current: Option<(ItemId, ItemId)>, arrangement: ItemId, item: ItemId)
    requires
        current != Some((arrangement, item)),
    ensures
        item_selection(current, arrangement, item, false) == current,
{
}

/// Moving a riff item keeps the same items, only their order changes.
pub proof fn law_move_keeps_items(items: Seq<RiffItem>, item: ItemId, position: usize)
    ensures
        item_moved(items, item, position).to_multiset() == items.to_multiset(),
        item_moved(items, item, position).len() == items.len(),
{
    broadcast use vstd::seq_lib::group_to_multiset_ensures;
    match crate::seq_search::first_match(items, crate::domain::item_has_id(item)) {
        Some(i) => {
            crate::seq_search::lemma_first_match(items, crate::domain::item_has_id(item));
            let rest = items.remove(i);
            let p = if position <= rest.len() { position as int } else { rest.len() as int };
            assert(items.remove(i).to_multiset() == items.to_multiset().remove(items[i]));
            assert(rest.insert(p, items[i]).to_multiset() == rest.to_multiset().insert(items[i]));
            assert(items.to_multiset().remove(items[i]).insert(items[i]) =~= items.to_multiset());
        },
        None => {},
    }
}

/// A cut leaves in the copy buffer exactly what a copy would (for every kind but
/// controllers, whose cut takes only the first selected event).
pub proof fn law_cut_copies_like_copy(s: RiffDAWStateView, cursor: i64, id: ItemId)
    ensures
        instrument_clipped(s, cursor, id, true).automation_event_copy_buffer == instrument_clipped(s, cursor, id, false).automation_event_copy_buffer,
        note_expression_clipped(s, cursor, id, true).automation_event_copy_buffer == note_expression_clipped(s, cursor, id, false).automation_event_copy_buffer,
        effect_clipped(s, cursor, id, true).automation_event_copy_buffer == effect_clipped(s, cursor, id, false).automation_event_copy_buffer,
        pitch_bend_clipped(s, cursor, id, true).automation_event_copy_buffer == pitch_bend_clipped(s, cursor, id, false).automation_event_copy_buffer,
{
}

/// A copy or cut changes nothing but the copy buffer and the song.
pub proof fn law_clip_changes_only_buffer_and_song(s: RiffDAWStateView, req: TargetRequest, id: ItemId, apply: bool, clip: Clip, remove: Option<EventMatch>, cursor: i64)
    ensures
        (RiffDAWStateView {
            automation_event_copy_buffer: s.automation_event_copy_buffer,
            song: s.song,
            ..clipped(s, req, id, apply, clip, remove, cursor)
        }) == s,
{
    let (s1, loc) = resolve_target(s, req, id);
    lemma_resolve_changes_only_song(s, req, id);
    match loc {
        Some(l) => {
            if apply {
                let evs = events_at(s1, l);
                match remove {
                    Some(m) => lemma_with_events_changes_only_song(s1, l, crate::event_edits::removed_selected(evs, m, s.selected_automation)),
                    None => {},
                }
            }
        },
        None => {},
    }
}

/// An automation edit changes nothing but the song.
pub proof fn law_edit_changes_only_song(s: RiffDAWStateView, req: TargetRequest, id: ItemId, apply: bool, op: ListEdit)
    ensures
        (RiffDAWStateView { song: s.song, ..edited(s, req, id, apply, op) }) == s,
{
    let (s1, loc) = resolve_target(s, req, id);
    lemma_resolve_changes_only_song(s, req, id);
    match loc {
        Some(l) => {
            lemma_with_events_changes_only_song(s1, l, list_edited(events_at(s1, l), op));
        },
        None => {},
    }
}

/// A note recorded at a position at or after the start of a riff lands inside the riff.
pub proof fn law_recorded_note_lands_in_riff(position: i64, riff_length: i64)
    requires
        position >= 0,
        0 < riff_length <= i32::MAX,
    ensures
        0 <= folded_position(position, riff_length) < riff_length,
{
    let a = clamp_i32(position as int) as int;
    let b = riff_length as int;
    assert(trunc_div(a, b) == a / b);
    vstd::arithmetic::div_mod::lemma_fundamental_div_mod(a, b);
    assert(0 <= a % b < b) by {
        vstd::arithmetic::div_mod::lemma_mod_bound(a, b);
    }
}

/// Pieces joined with a comma between each two.
pub open spec fn joined_with_commas(pieces: Seq<Seq<char>>) -> Seq<char>
    decreases pieces.len(),
{
    if pieces.len() <= 1 {
        if pieces.len() == 1 { pieces[0] } else { Seq::empty() }
    } else {
        joined_with_commas(pieces.drop_last()) + seq![','] + pieces.last()
    }
}

proof fn lemma_split_joins(s: Seq<char>)
    ensures
        split_at_commas(s).len() >= 1,
        joined_with_commas(split_at_commas(s)) == s,
        forall|i: int| 0 <= i < split_at_commas(s).len() ==> !(#[trigger] split_at_commas(s)[i]).contains(','),
    decreases s.len(),
{
    if s.len() == 0 {
        assert(split_at_commas(s)[0] =~= Seq::<char>::empty());
        assert(s =~= Seq::<char>::empty());
    } else {
        let t = s.drop_last();
        let c = s.last();
        lemma_split_joins(t);
        let ps = split_at_commas(t);
        assert(s =~= t.push(c));
        if c == ',' {
            let qs = ps.push(Seq::<char>::empty());
            assert(qs.drop_last() =~= ps);
            assert(joined_with_commas(qs) =~= t + seq![','] + Seq::<char>::empty());
            assert forall|i: int| 0 <= i < qs.len() implies !(#[trigger] qs[i]).contains(',') by {
                if i < ps.len() {
                    assert(qs[i] == ps[i]);
                } else {
                    assert(qs[i] =~= Seq::<char>::empty());
                }
            }
        } else {
            let last = ps.last().push(c);
            let qs = ps.update(ps.len() - 1, last);
            if ps.len() == 1 {
                assert(joined_with_commas(ps) == ps[0]);
                assert(joined_with_commas(qs) == qs[0]);
                assert(qs[0] =~= t.push(c));
            } else {
                assert(qs.drop_last() =~= ps.drop_last());
                assert(joined_with_commas(ps) == joined_with_commas(ps.drop_last()) + seq![','] + ps.last());
                assert(joined_with_commas(qs) =~= (joined_with_commas(ps.drop_last()) + seq![','] + ps.last()).push(c));
            }
            assert forall|i: int| 0 <= i < qs.len() implies !(#[trigger] qs[i]).contains(',') by {
                if i < ps.len() - 1 {
                    assert(qs[i] == ps[i]);
                } else {
                    assert(!ps[ps.len() - 1].contains(','));
                    assert forall|j: int| 0 <= j < last.len() implies last[j] != ',' by {
                        if j < last.len() - 1 {
                            assert(last[j] == ps.last()[j]);
                        }
                    }
                }
            }
        }
    }
}

proof fn lemma_without_quotes_has_none(s: Seq<char>)
    ensures
        !without_quotes(s).contains('"'),
    decreases s.len(),
{
    if s.len() > 0 {
        lemma_without_quotes_has_none(s.drop_last());
        let u = without_quotes(s.drop_last());
        if s.last() != '"' {
            assert forall|j: int| 0 <= j < u.push(s.last()).len() implies u.push(s.last())[j] != '"' by {
                if j < u.len() {
                    assert(u.push(s.last())[j] == u[j]);
                }
            }
        }
    }
}

proof fn lemma_pieces_of_no_quotes(s: Seq<char>)
    requires
        !s.contains('"'),
    ensures
        forall|i: int| 0 <= i < split_at_commas(s).len() ==> !(#[trigger] split_at_commas(s)[i]).contains('"'),
    decreases s.len(),
{
    if s.len() > 0 {
        let t = s.drop_last();
        assert forall|j: int| 0 <= j < t.len() implies t[j] != '"' by {
            assert(t[j] == s[j]);
        }
        lemma_pieces_of_no_quotes(t);
        lemma_split_joins(t);
        let ps = split_at_commas(t);
        let c = s.last();
        assert(c != '"') by {
            assert(s[s.len() - 1] == c);
        }
        if c == ',' {
            let qs = ps.push(Seq::<char>::empty());
            assert forall|i: int| 0 <= i < qs.len() implies !(#[trigger] qs[i]).contains('"') by {
                if i < ps.len() {
                    assert(qs[i] == ps[i]);
                } else {
                    assert(qs[i] =~= Seq::<char>::empty());
                }
            }
        } else {
            let last = ps.last().push(c);
            let qs = ps.update(ps.len() - 1, last);
            assert forall|i: int| 0 <= i < qs.len() implies !(#[trigger] qs[i]).contains('"') by {
                if i < ps.len() - 1 {
                    assert(qs[i] == ps[i]);
                } else {
                    assert(!ps[ps.len() - 1].contains('"'));
                    assert forall|j: int| 0 <= j < last.len() implies last[j] != '"' by {
                        if j < last.len() - 1 {
                            assert(last[j] == ps.last()[j]);
                        }
                    }
                }
            }
        }
    }
}

/// The plugin paths that an argument names, joined again with commas, give back the
/// argument without its quotes; no path holds a comma or a quote.
pub proof fn law_plugin_paths_rejoin(argument: Seq<char>)
    ensures
        joined_with_commas(plugin_paths(argument)) == without_quotes(argument),
        forall|i: int| 0 <= i < plugin_paths(argument).len() ==> {
            &&& !(#[trigger] plugin_paths(argument)[i]).contains(',')
            &&& !plugin_paths(argument)[i].contains('"')
        },
{
    lemma_split_joins(without_quotes(argument));
    lemma_without_quotes_has_none(argument);
    lemma_pieces_of_no_quotes(without_quotes(argument));
}

/// Every riff of a track after its first is placed once, at the start of the song, by
/// the placement at the same rank.
pub open spec fn riffs_placed_in_order(t: TrackView) -> bool {
    &&& t.riffs.len() == t.riff_refs.len() + 1
    &&& forall|j: int| 0 <= j < t.riff_refs.len() ==> {
        &&& (#[trigger] t.riff_refs[j]).linked_to == t.riffs[j + 1].id
        &&& t.riff_refs[j].position == 0
    }
}

proof fn lemma_with_plugins_keeps(
    t: TrackView,
    plugins: Seq<ProjectPlugin>,
    effect_ids: Seq<ItemId>,
    config: ConfigurationView,
    presets: Seq<(Seq<char>, Seq<char>)>,
)
    ensures
        ({
            let r = with_plugins(t, plugins, effect_ids, config, presets);
            r.id == t.id && r.kind == t.kind && r.riffs == t.riffs && r.riff_refs == t.riff_refs
        }),
    decreases plugins.len(),
{
    if plugins.len() > 0 {
        lemma_with_plugins_keeps(t, plugins.drop_last(), effect_ids, config, presets);
    }
}

proof fn lemma_with_lanes_keeps(
    tracks: Seq<TrackView>,
    structure: Seq<ProjectTrack>,
    lanes: Seq<ProjectLane>,
    ids: Seq<ProjectLaneIds>,
)
    requires
        tracks.len() == structure.len(),
        forall|k: int| 0 <= k < tracks.len() ==> riffs_placed_in_order(#[trigger] tracks[k]),
    ensures
        with_lanes(tracks, structure, lanes, ids).len() == tracks.len(),
        forall|k: int| 0 <= k < tracks.len() ==> {
            &&& riffs_placed_in_order(#[trigger] with_lanes(tracks, structure, lanes, ids)[k])
            &&& with_lanes(tracks, structure, lanes, ids)[k].id == tracks[k].id
            &&& with_lanes(tracks, structure, lanes, ids)[k].kind == tracks[k].kind
        },
    decreases lanes.len(),
{
    if lanes.len() > 0 {
        lemma_with_lanes_keeps(tracks, structure, lanes.drop_last(), ids);
        let before = with_lanes(tracks, structure, lanes.drop_last(), ids);
        let after = with_lanes(tracks, structure, lanes, ids);
        let lane = lanes.last();
        let lid = ids[lanes.len() - 1];
        assert(after == with_lane(before, structure, lane, lid));
        match lane.track {
            Some(id) => match lane_track_index(structure, id@) {
                Some(k) => {
                    lemma_lane_track_index(structure, id@);
                    let t = before[k];
                    let u = TrackView {
                        riffs: t.riffs.push(lane_riff(lane, lid)),
                        riff_refs: t.riff_refs.push(lane_placement(lid)),
                        ..t
                    };
                    assert(after == before.update(k, u));
                    assert(riffs_placed_in_order(t));
                    assert forall|j: int| 0 <= j < u.riff_refs.len() implies {
                        &&& (#[trigger] u.riff_refs[j]).linked_to == u.riffs[j + 1].id
                        &&& u.riff_refs[j].position == 0
                    } by {
                        if j < t.riff_refs.len() {
                            assert(u.riff_refs[j] == t.riff_refs[j]);
                            assert(u.riffs[j + 1] == t.riffs[j + 1]);
                        }
                    }
                    assert(riffs_placed_in_order(u));
                    assert forall|m: int| 0 <= m < tracks.len() implies {
                        &&& riffs_placed_in_order(#[trigger] after[m])
                        &&& after[m].id == tracks[m].id
                        &&& after[m].kind == tracks[m].kind
                    } by {
                        if m != k {
                            assert(after[m] == before[m]);
                        }
                    }
                },
                None => {},
            },
            None => {},
        }
    }
}

/// Importing a project gives one instrument track per structure track, in order and
/// under the track identifiers given; every riff that a lane adds is placed once, at
/// the start of the song.
pub proof fn law_import_keeps_structure(
    c: ProjectContents,
    presets: Seq<(Seq<char>, Seq<char>)>,
    config: ConfigurationView,
    ids: ProjectImportIds,
)
    requires
        project_ids_enough(c, ids),
    ensures
        imported_song(c, presets, config, ids).tracks.len() == c.tracks@.len(),
        forall|k: int| 0 <= k < c.tracks@.len() ==> {
            &&& (#[trigger] imported_song(c, presets, config, ids).tracks[k]).id == ids.tracks@[k].track
            &&& imported_song(c, presets, config, ids).tracks[k].kind == TrackKind::Instrument
            &&& riffs_placed_in_order(imported_song(c, presets, config, ids).tracks[k])
        },
{
    let structure = c.tracks@;
    let tracks = Seq::new(structure.len(), |k: int| structure_track(structure[k], ids.tracks@[k], config, presets));
    assert forall|k: int| 0 <= k < tracks.len() implies {
        &&& riffs_placed_in_order(#[trigger] tracks[k])
        &&& tracks[k].id == ids.tracks@[k].track
        &&& tracks[k].kind == TrackKind::Instrument
    } by {
        let base = track_settings(structure[k], fresh_instrument_track(ids.tracks@[k]));
        lemma_with_plugins_keeps(base, structure[k].plugins@, ids.tracks@[k].effects@, config, presets);
    }
    lemma_with_lanes_keeps(tracks, structure, c.lanes@, ids.lanes@);
}

/// A note-expression cut is a copy followed by removing, from the list the copy took
/// them from, the selected note expressions: both work on the same list, the cut leaves
/// what the copy leaves in the copy buffer, and the list keeps its other events in order.
pub proof fn law_note_expression_cut_is_copy_then_removal(s: RiffDAWStateView, cursor: i64, id: ItemId)
    ensures
        ({
            let copied = note_expression_clipped(s, cursor, id, false);
            let cut = note_expression_clipped(s, cursor, id, true);
            match resolve_target(s, note_expression_request(s), id).1 {
                Some(l) => cut == with_events_at(
                    copied,
                    l,
                    crate::event_edits::removed_selected(events_at(copied, l), EventMatch::AnyNoteExpression, s.selected_automation),
                ),
                None => cut == copied,
            }
        }),
{
    let req = note_expression_request(s);
    let (s1, loc) = resolve_target(s, req, id);
    match loc {
        Some(l) => {
            let evs = events_at(s1, l);
            let r = crate::event_edits::removed_selected(evs, EventMatch::AnyNoteExpression, s.selected_automation);
            let c = crate::automation_edits::clip_of(evs, Clip::All(EventMatch::AnyNoteExpression), s.selected_automation, cursor);
            let copied = note_expression_clipped(s, cursor, id, false);
            assert(copied == crate::automation_edits::with_copied(s1, c));
            assert(copied.song == s1.song);
            assert(events_at(copied, l) == evs);
            lemma_with_events_changes_only_song(s1, l, r);
            lemma_with_events_changes_only_song(copied, l, r);
            assert(with_events_at(copied, l, r).song == with_events_at(s1, l, r).song);
        },
        None => {},
    }
}

/// Every event that a copy takes stays an event of the same kind and condition once made
/// relative to the cursor.
proof fn lemma_relative_matches(m: EventMatch, e: TrackEvent, c0: i64)
    ensures
        event_matches(m, relative_to(e, c0)) == event_matches(m, e),
{
}

proof fn lemma_pasted_all_matching(buffer: Seq<TrackEvent>, ids: Seq<ItemId>, m: EventMatch, c: i64)
    requires
        forall|j: int| 0 <= j < buffer.len() ==> event_matches(m, #[trigger] buffer[j]),
    ensures
        crate::event_edits::pasted(buffer, ids, m, c) == Seq::new(buffer.len(), |j: int| placed(buffer[j], ids[j], c)),
    decreases buffer.len(),
{
    if buffer.len() > 0 {
        let b = buffer.drop_last();
        assert forall|j: int| 0 <= j < b.len() implies event_matches(m, #[trigger] b[j]) by {
            assert(b[j] == buffer[j]);
        }
        lemma_pasted_all_matching(b, ids, m, c);
        assert(event_matches(m, buffer[buffer.len() - 1]));
        assert(Seq::new(buffer.len(), |j: int| placed(buffer[j], ids[j], c))
            =~= Seq::new(b.len(), |j: int| placed(b[j], ids[j], c)).push(placed(buffer[buffer.len() - 1], ids[buffer.len() - 1], c)));
    }
}

/// Whether the events, moved from one cursor to another, keep their positions in range.
pub open spec fn moves_in_range(evs: Seq<TrackEvent>, from: i64, to: i64) -> bool {
    forall|j: int| 0 <= j < evs.len() ==> {
        &&& i64::MIN <= (#[trigger] evs[j]).pos() - from <= i64::MAX
        &&& i64::MIN <= evs[j].pos() - from + to <= i64::MAX
    }
}

/// The events taken by a copy, each under the identifier of the same rank and moved from
/// the copy's cursor to the paste's.
pub open spec fn moved_copies(taken: Seq<TrackEvent>, ids: Seq<ItemId>, from: i64, to: i64) -> Seq<TrackEvent> {
    Seq::new(taken.len(), |j: int| taken[j].with_ident(ids[j]).with_pos((taken[j].pos() - from + to) as i64))
}

/// Pasting at a cursor what a copy at another cursor took from a list gives each copied
/// event again, in order, under the identifier of the same rank, at its old position
/// moved from the copy's cursor to the paste's (when positions stay in range).
pub proof fn law_paste_after_copy(evs: Seq<TrackEvent>, m: EventMatch, selected: Seq<ItemId>, c0: i64, c: i64, ids: Seq<ItemId>)
    requires
        moves_in_range(evs.filter(crate::event_edits::is_copied(m, selected)), c0, c),
    ensures
        crate::event_edits::pasted(crate::event_edits::copied_selected(evs, m, selected, c0), ids, m, c)
            == moved_copies(evs.filter(crate::event_edits::is_copied(m, selected)), ids, c0, c),
{
    broadcast use vstd::seq_lib::group_filter_ensures;
    let k = evs.filter(crate::event_edits::is_copied(m, selected));
    let b = crate::event_edits::copied_selected(evs, m, selected, c0);
    assert(b == k.map_values(crate::event_edits::relative_to_cursor(c0)));
    assert forall|j: int| 0 <= j < b.len() implies event_matches(m, #[trigger] b[j]) by {
        assert(crate::event_edits::is_copied(m, selected)(k[j]));
        lemma_relative_matches(m, k[j], c0);
    }
    lemma_pasted_all_matching(b, ids, m, c);
    assert forall|j: int| 0 <= j < k.len() implies #[trigger] placed(b[j], ids[j], c)
        == k[j].with_ident(ids[j]).with_pos((k[j].pos() - c0 + c) as i64) by {
        let e = k[j];
        assert(b[j] == relative_to(e, c0));
        match e {
            TrackEvent::Note(_) => {},
            TrackEvent::NoteExpression(_) => {},
            TrackEvent::Controller(_) => {},
            TrackEvent::PitchBend(_) => {},
            TrackEvent::AudioPluginParameter(_) => {},
        }
    }
    assert(Seq::new(b.len(), |j: int| placed(b[j], ids[j], c)) =~= moved_copies(k, ids, c0, c));
}

/// The effect parameter values that an effect copy or paste works on.
pub open spec fn effect_match(s: RiffDAWStateView) -> EventMatch {
    EventMatch::ParameterOf { plugin: crate::actions::automation_actions::selected_effect_of(s), index: or_zero(s.effect_parameter_type) }
}

/// An effect paste of a buffer that an effect copy at `c0` filled from a list adds to the
/// list it resolves the copied values, in order, each under a fresh identifier and at its
/// old position moved from `c0` to the paste's cursor, and orders the list by position.
pub proof fn law_effect_paste_after_copy(
    s: RiffDAWStateView,
    copied_from: Seq<TrackEvent>,
    selected: Seq<ItemId>,
    c0: i64,
    buffer: Vec<TrackEvent>,
    c: i64,
    id: ItemId,
    ids: Vec<ItemId>,
)
    requires
        s.selected_effect_plugin_uuid is Some,
        s.effect_parameter_type is Some,
        buffer@ == crate::event_edits::copied_selected(copied_from, effect_match(s), selected, c0),
        moves_in_range(copied_from.filter(crate::event_edits::is_copied(effect_match(s), selected)), c0, c),
    ensures
        ({
            let fx = crate::actions::automation_actions::selected_effect_of(s);
            let (s1, loc) = resolve_target(s, effect_request(s, fx), id);
            match loc {
                Some(l) => effect_pasted(s, buffer, c, id, ids) == with_events_at(
                    s1,
                    l,
                    sort_by_position(events_at(s1, l) + moved_copies(
                        copied_from.filter(crate::event_edits::is_copied(effect_match(s), selected)),
                        ids@,
                        c0,
                        c,
                    )),
                ),
                None => effect_pasted(s, buffer, c, id, ids) == s1,
            }
        }),
{
    law_paste_after_copy(copied_from, effect_match(s), selected, c0, c, ids@);
}

/// An effect copy that takes any value fills the copy buffer with the selected values
/// of the chosen effect parameter from the list it resolves, relative to its cursor, and
/// keeps the effect selection; so a later paste works with the same condition
/// (see `law_effect_paste_after_copy`).
pub proof fn law_effect_copy_fills_buffer(s: RiffDAWStateView, c0: i64, id: ItemId)
    requires
        s.selected_effect_plugin_uuid is Some,
        s.effect_parameter_type is Some,
    ensures
        ({
            let fx = crate::actions::automation_actions::selected_effect_of(s);
            let s2 = effect_clipped(s, c0, id, false);
            &&& effect_match(s2) == effect_match(s)
            &&& s2.selected_automation == s.selected_automation
            &&& match resolve_target(s, effect_request(s, fx), id) {
                (s1, Some(l)) => {
                    let b = crate::event_edits::copied_selected(events_at(s1, l), effect_match(s), s.selected_automation, c0);
                    b.len() > 0 ==> s2.automation_event_copy_buffer == b
                },
                (_, None) => true,
            }
        }),
{
    let fx = crate::actions::automation_actions::selected_effect_of(s);
    let m = effect_match(s);
    law_clip_changes_only_buffer_and_song(s, effect_request(s, fx), id, true, Clip::All(m), None, c0);
}

/// Whether nudging velocities up then down gives the event back: it is not a selected
/// note, or it is a note whose velocity lies from 0 to 126.
pub open spec fn restored_by_up_then_down(e: TrackEvent, selected: Seq<ItemId>) -> bool {
    match e {
        TrackEvent::Note(n) => !selected.contains(e.ident()) || 0 <= n.velocity <= 126,
        _ => true,
    }
}

/// Nudging the selected notes' velocities up and then down changes only the list the
/// velocity handler works on, keeps its length, and gives back every event of it that is
/// not a selected note, and every selected note whose velocity lies from 0 to 126 (a
/// note at 127 comes back at 126).
pub proof fn law_velocities_up_then_down(state: RiffDAWState, selected: Vec<ItemId>)
    ensures
        ({
            let s = state@;
            let back = velocities_translated(velocities_translated(s, selected, TranslateDirection::Up), selected, TranslateDirection::Down);
            match resolve_target(s, velocity_request(s), 0).1 {
                Some(l) => {
                    &&& back == with_events_at(s, l, events_at(back, l))
                    &&& events_at(back, l).len() == events_at(s, l).len()
                    &&& forall|i: int| 0 <= i < events_at(s, l).len() && restored_by_up_then_down(#[trigger] events_at(s, l)[i], selected@)
                        ==> events_at(back, l)[i] == events_at(s, l)[i]
                },
                None => back == s,
            }
        }),
{
    let s = state@;
    lemma_state_lists_fit(&state);
    let req = velocity_request(s);
    let e0 = EventMatch::AnyNote;
    let sel = selected@;
    let up_op = ListEdit::Translate { m: e0, selected, dir: TranslateDirection::Up, snap: 0, sort: false };
    let down_op = ListEdit::Translate { m: e0, selected, dir: TranslateDirection::Down, snap: 0, sort: false };
    match resolve_target(s, req, 0).1 {
        Some(l) => {
            let evs = events_at(s, l);
            let e1 = crate::event_edits::translated_selected(evs, e0, sel, TranslateDirection::Up, 0);
            let e2 = crate::event_edits::translated_selected(e1, e0, sel, TranslateDirection::Down, 0);
            lemma_discrete_resolution(s, req, 0, e1);
            let up = velocities_translated(s, selected, TranslateDirection::Up);
            assert(up == with_events_at(s, l, e1));
            lemma_with_events_at(s, l, e1, e2);
            assert(events_at(up, l) == e1);
            let back = velocities_translated(up, selected, TranslateDirection::Down);
            assert(back == with_events_at(up, l, e2));
            assert(back == with_events_at(s, l, e2));
            lemma_with_events_at(s, l, e2, e2);
            assert(events_at(back, l) == e2);
            assert forall|i: int| 0 <= i < evs.len() && restored_by_up_then_down(#[trigger] evs[i], sel) implies e2[i] == evs[i] by {
                let e = evs[i];
                assert(e1[i] == crate::event_edits::translated_if_selected(e0, sel, TranslateDirection::Up, 0)(e));
                assert(e2[i] == crate::event_edits::translated_if_selected(e0, sel, TranslateDirection::Down, 0)(e1[i]));
                if sel.contains(e.ident()) && event_matches(e0, e) {
                    law_nudge_up_then_down(e, 0);
                }
            }
        },
        None => {
            lemma_discrete_resolution(s, req, 0, Seq::empty());
            let up = velocities_translated(s, selected, TranslateDirection::Up);
            assert(up == s);
        },
    }
}

/// The notes being recorded hold at most one entry per note number.
pub open spec fn one_entry_per_note(notes: Seq<RecordedNote>) -> bool {
    forall|i: int, j: int| 0 <= i < j < notes.len() ==> (#[trigger] notes[i]).note != (#[trigger] notes[j]).note
}

proof fn lemma_forgotten_one_entry(notes: Seq<RecordedNote>, n: i32)
    requires
        one_entry_per_note(notes),
    ensures
        one_entry_per_note(forgotten(notes, n)),
        forall|i: int| 0 <= i < forgotten(notes, n).len() ==> (#[trigger] forgotten(notes, n)[i]).note != n,
    decreases notes.len(),
{
    broadcast use vstd::seq_lib::group_filter_ensures;
    reveal_with_fuel(Seq::filter, 1);
    if notes.len() > 0 {
        let d = notes.drop_last();
        assert(one_entry_per_note(d)) by {
            assert forall|i: int, j: int| 0 <= i < j < d.len() implies (#[trigger] d[i]).note != (#[trigger] d[j]).note by {
                assert(d[i] == notes[i] && d[j] == notes[j]);
            }
        }
        lemma_forgotten_one_entry(d, n);
        let r = d.filter(other_note(n));
        assert(notes.filter(other_note(n)) == if other_note(n)(notes.last()) { r.push(notes.last()) } else { r });
        if other_note(n)(notes.last()) {
            let q = r.push(notes.last());
            assert forall|i: int| 0 <= i < r.len() implies (#[trigger] r[i]).note != notes.last().note by {
                assert(r.contains(r[i]));
                d.lemma_filter_contains_rev(other_note(n), r[i]);
                assert(d.contains(r[i]));
                let k = choose|k: int| 0 <= k < d.len() && d[k] == r[i];
                assert(notes[k] == r[i]);
                assert(notes[notes.len() - 1] == notes.last());
            }
            assert forall|i: int, j: int| 0 <= i < j < q.len() implies (#[trigger] q[i]).note != (#[trigger] q[j]).note by {
                if j == q.len() - 1 {
                    assert(q[i] == r[i]);
                } else {
                    assert(q[i] == r[i] && q[j] == r[j]);
                }
            }
            assert forall|i: int| 0 <= i < q.len() implies (#[trigger] q[i]).note != n by {
                if i < r.len() {
                    assert(q[i] == r[i]);
                }
            }
        }
    }
}

proof fn lemma_remembered_one_entry(notes: Seq<RecordedNote>, n: i32, p: i64)
    requires
        one_entry_per_note(notes),
    ensures
        one_entry_per_note(remembered(notes, n, p)),
{
    lemma_forgotten_one_entry(notes, n);
    let f = forgotten(notes, n);
    let q = remembered(notes, n, p);
    assert forall|i: int, j: int| 0 <= i < j < q.len() implies (#[trigger] q[i]).note != (#[trigger] q[j]).note by {
        assert(q[i] == f[i]);
        if j < f.len() {
            assert(q[j] == f[j]);
        }
    }
}

/// Recording a MIDI message keeps at most one entry per note among the notes being
/// recorded: a note-on replaces the note's entry, a note-off removes it.
pub proof fn law_recording_keeps_one_entry_per_note(s: RiffDAWStateView, msg: MidiMessage, id: ItemId)
    requires
        one_entry_per_note(s.recorded_playing_notes),
    ensures
        one_entry_per_note(midi_recorded(s, msg, id).recorded_playing_notes),
{
    let notes = s.recorded_playing_notes;
    let n = msg.data1 as i32;
    lemma_forgotten_one_entry(notes, n);
    let rest = recording_step(s, msg, id).0;
    assert(one_entry_per_note(rest.recorded_playing_notes)) by {
        match crate::state::selected_track_index(s) {
            None => {},
            Some(t) => if s.song.tracks[t].kind != TrackKind::Instrument {
            } else {
                match s.current_view {
                    crate::event::CurrentView::Track | crate::event::CurrentView::RiffSet => {
                        let all = s.current_view == crate::event::CurrentView::RiffSet;
                        let (s1, changed) = recorded_in_riff(s, msg, id, all);
                        match crate::actions::midi_actions::selected_riff_location(s) {
                            None => {},
                            Some(l) => {
                                let k = crate::actions::midi_actions::kind_of_status(msg.status);
                                if k == crate::actions::midi_actions::MessageKind::NoteOn {
                                    let p = folded_position(crate::actions::midi_actions::message_position(s, msg), crate::actions::midi_actions::riff_length_at(s, l)) as i64;
                                    lemma_remembered_one_entry(notes, n, p);
                                } else if k == crate::actions::midi_actions::MessageKind::NoteOff {
                                    let s0 = RiffDAWStateView { recorded_playing_notes: forgotten(notes, n), ..s };
                                    let evs = events_at(s, l);
                                    match crate::actions::midi_actions::recorded_start(notes, n) {
                                        None => {},
                                        Some(start) => match crate::seq_search::first_match(evs, crate::actions::midi_actions::note_started(start, n)) {
                                            Some(i) => {
                                                lemma_with_events_changes_only_song(s0, l, evs.update(i, crate::actions::midi_actions::with_length(evs[i], crate::numeric::clamp_i64(folded_position(crate::actions::midi_actions::message_position(s, msg), crate::actions::midi_actions::riff_length_at(s, l)) as i64 - start))));
                                            },
                                            None => {},
                                        },
                                    }
                                } else if all && crate::actions::midi_actions::is_automation_message(msg) {
                                    lemma_with_events_changes_only_song(s, l, sort_by_position(events_at(s, l).push(crate::actions::midi_actions::automation_event_of(s, msg, id))));
                                }
                            },
                        }
                        if s.current_view == crate::event::CurrentView::Track && crate::actions::midi_actions::is_automation_message(msg) {
                            let l2 = crate::automation_target::EventsLocation::Track(t as usize, crate::automation_target::AutomationSlot::Events);
                            lemma_with_events_changes_only_song(s1, l2, sort_by_position(events_at(s1, l2).push(crate::actions::midi_actions::automation_event_of(s1, msg, id))));
                        }
                    },
                    crate::event::CurrentView::RiffArrangement => {
                        let req = crate::actions::midi_actions::arrangement_automation_request();
                        lemma_resolve_changes_only_song(s, req, id);
                        let (s1, loc) = resolve_target(s, req, id);
                        match loc {
                            Some(l) => {
                                lemma_with_events_changes_only_song(s1, l, sort_by_position(events_at(s1, l).push(crate::actions::midi_actions::automation_event_of(s1, msg, id))));
                            },
                            None => {},
                        }
                    },
                    _ => {},
                }
            },
        }
    }
}

/// An editor change of a pitch bend moves it to the edited position and sets its value
/// to the whole part of the edited value (given in thousandths, rounded toward zero);
/// the bend keeps its identifier and nothing else in the list changes.
pub proof fn law_pitch_bend_change_takes_position_and_value(evs: Seq<TrackEvent>, c: crate::domain::PluginParameter, i: int)
    requires
        0 <= i < evs.len(),
        evs[i] is PitchBend,
        evs[i].ident() == c.id,
        forall|j: int| 0 <= j < i ==> (#[trigger] evs[j]).ident() != c.id,
    ensures
        ({
            let r = crate::event_edits::with_change(evs, TrackEvent::AudioPluginParameter(c), crate::event_edits::EventKind::PitchBend);
            &&& r.len() == evs.len()
            &&& forall|j: int| 0 <= j < evs.len() && j != i ==> #[trigger] r[j] == evs[j]
            &&& r[i] matches TrackEvent::PitchBend(b)
            &&& b.id == c.id
            &&& b.position == c.position
            &&& (c.value >= 0 ==> b.value * 1000 <= c.value < b.value * 1000 + 1000)
            &&& (c.value < 0 ==> b.value * 1000 - 1000 < c.value <= b.value * 1000)
        }),
{
    crate::seq_search::lemma_first_match_at(evs, crate::domain::event_has_id(c.id), i);
    let v = c.value as int;
    let q = crate::event_edits::div_toward_zero(v, 1000);
    if v >= 0 {
        assert(q * 1000 <= v < q * 1000 + 1000);
    } else {
        assert(q == -((-v) / 1000));
        assert(q * 1000 - 1000 < v <= q * 1000);
    }
    assert(-2147483 <= q <= 2147483);
}

/// An editor change of a controller moves it to the edited position and sets its value
/// to the whole part of the edited value; the controller keeps its identifier and
/// number and nothing else in the list changes.
pub proof fn law_controller_change_takes_position_and_value(evs: Seq<TrackEvent>, c: crate::domain::PluginParameter, i: int)
    requires
        0 <= i < evs.len(),
        evs[i] is Controller,
        evs[i].ident() == c.id,
        forall|j: int| 0 <= j < i ==> (#[trigger] evs[j]).ident() != c.id,
    ensures
        ({
            let r = crate::event_edits::with_change(evs, TrackEvent::AudioPluginParameter(c), crate::event_edits::EventKind::Controller);
            &&& r.len() == evs.len()
            &&& forall|j: int| 0 <= j < evs.len() && j != i ==> #[trigger] r[j] == evs[j]
            &&& r[i] matches TrackEvent::Controller(x)
            &&& x.id == c.id
            &&& evs[i] matches TrackEvent::Controller(y) && x.controller == y.controller
            &&& x.position == c.position
            &&& (c.value >= 0 ==> x.value * 1000 <= c.value < x.value * 1000 + 1000)
            &&& (c.value < 0 ==> x.value * 1000 - 1000 < c.value <= x.value * 1000)
        }),
{
    crate::seq_search::lemma_first_match_at(evs, crate::domain::event_has_id(c.id), i);
    let v = c.value as int;
    let q = crate::event_edits::div_toward_zero(v, 1000);
    if v >= 0 {
        assert(q * 1000 <= v < q * 1000 + 1000);
    } else {
        assert(q == -((-v) / 1000));
        assert(q * 1000 - 1000 < v <= q * 1000);
    }
    assert(-2147483 <= q <= 2147483);
}

/// A recorded pitch bend follows the wheel: one step of the high byte raises it by 128,
/// one step of the low byte by 1, and the centre (low 0, high 64) records no bend.
pub proof fn law_recorded_pitch_bend_follows_the_wheel(s: RiffDAWStateView, msg: MidiMessage, id: ItemId)
    requires
        crate::actions::midi_actions::kind_of_status(msg.status) == crate::actions::midi_actions::MessageKind::PitchBend,
        msg.data1 < 127,
        msg.data2 < 127,
    ensures
        ({
            let ev = crate::actions::midi_actions::automation_event_of(s, msg, id);
            let higher = crate::actions::midi_actions::automation_event_of(s, MidiMessage { data2: (msg.data2 + 1) as u8, ..msg }, id);
            let finer = crate::actions::midi_actions::automation_event_of(s, MidiMessage { data1: (msg.data1 + 1) as u8, ..msg }, id);
            let centre = crate::actions::midi_actions::automation_event_of(s, MidiMessage { data1: 0, data2: 64, ..msg }, id);
            &&& ev matches TrackEvent::PitchBend(b)
            &&& higher matches TrackEvent::PitchBend(h) && h.value == b.value + 128 && h.position == b.position
            &&& finer matches TrackEvent::PitchBend(f) && f.value == b.value + 1 && f.position == b.position
            &&& centre matches TrackEvent::PitchBend(z) && z.value == 0
        }),
{
}

/// Importing a note-on and then the note-off of the same key adds one note: it starts
/// where the note-on falls, ends where the note-off falls, and keeps the key and velocity.
pub proof fn law_imported_note_spans_note_on_to_note_off(
    p: crate::midi_import::ImportProgress,
    key: u8,
    velocity: u8,
    on: u64,
    off: u64,
    ppqn: u16,
    id: ItemId,
    other_id: ItemId,
)
    ensures
        ({
            let p1 = crate::midi_import::import_step(
                p,
                crate::midi_import::TimedMidiEvent { tick: Some(on), event: crate::midi_import::ImportedMidiEvent::NoteOn(key, velocity) },
                ppqn,
                id,
            );
            let p2 = crate::midi_import::import_step(
                p1,
                crate::midi_import::TimedMidiEvent { tick: Some(off), event: crate::midi_import::ImportedMidiEvent::NoteOff(key) },
                ppqn,
                other_id,
            );
            &&& p2.events.len() == p.events.len() + 1
            &&& p2.events.drop_last() == p.events
            &&& p2.events.last() matches TrackEvent::Note(n)
            &&& n.id == id
            &&& n.note == key as i32
            &&& n.velocity == velocity as i32
            &&& n.position == crate::midi_import::tick_position(on, ppqn)
            &&& n.position + n.length == crate::midi_import::tick_position(off, ppqn)
        }),
{
    broadcast use vstd::seq_lib::group_filter_ensures;
    let f = p.open_notes.filter(crate::midi_import::other_note_number(key));
    let note = Note {
        id,
        position: crate::midi_import::tick_position(on, ppqn),
        note: key as i32,
        velocity: velocity as i32,
        length: 0,
        note_id: -1i32,
    };
    let open = f.push((key, note));
    assert forall|j: int| 0 <= j < f.len() implies !(crate::midi_import::sounding(key))(#[trigger] open[j]) by {
        assert(open[j] == f[j]);
        assert((crate::midi_import::other_note_number(key))(f[j]));
    }
    crate::seq_search::lemma_first_match_at(open, crate::midi_import::sounding(key), f.len() as int);
    let a = crate::midi_import::tick_position(on, ppqn);
    let b = crate::midi_import::tick_position(off, ppqn);
    assert(a >= 0 && b >= 0);
    assert(p.events.push(TrackEvent::Note(Note { length: clamp_i64(b - a), ..note })).drop_last() =~= p.events);
}

/// Moving a limit of the active loop sends every track, in order, loop extents made of
/// the blocks of the loop's limits as they now stand, so the extents follow the moved
/// limit; the loop takes the new limit and keeps the other.
pub proof fn law_loop_extents_follow_the_moved_limit(s: RiffDAWStateView, position: u64, left: bool)
    ensures
        ({
            let r = crate::actions::loop_change_actions::loop_limit_changed(s, position, left);
            match s.active_loop {
                Some(id) => match crate::seq_search::first_match(s.song.loops, crate::domain::loop_has_id(id)) {
                    Some(i) => {
                        let lp = r.song.loops[i];
                        let sr = s.configuration.sample_rate;
                        let bs = s.configuration.block_size;
                        &&& lp.id == id
                        &&& (if left {
                            lp.start_position == position && lp.end_position == s.song.loops[i].end_position
                        } else {
                            lp.end_position == position && lp.start_position == s.song.loops[i].start_position
                        })
                        &&& r.outbox == s.outbox + crate::state::per_track(
                            s.song.tracks,
                            crate::state::to_each_track(crate::event::TrackBackgroundProcessorInwardEvent::LoopExtents(
                                crate::actions::loop_change_actions::position_block(lp.start_position, sr, bs),
                                crate::actions::loop_change_actions::position_block(lp.end_position, sr, bs),
                            )),
                        )
                    },
                    None => r == s,
                },
                None => r == s,
            }
        }),
{
    match s.active_loop {
        Some(id) => match crate::seq_search::first_match(s.song.loops, crate::domain::loop_has_id(id)) {
            Some(i) => {
                crate::seq_search::lemma_first_match(s.song.loops, crate::domain::loop_has_id(id));
            },
            None => {},
        },
        None => {},
    }
}

} // verus!
