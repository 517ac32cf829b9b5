//! Handlers of the riff arrangement view: adding, deleting, selecting, renaming and
//! copying arrangements, and adding, moving, deleting and selecting their riff items.
use vstd::prelude::*;
use crate::domain::{
    arrangement_has_id, empty_automation, find_arrangement, find_item, item_has_id, Automation,
    ItemId, RiffArrangement, RiffArrangementView, RiffItem, RiffItemType, SongView, Track,
    TrackAutomation, TrackAutomationView, TrackView,
};
use crate::arrangement_length::{items_length, items_length_of};
use crate::event::Command;
use crate::ids::{new_item_id, is_fresh_id, all_fresh};
use crate::seq_search::first_match;
use crate::state::{RiffDAWState, RiffDAWStateView};
use vstd::string::StringExecFns;

verus! {

broadcast use vstd::seq_lib::group_seq_properties;

pub open spec fn with_arrangements(s: RiffDAWStateView, arrangements: Seq<RiffArrangementView>) -> RiffDAWStateView {
    RiffDAWStateView { song: SongView { riff_arrangements: arrangements, ..s.song }, ..s }
}

/// An empty automation for a track.
pub open spec fn automation_for(t: TrackView) -> TrackAutomationView {
    TrackAutomationView { track_id: t.id, automation: empty_automation() }
}

/// A new arrangement: the name being entered, no items, and an empty automation for
/// each track of the song, in track order.
pub open spec fn new_arrangement(s: RiffDAWStateView, id: ItemId) -> RiffArrangementView {
    RiffArrangementView {
        id,
        name: s.add_riff_arrangement_name,
        items: Seq::empty(),
        automations: s.song.tracks.map_values(|t: TrackView| automation_for(t)),
    }
}

/// Adds an arrangement with the identifier (see `new_arrangement`).
pub fn daw_events_RiffArrangementAdd(state: &mut RiffDAWState, riff_arrangement_uuid: ItemId)
    ensures
        final(state)@ == with_arrangements(old(state)@, old(state)@.song.riff_arrangements.push(new_arrangement(old(state)@, riff_arrangement_uuid))),
{
    let ghost tracks = state@.song.tracks;
    let mut automations: Vec<TrackAutomation> = Vec::new();
    let mut i: usize = 0;
    while i < state.song.tracks.len()
        invariant
            i <= tracks.len(),
            tracks == state@.song.tracks,
            state@ == old(state)@,
            automations@.map_values(|a: TrackAutomation| a@) == tracks.take(i as int).map_values(|t: TrackView| automation_for(t)),
        decreases tracks.len() - i,
    {
        let a = TrackAutomation { track_id: state.song.tracks[i].id, automation: Automation::new() };
        let ghost before = automations@;
        automations.push(a);
        proof {
            assert(tracks[i as int] == state.song.tracks@[i as int]@);
            assert(automations@.map_values(|a: TrackAutomation| a@) =~= before.map_values(|a: TrackAutomation| a@).push(a@));
            assert(tracks.take(i + 1).map_values(|t: TrackView| automation_for(t)) =~= tracks.take(i as int).map_values(|t: TrackView| automation_for(t)).push(automation_for(tracks[i as int])));
        }
        i = i + 1;
    }
    assert(tracks.take(tracks.len() as int) =~= tracks);
    let arrangement = RiffArrangement {
        id: riff_arrangement_uuid,
        name: state.add_riff_arrangement_name.clone(),
        items: Vec::new(),
        automations,
    };
    assert(arrangement@ == new_arrangement(old(state)@, riff_arrangement_uuid));
    let ghost before = state.song.riff_arrangements@;
    state.song.riff_arrangements.push(arrangement);
    assert(state@.song.riff_arrangements =~= old(state)@.song.riff_arrangements.push(new_arrangement(old(state)@, riff_arrangement_uuid)));
}

pub open spec fn other_arrangement(id: ItemId) -> spec_fn(RiffArrangementView) -> bool {
    |a: RiffArrangementView| a.id != id
}

/// Removes the arrangements with the identifier.
pub fn daw_events_RiffArrangementDelete(state: &mut RiffDAWState, riff_arrangement_uuid: ItemId)
    ensures
        final(state)@ == with_arrangements(old(state)@, old(state)@.song.riff_arrangements.filter(other_arrangement(riff_arrangement_uuid))),
{
    let ghost s = state.song.riff_arrangements@.map_values(|a: RiffArrangement| a@);
    let mut kept: Vec<RiffArrangement> = Vec::new();
    let n = state.song.riff_arrangements.len();
    let mut i: usize = 0;
    while i < n
        invariant
            i <= n,
            n == s.len(),
            state@ == old(state)@,
            state.song.riff_arrangements@.map_values(|a: RiffArrangement| a@) == s,
            kept@.map_values(|a: RiffArrangement| a@) == s.take(i as int).filter(other_arrangement(riff_arrangement_uuid)),
        decreases n - i,
    {
        let a = &state.song.riff_arrangements[i];
        proof {
            assert(s[i as int] == a@);
            assert(s.take(i + 1) =~= s.take(i as int).push(a@));
            s.take(i as int).lemma_filter_push(a@, other_arrangement(riff_arrangement_uuid));
        }
        if a.id != riff_arrangement_uuid {
            let copy = a.duplicate();
            let ghost before = kept@;
            kept.push(copy);
            assert(kept@.map_values(|a: RiffArrangement| a@) =~= before.map_values(|a: RiffArrangement| a@).push(copy@));
        }
        i = i + 1;
    }
    assert(s.take(n as int) =~= s);
    state.song.riff_arrangements = kept;
    assert(state@.song.riff_arrangements =~= old(state)@.song.riff_arrangements.filter(other_arrangement(riff_arrangement_uuid)));
}

/// Selects an arrangement.
pub fn daw_events_RiffArrangementSelected(state: &mut RiffDAWState, riff_arrangement_uuid: ItemId)
    ensures
        final(state)@ == (RiffDAWStateView { selected_riff_arrangement_uuid: Some(riff_arrangement_uuid), ..old(state)@ }),
{
    state.selected_riff_arrangement_uuid = Some(riff_arrangement_uuid);
}

/// The state with the first arrangement with the identifier changed by `f`, if there is one.
pub open spec fn with_arrangement_changed(s: RiffDAWStateView, id: ItemId, f: spec_fn(RiffArrangementView) -> RiffArrangementView) -> RiffDAWStateView {
    match first_match(s.song.riff_arrangements, arrangement_has_id(id)) {
        Some(a) => with_arrangements(s, s.song.riff_arrangements.update(a, f(s.song.riff_arrangements[a]))),
        None => s,
    }
}

pub open spec fn renamed(name: Seq<char>) -> spec_fn(RiffArrangementView) -> RiffArrangementView {
    |a: RiffArrangementView| RiffArrangementView { name, ..a }
}

/// Renames the arrangement with the identifier.
pub fn daw_events_RiffArrangementNameChange(state: &mut RiffDAWState, riff_arrangement_uuid: ItemId, name: String)
    ensures
        final(state)@ == with_arrangement_changed(old(state)@, riff_arrangement_uuid, renamed(name@)),
{
    match find_arrangement(&state.song.riff_arrangements, riff_arrangement_uuid) {
        Some(a) => {
            let ghost before = state.song.riff_arrangements@;
            state.song.riff_arrangements[a].name = name;
            proof {
                assert(state.song.riff_arrangements@.map_values(|a: RiffArrangement| a@) =~= before.map_values(|a: RiffArrangement| a@).update(
                    a as int,
                    state.song.riff_arrangements@[a as int]@,
                ));
            }
        },
        None => {},
    }
}

/// The items with the one with the identifier moved to a position (or to the end when
/// the position lies beyond it); unchanged when there is no such item.
pub open spec fn item_moved(items: Seq<crate::domain::RiffItem>, item: ItemId, position: usize) -> Seq<crate::domain::RiffItem> {
    match first_match(items, item_has_id(item)) {
        Some(i) => {
            let rest = items.remove(i);
            let p = if position <= rest.len() { position as int } else { rest.len() as int };
            rest.insert(p, items[i])
        },
        None => items,
    }
}

pub open spec fn with_item_moved(item: ItemId, position: usize) -> spec_fn(RiffArrangementView) -> RiffArrangementView {
    |a: RiffArrangementView| RiffArrangementView { items: item_moved(a.items, item, position), ..a }
}

/// Moves a riff item of an arrangement to a position.
pub fn daw_events_RiffArrangementMoveRiffItemToPosition(state: &mut RiffDAWState, riff_arrangement_uuid: ItemId, riff_item_uuid: ItemId, position: usize)
    ensures
        final(state)@ == with_arrangement_changed(old(state)@, riff_arrangement_uuid, with_item_moved(riff_item_uuid, position)),
{
    match find_arrangement(&state.song.riff_arrangements, riff_arrangement_uuid) {
        Some(a) => {
            let ghost before = state.song.riff_arrangements@;
            match find_item(&state.song.riff_arrangements[a].items, riff_item_uuid) {
                Some(i) => {
                    let item = state.song.riff_arrangements[a].items.remove(i);
                    let len = state.song.riff_arrangements[a].items.len();
                    let p = if position <= len { position } else { len };
                    state.song.riff_arrangements[a].items.insert(p, item);
                },
                None => {},
            }
            proof {
                assert(state.song.riff_arrangements@[a as int]@.items =~= item_moved(before[a as int]@.items, riff_item_uuid, position));
                assert(state.song.riff_arrangements@.map_values(|a: RiffArrangement| a@) =~= before.map_values(|a: RiffArrangement| a@).update(
                    a as int,
                    state.song.riff_arrangements@[a as int]@,
                ));
            }
        },
        None => {},
    }
}

/// Where a new item goes: just after the selected item when the arrangement holds it,
/// else at the end.
pub open spec fn item_added(items: Seq<RiffItem>, selected: Option<(ItemId, ItemId)>, item: RiffItem) -> Seq<RiffItem> {
    match selected {
        Some((_, selected_item)) => match first_match(items, item_has_id(selected_item)) {
            Some(i) => items.insert(i + 1, item),
            None => items.push(item),
        },
        None => items.push(item),
    }
}

pub open spec fn with_item_added(selected: Option<(ItemId, ItemId)>, item: RiffItem) -> spec_fn(RiffArrangementView) -> RiffArrangementView {
    |a: RiffArrangementView| RiffArrangementView { items: item_added(a.items, selected, item), ..a }
}

/// Adds an item referring to a riff set, sequence or grid to an arrangement, after the
/// selected item when there is one; the item gets a fresh identifier.
pub fn daw_events_RiffArrangementRiffItemAdd(state: &mut RiffDAWState, riff_arrangement_uuid: ItemId, item_referred_to_uuid: ItemId, riff_item_type: RiffItemType)
    ensures
        exists|id: ItemId| is_fresh_id(id) && final(state)@ == with_arrangement_changed(old(state)@, riff_arrangement_uuid, with_item_added(
            old(state)@.riff_arrangement_riff_item_selected,
            RiffItem { id, item_type: riff_item_type, item_uuid: item_referred_to_uuid },
        )),
{
    let id = new_item_id();
    let item = RiffItem { id, item_type: riff_item_type, item_uuid: item_referred_to_uuid };
    let selected = state.riff_arrangement_riff_item_selected;
    match find_arrangement(&state.song.riff_arrangements, riff_arrangement_uuid) {
        Some(a) => {
            let ghost before = state.song.riff_arrangements@;
            let position = match selected {
                Some((_, selected_item)) => find_item(&state.song.riff_arrangements[a].items, selected_item),
                None => None,
            };
            let len = state.song.riff_arrangements[a].items.len();
            assert(position matches Some(i) ==> i < len);
            match position {
                Some(i) => {
                    state.song.riff_arrangements[a].items.insert(i + 1, item);
                },
                None => {
                    state.song.riff_arrangements[a].items.push(item);
                },
            }
            proof {
                assert(state.song.riff_arrangements@[a as int]@.items =~= item_added(before[a as int]@.items, selected, item));
                assert(state.song.riff_arrangements@.map_values(|a: RiffArrangement| a@) =~= before.map_values(|a: RiffArrangement| a@).update(
                    a as int,
                    state.song.riff_arrangements@[a as int]@,
                ));
            }
        },
        None => {},
    }
    assert(state@ == with_arrangement_changed(old(state)@, riff_arrangement_uuid, with_item_added(selected, item)));
}

pub open spec fn other_item(id: ItemId) -> spec_fn(RiffItem) -> bool {
    |i: RiffItem| i.id != id
}

pub open spec fn without_item(item: ItemId) -> spec_fn(RiffArrangementView) -> RiffArrangementView {
    |a: RiffArrangementView| RiffArrangementView { items: a.items.filter(other_item(item)), ..a }
}

fn remove_items_with_id(items: &mut Vec<RiffItem>, id: ItemId)
    ensures
        final(items)@ == old(items)@.filter(other_item(id)),
{
    let ghost s = items@;
    let mut out: Vec<RiffItem> = Vec::new();
    let mut i: usize = 0;
    while i < items.len()
        invariant
            i <= s.len(),
            items@ == s,
            out@ == s.take(i as int).filter(other_item(id)),
        decreases s.len() - i,
    {
        let x = items[i];
        proof {
            assert(s.take(i + 1) =~= s.take(i as int).push(x));
            s.take(i as int).lemma_filter_push(x, other_item(id));
        }
        if x.id != id {
            out.push(x);
        }
        i = i + 1;
    }
    assert(s.take(s.len() as int) =~= s);
    *items = out;
}

/// Removes the items with the identifier from an arrangement.
pub fn daw_events_RiffArrangementRiffItemDelete(state: &mut RiffDAWState, riff_arrangement_uuid: ItemId, item_uuid: ItemId)
    ensures
        final(state)@ == with_arrangement_changed(old(state)@, riff_arrangement_uuid, without_item(item_uuid)),
{
    match find_arrangement(&state.song.riff_arrangements, riff_arrangement_uuid) {
        Some(a) => {
            let ghost before = state.song.riff_arrangements@;
            remove_items_with_id(&mut state.song.riff_arrangements[a].items, item_uuid);
            proof {
                assert(state.song.riff_arrangements@.map_values(|a: RiffArrangement| a@) =~= before.map_values(|a: RiffArrangement| a@).update(
                    a as int,
                    state.song.riff_arrangements@[a as int]@,
                ));
            }
        },
        None => {},
    }
}

/// Asks for an arrangement to be copied onto the track grid at the edit cursor.
pub fn daw_events_RiffArrangementCopySelectedToTrackViewCursorPosition(state: &mut RiffDAWState, uuid: ItemId)
    ensures
        final(state)@ == (RiffDAWStateView {
            outbox: old(state)@.outbox.push(Command::CopyRiffArrangementToPosition(uuid, old(state)@.track_grid_edit_cursor_position)),
            ..old(state)@
        }),
{
    let position = state.track_grid_edit_cursor_position;
    state.send(Command::CopyRiffArrangementToPosition(uuid, position));
}

/// The selected riff item after an item was selected or deselected: selecting makes it
/// the selection; deselecting the selected item clears the selection.
pub open spec fn item_selection(current: Option<(ItemId, ItemId)>, arrangement: ItemId, item: ItemId, selected: bool) -> Option<(ItemId, ItemId)> {
    if selected {
        Some((arrangement, item))
    } else if current == Some((arrangement, item)) {
        None
    } else {
        current
    }
}

pub fn daw_events_RiffArrangementRiffItemSelect(state: &mut RiffDAWState, riff_arrangement_uuid: ItemId, riff_item_uuid: ItemId, selected: bool)
    ensures
        final(state)@ == (RiffDAWStateView {
            riff_arrangement_riff_item_selected: item_selection(old(state)@.riff_arrangement_riff_item_selected, riff_arrangement_uuid, riff_item_uuid, selected),
            ..old(state)@
        }),
{
    if selected {
        state.riff_arrangement_riff_item_selected = Some((riff_arrangement_uuid, riff_item_uuid));
    } else {
        match state.riff_arrangement_riff_item_selected {
            Some((a, i)) => {
                if a == riff_arrangement_uuid && i == riff_item_uuid {
                    state.riff_arrangement_riff_item_selected = None;
                }
            },
            None => {},
        }
    }
}

/// A copy of an arrangement under a new identifier, named "Copy of " and its name.
pub open spec fn arrangement_copy(a: RiffArrangementView, id: ItemId) -> RiffArrangementView {
    RiffArrangementView { id, name: "Copy of "@ + a.name, ..a }
}

/// Copies the arrangement with the identifier (if there is one) under a fresh
/// identifier, adds the copy and selects it.
pub open spec fn arrangement_copied(s: RiffDAWStateView, uuid: ItemId, id: ItemId) -> RiffDAWStateView {
    match first_match(s.song.riff_arrangements, arrangement_has_id(uuid)) {
        Some(a) => RiffDAWStateView {
            selected_riff_arrangement_uuid: Some(id),
            ..with_arrangements(s, s.song.riff_arrangements.push(arrangement_copy(s.song.riff_arrangements[a], id)))
        },
        None => s,
    }
}

pub fn daw_events_RiffArrangementCopy(state: &mut RiffDAWState, uuid: ItemId)
    ensures
        exists|id: ItemId| is_fresh_id(id) && final(state)@ == arrangement_copied(old(state)@, uuid, id),
{
    let id = new_item_id();
    match find_arrangement(&state.song.riff_arrangements, uuid) {
        Some(a) => {
            let mut copy = state.song.riff_arrangements[a].duplicate();
            let prefix: String = <String as StringExecFns>::from_str("Copy of ");
            copy.name = prefix.concat(copy.name.as_str());
            copy.id = id;
            state.selected_riff_arrangement_uuid = Some(id);
            let ghost c = copy@;
            state.song.riff_arrangements.push(copy);
            assert(state@.song.riff_arrangements =~= old(state)@.song.riff_arrangements.push(c));
        },
        None => {},
    }
    assert(state@ == arrangement_copied(old(state)@, uuid, id));
}

/// Showing or hiding the arrangement overview changes no state.
pub fn daw_events_RiffArrangementToggleOverview(state: &mut RiffDAWState, show: bool)
    ensures
        final(state)@ == old(state)@,
{
}

/// Where playing an arrangement starts: after all its items (0 when there is no such
/// arrangement).
pub open spec fn arrangement_play_position(song: SongView, uuid: ItemId) -> i64 {
    match first_match(song.riff_arrangements, arrangement_has_id(uuid)) {
        Some(a) => items_length(song, song.riff_arrangements[a].items),
        None => 0,
    }
}

/// Plays an arrangement from the position after its items, and records it as playing.
pub fn daw_events_RiffArrangementPlay(state: &mut RiffDAWState, riff_arrangement_uuid: ItemId)
    ensures
        final(state)@ == (RiffDAWStateView {
            outbox: old(state)@.outbox.push(Command::PlayRiffArrangement(
                riff_arrangement_uuid,
                arrangement_play_position(old(state)@.song, riff_arrangement_uuid),
            )),
            playing_riff_arrangement: Some(riff_arrangement_uuid),
            ..old(state)@
        }),
{
    let position = match find_arrangement(&state.song.riff_arrangements, riff_arrangement_uuid) {
        Some(a) => items_length_of(&state.song, &state.song.riff_arrangements[a].items),
        None => 0,
    };
    state.send(Command::PlayRiffArrangement(riff_arrangement_uuid, position));
    state.playing_riff_arrangement = Some(riff_arrangement_uuid);
}

} // verus!
