//! Giving every riff placement a fresh identifier.
use vstd::prelude::*;
use crate::domain::{
    ItemId, RiffGrid, RiffGridView, RiffReference, RiffSet, RiffSetView, SongView, Track,
    TrackRiffReference, TrackRiffReferences, TrackRiffReferencesView, TrackView,
};
use crate::event_edits::is_selected;
use crate::ids::{is_fresh_id, new_item_id};
use crate::state::{RiffDAWState, RiffDAWStateView};

verus! {

/// Two placements of the same riff at the same position.
pub open spec fn same_placement(a: RiffReference, b: RiffReference) -> bool {
    b.linked_to == a.linked_to && b.position == a.position
}

/// A placement under a freshly made identifier: the same riff at the same position.
pub open spec fn placement_renewed(a: RiffReference, b: RiffReference) -> bool {
    same_placement(a, b) && is_fresh_id(b.id)
}

/// The same placements, in order, each under a freshly made identifier.
pub open spec fn renewed(old: Seq<RiffReference>, new: Seq<RiffReference>) -> bool {
    &&& new.len() == old.len()
    &&& forall|i: int| 0 <= i < old.len() ==> #[trigger] placement_renewed(old[i], new[i])
}

pub open spec fn track_renewed(old: TrackView, new: TrackView) -> bool {
    new == (TrackView { riff_refs: new.riff_refs, ..old }) && renewed(old.riff_refs, new.riff_refs)
}

pub open spec fn grid_track_renewed(old: TrackRiffReferencesView, new: TrackRiffReferencesView) -> bool {
    new.track_id == old.track_id && renewed(old.riff_refs, new.riff_refs)
}

pub open spec fn grid_renewed(old: RiffGridView, new: RiffGridView) -> bool {
    &&& new == (RiffGridView { tracks: new.tracks, ..old })
    &&& new.tracks.len() == old.tracks.len()
    &&& forall|k: int| 0 <= k < old.tracks.len() ==> #[trigger] grid_track_renewed(old.tracks[k], new.tracks[k])
}

/// Whether the song has a track with the identifier.
pub open spec fn in_song(tracks: Seq<TrackView>, id: ItemId) -> bool {
    tracks.map_values(|t: TrackView| t.id).contains(id)
}

/// A riff set's placement renewed when its track is in the song, else kept.
pub open spec fn set_entry_renewed(old: TrackRiffReference, new: TrackRiffReference, tracks: Seq<TrackView>) -> bool {
    new.track_id == old.track_id && if in_song(tracks, old.track_id) {
        placement_renewed(old.riff_ref, new.riff_ref)
    } else {
        new == old
    }
}

pub open spec fn set_renewed(old: RiffSetView, new: RiffSetView, tracks: Seq<TrackView>) -> bool {
    &&& new == (RiffSetView { riff_refs: new.riff_refs, ..old })
    &&& new.riff_refs.len() == old.riff_refs.len()
    &&& forall|i: int| 0 <= i < old.riff_refs.len() ==> #[trigger] set_entry_renewed(old.riff_refs[i], new.riff_refs[i], tracks)
}

/// The song after every riff placement got a fresh identifier: those of the tracks, of
/// the riff grids, and those of the riff sets for tracks of the song; nothing else
/// changes.
pub open spec fn references_renewed(old: RiffDAWStateView, new: RiffDAWStateView) -> bool {
    &&& new == (RiffDAWStateView {
        song: SongView { tracks: new.song.tracks, riff_grids: new.song.riff_grids, riff_sets: new.song.riff_sets, ..old.song },
        ..old
    })
    &&& new.song.tracks.len() == old.song.tracks.len()
    &&& forall|t: int| 0 <= t < old.song.tracks.len() ==> #[trigger] track_renewed(old.song.tracks[t], new.song.tracks[t])
    &&& new.song.riff_grids.len() == old.song.riff_grids.len()
    &&& forall|g: int| 0 <= g < old.song.riff_grids.len() ==> #[trigger] grid_renewed(old.song.riff_grids[g], new.song.riff_grids[g])
    &&& new.song.riff_sets.len() == old.song.riff_sets.len()
    &&& forall|r: int| 0 <= r < old.song.riff_sets.len() ==> #[trigger] set_renewed(old.song.riff_sets[r], new.song.riff_sets[r], old.song.tracks)
}

fn renew_refs(refs: &mut Vec<RiffReference>)
    ensures
        renewed(old(refs)@, final(refs)@),
{
    let ghost s = refs@;
    let n = refs.len();
    let mut i: usize = 0;
    while i < n
        invariant
            i <= n,
            n == s.len(),
            refs@.len() == n,
            forall|j: int| 0 <= j < i ==> #[trigger] placement_renewed(s[j], refs@[j]),
            forall|j: int| i <= j < n ==> refs@[j] == s[j],
        decreases n - i,
    {
        let r = refs[i];
        refs.set(i, RiffReference { id: new_item_id(), ..r });
        i = i + 1;
    }
}

fn renew_track(track: &mut Track)
    ensures
        track_renewed(old(track)@, final(track)@),
{
    renew_refs(&mut track.riff_refs);
}

fn renew_grid(grid: &mut RiffGrid)
    ensures
        grid_renewed(old(grid)@, final(grid)@),
{
    let ghost s = grid@;
    let n = grid.tracks.len();
    let mut k: usize = 0;
    while k < n
        invariant
            k <= n,
            n == s.tracks.len(),
            grid.tracks@.len() == n,
            grid@ == (RiffGridView { tracks: grid@.tracks, ..s }),
            forall|j: int| 0 <= j < k ==> #[trigger] grid_track_renewed(s.tracks[j], grid@.tracks[j]),
            forall|j: int| k <= j < n ==> grid@.tracks[j] == s.tracks[j],
        decreases n - k,
    {
        let ghost before = grid.tracks@;
        let ghost old_view = grid@.tracks;
        renew_refs(&mut grid.tracks[k].riff_refs);
        proof {
            assert forall|j: int| 0 <= j < n && j != k implies grid@.tracks[j] == old_view[j] by {
                assert(grid.tracks@[j] == before[j]);
            }
            assert(grid@.tracks[k as int] == grid.tracks@[k as int]@);
            assert(grid_track_renewed(s.tracks[k as int], grid@.tracks[k as int]));
            assert forall|j: int| 0 <= j < k + 1 implies #[trigger] grid_track_renewed(s.tracks[j], grid@.tracks[j]) by {
                if j < k {
                    assert(grid_track_renewed(s.tracks[j], old_view[j]));
                }
            }
        }
        k = k + 1;
    }
}

fn renew_set(set: &mut RiffSet, track_ids: &Vec<ItemId>, Ghost(tracks): Ghost<Seq<TrackView>>)
    requires
        track_ids@ == tracks.map_values(|t: TrackView| t.id),
    ensures
        set_renewed(old(set)@, final(set)@, tracks),
{
    let ghost s = set@;
    let n = set.riff_refs.len();
    let mut i: usize = 0;
    while i < n
        invariant
            i <= n,
            n == s.riff_refs.len(),
            set.riff_refs@.len() == n,
            track_ids@ == tracks.map_values(|t: TrackView| t.id),
            set@ == (RiffSetView { riff_refs: set@.riff_refs, ..s }),
            forall|j: int| 0 <= j < i ==> #[trigger] set_entry_renewed(s.riff_refs[j], set@.riff_refs[j], tracks),
            forall|j: int| i <= j < n ==> set@.riff_refs[j] == s.riff_refs[j],
        decreases n - i,
    {
        let e = set.riff_refs[i];
        if is_selected(track_ids, e.track_id) {
            set.riff_refs.set(i, TrackRiffReference { track_id: e.track_id, riff_ref: RiffReference { id: new_item_id(), ..e.riff_ref } });
        }
        i = i + 1;
    }
}

fn track_ids_of(tracks: &Vec<Track>) -> (r: Vec<ItemId>)
    ensures
        r@ == tracks@.map_values(|t: Track| t@).map_values(|t: TrackView| t.id),
{
    let mut out: Vec<ItemId> = Vec::new();
    let mut i: usize = 0;
    while i < tracks.len()
        invariant
            i <= tracks@.len(),
            out@ == tracks@.map_values(|t: Track| t@).map_values(|t: TrackView| t.id).take(i as int),
        decreases tracks@.len() - i,
    {
        out.push(tracks[i].id);
        assert(tracks@.map_values(|t: Track| t@).map_values(|t: TrackView| t.id).take(i + 1) =~= out@);
        i = i + 1;
    }
    assert(tracks@.map_values(|t: Track| t@).map_values(|t: TrackView| t.id).take(tracks@.len() as int) =~= out@);
    out
}

/// Gives every riff placement (of the riff grids, of the riff sets for tracks of the
/// song, and of the tracks) a fresh identifier.
pub fn daw_events_RiffReferenceRegenerateIds(state: &mut RiffDAWState)
    ensures
        references_renewed(old(state)@, final(state)@),
{
    let ghost s0 = state@;
    let ng = state.song.riff_grids.len();
    let mut g: usize = 0;
    while g < ng
        invariant
            g <= ng,
            ng == s0.song.riff_grids.len(),
            state.song.riff_grids@.len() == ng,
            state@ == (RiffDAWStateView { song: SongView { riff_grids: state@.song.riff_grids, ..s0.song }, ..s0 }),
            forall|j: int| 0 <= j < g ==> #[trigger] grid_renewed(s0.song.riff_grids[j], state@.song.riff_grids[j]),
            forall|j: int| g <= j < ng ==> state@.song.riff_grids[j] == s0.song.riff_grids[j],
        decreases ng - g,
    {
        let ghost before = state.song.riff_grids@;
        let ghost old_view = state@.song.riff_grids;
        renew_grid(&mut state.song.riff_grids[g]);
        proof {
            assert forall|j: int| 0 <= j < ng && j != g implies state@.song.riff_grids[j] == old_view[j] by {
                assert(state.song.riff_grids@[j] == before[j]);
            }
            assert(state@.song.riff_grids[g as int] == state.song.riff_grids@[g as int]@);
            assert forall|j: int| 0 <= j < g + 1 implies #[trigger] grid_renewed(s0.song.riff_grids[j], state@.song.riff_grids[j]) by {
                if j < g {
                    assert(grid_renewed(s0.song.riff_grids[j], old_view[j]));
                }
            }
        }
        g = g + 1;
    }
    let ghost s1 = state@;
    let track_ids = track_ids_of(&state.song.tracks);
    let nr = state.song.riff_sets.len();
    let mut r: usize = 0;
    while r < nr
        invariant
            r <= nr,
            nr == s1.song.riff_sets.len(),
            state.song.riff_sets@.len() == nr,
            track_ids@ == s0.song.tracks.map_values(|t: TrackView| t.id),
            state@ == (RiffDAWStateView { song: SongView { riff_sets: state@.song.riff_sets, ..s1.song }, ..s1 }),
            s1.song.tracks == s0.song.tracks,
            forall|j: int| 0 <= j < r ==> #[trigger] set_renewed(s1.song.riff_sets[j], state@.song.riff_sets[j], s0.song.tracks),
            forall|j: int| r <= j < nr ==> state@.song.riff_sets[j] == s1.song.riff_sets[j],
        decreases nr - r,
    {
        let ghost before = state.song.riff_sets@;
        let ghost old_view = state@.song.riff_sets;
        renew_set(&mut state.song.riff_sets[r], &track_ids, Ghost(s0.song.tracks));
        proof {
            assert forall|j: int| 0 <= j < nr && j != r implies state@.song.riff_sets[j] == old_view[j] by {
                assert(state.song.riff_sets@[j] == before[j]);
            }
            assert(state@.song.riff_sets[r as int] == state.song.riff_sets@[r as int]@);
            assert forall|j: int| 0 <= j < r + 1 implies #[trigger] set_renewed(s1.song.riff_sets[j], state@.song.riff_sets[j], s0.song.tracks) by {
                if j < r {
                    assert(set_renewed(s1.song.riff_sets[j], old_view[j], s0.song.tracks));
                }
            }
        }
        r = r + 1;
    }
    let ghost s2 = state@;
    let nt = state.song.tracks.len();
    let mut t: usize = 0;
    while t < nt
        invariant
            t <= nt,
            nt == s2.song.tracks.len(),
            state.song.tracks@.len() == nt,
            state@ == (RiffDAWStateView { song: SongView { tracks: state@.song.tracks, ..s2.song }, ..s2 }),
            forall|j: int| 0 <= j < t ==> #[trigger] track_renewed(s2.song.tracks[j], state@.song.tracks[j]),
            forall|j: int| t <= j < nt ==> state@.song.tracks[j] == s2.song.tracks[j],
        decreases nt - t,
    {
        let ghost before = state.song.tracks@;
        let ghost old_view = state@.song.tracks;
        renew_track(&mut state.song.tracks[t]);
        proof {
            assert forall|j: int| 0 <= j < nt && j != t implies state@.song.tracks[j] == old_view[j] by {
                assert(state.song.tracks@[j] == before[j]);
            }
            assert(state@.song.tracks[t as int] == state.song.tracks@[t as int]@);
            assert forall|j: int| 0 <= j < t + 1 implies #[trigger] track_renewed(s2.song.tracks[j], state@.song.tracks[j]) by {
                if j < t {
                    assert(track_renewed(s2.song.tracks[j], old_view[j]));
                }
            }
        }
        t = t + 1;
    }
}

} // verus!
