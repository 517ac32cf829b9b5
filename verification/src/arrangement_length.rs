//! How long the parts of a riff arrangement play.
//!
//! A riff set plays until its riffs line up again: the least common multiple of their
//! lengths in whole beats. A riff sequence plays its riff sets one after another; a riff
//! grid plays until its last riff placement ends. Lengths are in thousandths of a beat.
use vstd::prelude::*;
use crate::domain::{
    find_riff, find_riff_grid, find_riff_sequence, find_riff_set, find_track, riff_grid_has_id,
    riff_has_id, riff_sequence_has_id, riff_set_has_id, track_has_id, ItemId, RiffGridView,
    RiffItem, RiffItemType, RiffReference, RiffSetView, Song, SongView, TrackRiffReference,
    TrackRiffReferencesView,
};
use crate::numeric::{clamp_i32, clamp_i64, sat_add_i64, trunc_div};
use crate::seq_search::first_match;

verus! {

/// A length (thousandths of a beat) in whole beats, rounded toward zero within `i32`.
pub open spec fn whole_beats(length: i64) -> i32 {
    clamp_i32(trunc_div(length as int, 1000))
}

fn whole_beats_of(length: i64) -> (r: i32)
    ensures
        r == whole_beats(length),
{
    let q: i64 = if length >= 0 { length / 1000 } else { -((-(length as i128) / 1000) as i64) };
    assert(q == trunc_div(length as int, 1000));
    if q < i32::MIN as i64 { i32::MIN } else if q > i32::MAX as i64 { i32::MAX } else { q as i32 }
}

/// The length of the riff with an identifier on the track with an identifier (the first
/// of each), if both exist.
pub open spec fn riff_length_of(song: SongView, track_id: ItemId, riff_id: ItemId) -> Option<i64> {
    match first_match(song.tracks, track_has_id(track_id)) {
        Some(t) => match first_match(song.tracks[t].riffs, riff_has_id(riff_id)) {
            Some(r) => Some(song.tracks[t].riffs[r].length),
            None => None,
        },
        None => None,
    }
}

fn riff_length(song: &Song, track_id: ItemId, riff_id: ItemId) -> (r: Option<i64>)
    ensures
        r == riff_length_of(song@, track_id, riff_id),
{
    match find_track(&song.tracks, track_id) {
        Some(t) => match find_riff(&song.tracks[t].riffs, riff_id) {
            Some(r) => Some(song.tracks[t].riffs[r].length),
            None => None,
        },
        None => None,
    }
}

/// The whole-beat lengths of the riffs a riff set plays, in order, for the references
/// whose riff exists.
pub open spec fn riff_set_lengths(song: SongView, refs: Seq<TrackRiffReference>) -> Seq<i32>
    decreases refs.len(),
{
    if refs.len() == 0 {
        Seq::empty()
    } else {
        let rest = riff_set_lengths(song, refs.drop_last());
        match riff_length_of(song, refs.last().track_id, refs.last().riff_ref.linked_to) {
            Some(l) => rest.push(whole_beats(l)),
            None => rest,
        }
    }
}

pub open spec fn gcd(a: nat, b: nat) -> nat
    decreases b,
{
    if b == 0 {
        a
    } else {
        gcd(b, a % b)
    }
}

/// The least common multiple of two positive numbers.
pub open spec fn lcm(a: nat, b: nat) -> nat {
    a * b / gcd(a, b)
}

proof fn lemma_gcd_positive(a: nat, b: nat)
    requires
        a > 0 || b > 0,
    ensures
        gcd(a, b) > 0,
    decreases b,
{
    if b > 0 {
        lemma_gcd_positive(b, a % b);
    }
}

/// The least common multiple of whole-beat lengths, at most `i32::MAX`; no length, one
/// beat; a length that is not positive makes it 0.
pub open spec fn lcm_of(ls: Seq<i32>) -> int
    decreases ls.len(),
{
    if ls.len() == 0 {
        1
    } else {
        let a = lcm_of(ls.drop_last());
        let l = ls.last();
        if a <= 0 || l <= 0 {
            0
        } else {
            let m = lcm(a as nat, l as nat);
            if m > i32::MAX { i32::MAX as int } else { m as int }
        }
    }
}

proof fn lemma_lcm_of_range(ls: Seq<i32>)
    ensures
        0 <= lcm_of(ls) <= i32::MAX,
    decreases ls.len(),
{
    if ls.len() > 0 {
        lemma_lcm_of_range(ls.drop_last());
    }
}

fn gcd_of(a: u64, b: u64) -> (r: u64)
    ensures
        r == gcd(a as nat, b as nat),
{
    let mut x = a;
    let mut y = b;
    while y != 0
        invariant
            gcd(x as nat, y as nat) == gcd(a as nat, b as nat),
        decreases y,
    {
        let t = x % y;
        x = y;
        y = t;
    }
    x
}

fn lcm_step(a: i32, l: i32) -> (r: i32)
    requires
        0 < a,
        0 < l,
    ensures
        r == (if lcm(a as nat, l as nat) > i32::MAX { i32::MAX as int } else { lcm(a as nat, l as nat) as int }),
{
    let g = gcd_of(a as u64, l as u64);
    proof {
        lemma_gcd_positive(a as nat, l as nat);
    }
    let a64 = a as u64;
    let l64 = l as u64;
    assert(a64 * l64 <= 4611686018427387904) by (nonlinear_arith)
        requires
            a64 <= 2147483647,
            l64 <= 2147483647;
    let p: u64 = a64 * l64;
    let m: u64 = p / g;
    assert(m <= p) by (nonlinear_arith)
        requires
            m == p / g,
            g >= 1;
    if m > i32::MAX as u64 { i32::MAX } else { m as i32 }
}

/// The length (thousandths of a beat) a riff set plays.
pub open spec fn riff_set_length(song: SongView, set: RiffSetView) -> i64 {
    (lcm_of(riff_set_lengths(song, set.riff_refs)) * 1000) as i64
}

fn riff_set_length_of(song: &Song, set: &crate::domain::RiffSet) -> (r: i64)
    ensures
        r == riff_set_length(song@, set@),
{
    let ghost refs = set.riff_refs@;
    let mut acc: i32 = 1;
    let mut i: usize = 0;
    while i < set.riff_refs.len()
        invariant
            i <= refs.len(),
            refs == set.riff_refs@,
            acc == lcm_of(riff_set_lengths(song@, refs.take(i as int))),
        decreases refs.len() - i,
    {
        let rr = set.riff_refs[i];
        proof {
            assert(refs.take(i + 1).drop_last() =~= refs.take(i as int));
            lemma_lcm_of_range(riff_set_lengths(song@, refs.take(i as int)));
        }
        match riff_length(song, rr.track_id, rr.riff_ref.linked_to) {
            Some(len) => {
                let l = whole_beats_of(len);
                proof {
                    let ls = riff_set_lengths(song@, refs.take(i + 1));
                    assert(ls == riff_set_lengths(song@, refs.take(i as int)).push(l));
                    assert(ls.drop_last() =~= riff_set_lengths(song@, refs.take(i as int)));
                }
                if acc <= 0 || l <= 0 {
                    acc = 0;
                } else {
                    acc = lcm_step(acc, l);
                }
            },
            None => {},
        }
        i = i + 1;
    }
    assert(refs.take(refs.len() as int) =~= refs);
    proof {
        lemma_lcm_of_range(riff_set_lengths(song@, refs));
    }
    (acc as i64) * 1000
}

/// The end of the last placement of a grid track whose riff exists on the track (0 at least).
pub open spec fn placements_end(song: SongView, track_id: ItemId, refs: Seq<RiffReference>) -> i64
    decreases refs.len(),
{
    if refs.len() == 0 {
        0
    } else {
        let rest = placements_end(song, track_id, refs.drop_last());
        match riff_length_of(song, track_id, refs.last().linked_to) {
            Some(l) => {
                let end = clamp_i64(refs.last().position + l);
                if end > rest { end } else { rest }
            },
            None => rest,
        }
    }
}

/// The length a riff grid plays: the latest end of its placements.
pub open spec fn grid_end(song: SongView, tracks: Seq<TrackRiffReferencesView>) -> i64
    decreases tracks.len(),
{
    if tracks.len() == 0 {
        0
    } else {
        let rest = grid_end(song, tracks.drop_last());
        let e = placements_end(song, tracks.last().track_id, tracks.last().riff_refs);
        if e > rest { e } else { rest }
    }
}

pub open spec fn riff_grid_length(song: SongView, grid: RiffGridView) -> i64 {
    grid_end(song, grid.tracks)
}

fn placements_end_of(song: &Song, track_id: ItemId, refs: &Vec<RiffReference>) -> (r: i64)
    ensures
        r == placements_end(song@, track_id, refs@),
{
    let mut acc: i64 = 0;
    let mut i: usize = 0;
    while i < refs.len()
        invariant
            i <= refs@.len(),
            acc == placements_end(song@, track_id, refs@.take(i as int)),
        decreases refs@.len() - i,
    {
        let r = refs[i];
        proof {
            assert(refs@.take(i + 1).drop_last() =~= refs@.take(i as int));
        }
        match riff_length(song, track_id, r.linked_to) {
            Some(l) => {
                let end = sat_add_i64(r.position, l);
                if end > acc {
                    acc = end;
                }
            },
            None => {},
        }
        i = i + 1;
    }
    assert(refs@.take(refs@.len() as int) =~= refs@);
    acc
}

fn riff_grid_length_of(song: &Song, grid: &crate::domain::RiffGrid) -> (r: i64)
    ensures
        r == riff_grid_length(song@, grid@),
{
    let ghost tracks = grid@.tracks;
    let mut acc: i64 = 0;
    let mut i: usize = 0;
    while i < grid.tracks.len()
        invariant
            i <= tracks.len(),
            tracks == grid@.tracks,
            acc == grid_end(song@, tracks.take(i as int)),
        decreases tracks.len() - i,
    {
        let t = &grid.tracks[i];
        proof {
            assert(tracks.take(i + 1).drop_last() =~= tracks.take(i as int));
            assert(tracks[i as int] == t@);
        }
        let e = placements_end_of(song, t.track_id, &t.riff_refs);
        if e > acc {
            acc = e;
        }
        i = i + 1;
    }
    assert(tracks.take(tracks.len() as int) =~= tracks);
    acc
}

/// The length of the riff set with an identifier, or 0 when there is none.
pub open spec fn riff_set_length_by_id(song: SongView, id: ItemId) -> i64 {
    match first_match(song.riff_sets, riff_set_has_id(id)) {
        Some(i) => riff_set_length(song, song.riff_sets[i]),
        None => 0,
    }
}

fn riff_set_length_by(song: &Song, id: ItemId) -> (r: i64)
    ensures
        r == riff_set_length_by_id(song@, id),
{
    match find_riff_set(&song.riff_sets, id) {
        Some(i) => riff_set_length_of(song, &song.riff_sets[i]),
        None => 0,
    }
}

/// The riff sets of a sequence played one after another (saturating).
pub open spec fn sequence_length(song: SongView, items: Seq<RiffItem>) -> i64
    decreases items.len(),
{
    if items.len() == 0 {
        0
    } else {
        clamp_i64(sequence_length(song, items.drop_last()) + riff_set_length_by_id(song, items.last().item_uuid))
    }
}

fn sequence_length_of(song: &Song, items: &Vec<RiffItem>) -> (r: i64)
    ensures
        r == sequence_length(song@, items@),
{
    let mut acc: i64 = 0;
    let mut i: usize = 0;
    while i < items.len()
        invariant
            i <= items@.len(),
            acc == sequence_length(song@, items@.take(i as int)),
        decreases items@.len() - i,
    {
        proof {
            assert(items@.take(i + 1).drop_last() =~= items@.take(i as int));
        }
        let l = riff_set_length_by(song, items[i].item_uuid);
        acc = sat_add_i64(acc, l);
        i = i + 1;
    }
    assert(items@.take(items@.len() as int) =~= items@);
    acc
}

/// How long an item of an arrangement plays: a riff set item by its riff set; another
/// item by the riff sequence, else the riff grid, with its identifier.
pub open spec fn item_length(song: SongView, item: RiffItem) -> i64 {
    if item.item_type == RiffItemType::RiffSet {
        riff_set_length_by_id(song, item.item_uuid)
    } else {
        match first_match(song.riff_sequences, riff_sequence_has_id(item.item_uuid)) {
            Some(q) => sequence_length(song, song.riff_sequences[q].riff_sets),
            None => match first_match(song.riff_grids, riff_grid_has_id(item.item_uuid)) {
                Some(g) => riff_grid_length(song, song.riff_grids[g]),
                None => 0,
            },
        }
    }
}

pub fn item_length_of(song: &Song, item: RiffItem) -> (r: i64)
    ensures
        r == item_length(song@, item),
{
    match item.item_type {
        RiffItemType::RiffSet => riff_set_length_by(song, item.item_uuid),
        _ => match find_riff_sequence(&song.riff_sequences, item.item_uuid) {
            Some(q) => sequence_length_of(song, &song.riff_sequences[q].riff_sets),
            None => match find_riff_grid(&song.riff_grids, item.item_uuid) {
                Some(g) => riff_grid_length_of(song, &song.riff_grids[g]),
                None => 0,
            },
        },
    }
}

/// The items of an arrangement played one after another (saturating).
pub open spec fn items_length(song: SongView, items: Seq<RiffItem>) -> i64
    decreases items.len(),
{
    if items.len() == 0 {
        0
    } else {
        clamp_i64(items_length(song, items.drop_last()) + item_length(song, items.last()))
    }
}

pub fn items_length_of(song: &Song, items: &Vec<RiffItem>) -> (r: i64)
    ensures
        r == items_length(song@, items@),
{
    let mut acc: i64 = 0;
    let mut i: usize = 0;
    while i < items.len()
        invariant
            i <= items@.len(),
            acc == items_length(song@, items@.take(i as int)),
        decreases items@.len() - i,
    {
        proof {
            assert(items@.take(i + 1).drop_last() =~= items@.take(i as int));
        }
        let l = item_length_of(song, items[i]);
        acc = sat_add_i64(acc, l);
        i = i + 1;
    }
    assert(items@.take(items@.len() as int) =~= items@);
    acc
}

// ---------------------------------------------------------------------------
// Riff set lengths are common multiples.
// ---------------------------------------------------------------------------

pub open spec fn times(d: int, k: int) -> int {
    d * k
}

/// `d` divides `n`.
pub open spec fn divides(d: int, n: int) -> bool {
    exists|k: int| #[trigger] times(d, k) == n
}

proof fn lemma_gcd_divides(a: nat, b: nat)
    requires
        a > 0 || b > 0,
    ensures
        divides(gcd(a, b) as int, a as int),
        divides(gcd(a, b) as int, b as int),
    decreases b,
{
    if b == 0 {
        assert(times(a as int, 1) == a as int);
        assert(times(a as int, 0) == 0int);
    } else {
        lemma_gcd_divides(b, a % b);
        let g = gcd(b, a % b) as int;
        let k1 = choose|k: int| times(g, k) == b as int;
        let k2 = choose|k: int| times(g, k) == (a % b) as int;
        let q = (a / b) as int;
        vstd::arithmetic::div_mod::lemma_fundamental_div_mod(a as int, b as int);
        assert(a as int == g * (q * k1 + k2)) by (nonlinear_arith)
            requires
                a as int == (b as int) * q + (a % b) as int,
                b as int == g * k1,
                (a % b) as int == g * k2;
        assert(times(g, q * k1 + k2) == a as int);
    }
}

proof fn lemma_divides_trans(d: int, n: int, m: int)
    requires
        divides(d, n),
        divides(n, m),
    ensures
        divides(d, m),
{
    let k1 = choose|k: int| times(d, k) == n;
    let k2 = choose|k: int| times(n, k) == m;
    assert(m == d * (k1 * k2)) by (nonlinear_arith)
        requires
            n == d * k1,
            m == n * k2;
    assert(times(d, k1 * k2) == m);
}

/// The least common multiple of two positive numbers is a multiple of both, and at
/// least the first.
pub proof fn law_lcm_is_common_multiple(a: nat, b: nat)
    requires
        a > 0,
        b > 0,
    ensures
        divides(a as int, lcm(a, b) as int),
        divides(b as int, lcm(a, b) as int),
        lcm(a, b) >= a,
{
    lemma_gcd_positive(a, b);
    lemma_gcd_divides(a, b);
    let g = gcd(a, b) as int;
    let ka = choose|k: int| times(g, k) == a as int;
    let kb = choose|k: int| times(g, k) == b as int;
    assert((a * b) as int == g * (ka * (b as int))) by (nonlinear_arith)
        requires
            a as int == g * ka;
    vstd::arithmetic::div_mod::lemma_div_multiples_vanish(ka * (b as int), g);
    assert(lcm(a, b) as int == ka * (b as int));
    assert(ka * (b as int) == (a as int) * kb) by (nonlinear_arith)
        requires
            a as int == g * ka,
            b as int == g * kb;
    assert(kb >= 1) by (nonlinear_arith)
        requires
            b as int == g * kb,
            b > 0,
            g > 0;
    assert((a as int) * kb >= a as int) by (nonlinear_arith)
        requires
            kb >= 1,
            a > 0;
    assert(times(b as int, ka) == lcm(a, b) as int);
    assert(times(a as int, kb) == lcm(a, b) as int);
}

/// Below the cap, the length folded from whole-beat lengths (all positive) is a multiple
/// of each of them.
pub proof fn law_lcm_of_is_common_multiple(ls: Seq<i32>)
    requires
        forall|i: int| 0 <= i < ls.len() ==> #[trigger] ls[i] > 0,
        lcm_of(ls) < i32::MAX,
    ensures
        forall|i: int| 0 <= i < ls.len() ==> divides(#[trigger] ls[i] as int, lcm_of(ls)),
        lcm_of(ls) > 0,
    decreases ls.len(),
{
    if ls.len() > 0 {
        let t = ls.drop_last();
        let l = ls.last();
        lemma_lcm_of_range(t);
        let a = lcm_of(t);
        if a <= 0 {
            assert(lcm_of(ls) == 0);
            assert(a == 0);
            lemma_lcm_of_zero_sticks(t);
            assert(false);
        }
        law_lcm_is_common_multiple(a as nat, l as nat);
        assert(lcm_of(ls) == lcm(a as nat, l as nat) as int);
        assert(a < i32::MAX);
        assert forall|i: int| 0 <= i < t.len() implies #[trigger] t[i] > 0 by {
            assert(t[i] == ls[i]);
        }
        law_lcm_of_is_common_multiple(t);
        assert forall|i: int| 0 <= i < ls.len() implies divides(#[trigger] ls[i] as int, lcm_of(ls)) by {
            if i < ls.len() - 1 {
                assert(ls[i] == t[i]);
                lemma_divides_trans(ls[i] as int, a, lcm_of(ls));
            }
        }
    }
}

/// With all lengths positive the fold never reaches 0.
proof fn lemma_lcm_of_zero_sticks(ls: Seq<i32>)
    requires
        forall|i: int| 0 <= i < ls.len() ==> #[trigger] ls[i] > 0,
    ensures
        lcm_of(ls) > 0,
    decreases ls.len(),
{
    if ls.len() > 0 {
        let t = ls.drop_last();
        assert forall|i: int| 0 <= i < t.len() implies #[trigger] t[i] > 0 by {
            assert(t[i] == ls[i]);
        }
        lemma_lcm_of_zero_sticks(t);
        lemma_lcm_of_range(t);
        let a = lcm_of(t);
        law_lcm_is_common_multiple(a as nat, ls.last() as nat);
    }
}

/// A riff set plays a whole number of times every riff it holds, when their lengths are
/// whole positive beats and below the cap.
pub proof fn law_riff_set_length_is_common_multiple(song: SongView, set: RiffSetView)
    requires
        forall|i: int| 0 <= i < riff_set_lengths(song, set.riff_refs).len() ==> #[trigger] riff_set_lengths(song, set.riff_refs)[i] > 0,
        lcm_of(riff_set_lengths(song, set.riff_refs)) < i32::MAX,
    ensures
        forall|i: int| 0 <= i < riff_set_lengths(song, set.riff_refs).len()
            ==> divides(#[trigger] riff_set_lengths(song, set.riff_refs)[i] as int * 1000, riff_set_length(song, set) as int),
{
    let ls = riff_set_lengths(song, set.riff_refs);
    law_lcm_of_is_common_multiple(ls);
    lemma_lcm_of_range(ls);
    assert forall|i: int| 0 <= i < ls.len() implies divides(#[trigger] ls[i] as int * 1000, riff_set_length(song, set) as int) by {
        let k = choose|k: int| times(ls[i] as int, k) == lcm_of(ls);
        assert(lcm_of(ls) * 1000 == (ls[i] as int * 1000) * k) by (nonlinear_arith)
            requires
                lcm_of(ls) == (ls[i] as int) * k;
        assert(riff_set_length(song, set) as int == lcm_of(ls) * 1000);
        assert(times(ls[i] as int * 1000, k) == riff_set_length(song, set) as int);
    }
}

/// Coefficients that combine two numbers into their greatest common divisor.
proof fn lemma_bezout(a: nat, b: nat) -> (r: (int, int))
    ensures
        (a as int) * r.0 + (b as int) * r.1 == gcd(a, b) as int,
    decreases b,
{
    if b == 0 {
        assert((a as int) * 1 + (b as int) * 0 == a as int) by (nonlinear_arith);
        (1, 0)
    } else {
        let (x, y) = lemma_bezout(b, a % b);
        let q = (a / b) as int;
        vstd::arithmetic::div_mod::lemma_fundamental_div_mod(a as int, b as int);
        let g = gcd(a, b) as int;
        assert((a as int) * y + (b as int) * (x - q * y) == g) by (nonlinear_arith)
            requires
                (b as int) * x + ((a % b) as int) * y == g,
                a as int == (b as int) * q + (a % b) as int;
        (y, x - q * y)
    }
}

/// The least common multiple of two positive numbers divides every common multiple of
/// them: no smaller common multiple is missed.
pub proof fn law_lcm_divides_common_multiples(a: nat, b: nat, m: int)
    requires
        a > 0,
        b > 0,
        divides(a as int, m),
        divides(b as int, m),
    ensures
        divides(lcm(a, b) as int, m),
{
    lemma_gcd_positive(a, b);
    lemma_gcd_divides(a, b);
    let g = gcd(a, b) as int;
    let ka = choose|k: int| times(g, k) == a as int;
    let p = choose|k: int| times(a as int, k) == m;
    let q = choose|k: int| times(b as int, k) == m;
    let (x, y) = lemma_bezout(a, b);
    assert((a * b) as int == g * (ka * (b as int))) by (nonlinear_arith)
        requires
            a as int == g * ka;
    vstd::arithmetic::div_mod::lemma_div_multiples_vanish(ka * (b as int), g);
    assert(lcm(a, b) as int == ka * (b as int));
    let k = x * q + y * p;
    assert(g * m == g * (ka * (b as int) * k)) by (nonlinear_arith)
        requires
            (a as int) * x + (b as int) * y == g,
            a as int == g * ka,
            m == (a as int) * p,
            m == (b as int) * q,
            k == x * q + y * p;
    assert(m == ka * (b as int) * k) by (nonlinear_arith)
        requires
            g * m == g * (ka * (b as int) * k),
            g > 0;
    assert(times(lcm(a, b) as int, k) == m);
}

/// Folding positive whole-beat lengths gives their least common multiple: it divides
/// every positive common multiple that fits in `i32`.
pub proof fn law_lcm_of_divides_common_multiples(ls: Seq<i32>, m: int)
    requires
        forall|i: int| 0 <= i < ls.len() ==> #[trigger] ls[i] > 0,
        forall|i: int| 0 <= i < ls.len() ==> divides(#[trigger] ls[i] as int, m),
        0 < m <= i32::MAX,
    ensures
        divides(lcm_of(ls), m),
    decreases ls.len(),
{
    if ls.len() == 0 {
        assert(times(1, m) == m);
    } else {
        let t = ls.drop_last();
        let l = ls.last();
        assert forall|i: int| 0 <= i < t.len() implies #[trigger] t[i] > 0 by {
            assert(t[i] == ls[i]);
        }
        assert forall|i: int| 0 <= i < t.len() implies divides(#[trigger] t[i] as int, m) by {
            assert(t[i] == ls[i]);
        }
        law_lcm_of_divides_common_multiples(t, m);
        lemma_lcm_of_zero_sticks(t);
        lemma_lcm_of_range(t);
        let a = lcm_of(t);
        assert(divides(l as int, m)) by {
            assert(ls[ls.len() - 1] == l);
        }
        law_lcm_divides_common_multiples(a as nat, l as nat, m);
        let c = lcm(a as nat, l as nat) as int;
        let k = choose|k: int| times(c, k) == m;
        law_lcm_is_common_multiple(a as nat, l as nat);
        assert(c <= m) by (nonlinear_arith)
            requires
                c * k == m,
                c >= 1,
                m > 0;
        assert(lcm_of(ls) == c);
    }
}

/// A riff set plays the least common multiple of its riffs' whole-beat lengths: its
/// length divides every positive common multiple of them that fits in `i32` (in
/// thousandths of a beat), so no shorter common length is skipped.
pub proof fn law_riff_set_length_is_least(song: SongView, set: RiffSetView, beats: int)
    requires
        forall|i: int| 0 <= i < riff_set_lengths(song, set.riff_refs).len() ==> #[trigger] riff_set_lengths(song, set.riff_refs)[i] > 0,
        forall|i: int| 0 <= i < riff_set_lengths(song, set.riff_refs).len()
            ==> divides(#[trigger] riff_set_lengths(song, set.riff_refs)[i] as int, beats),
        0 < beats <= i32::MAX,
    ensures
        divides(riff_set_length(song, set) as int, beats * 1000),
{
    let ls = riff_set_lengths(song, set.riff_refs);
    law_lcm_of_divides_common_multiples(ls, beats);
    lemma_lcm_of_range(ls);
    let k = choose|k: int| times(lcm_of(ls), k) == beats;
    assert(riff_set_length(song, set) as int == lcm_of(ls) * 1000);
    assert(lcm_of(ls) * 1000 * k == beats * 1000) by (nonlinear_arith)
        requires
            lcm_of(ls) * k == beats;
    assert(times(riff_set_length(song, set) as int, k) == beats * 1000);
}

} // verus!
