//! One generation of the life rule, computed from an immutable snapshot.
use crate::cells::LiveCellSet;
use crate::codec::{decode_coord, encode_coord, key_spec, key_x, key_y, lemma_decode_encode, lemma_encode_decode};
use rayon::iter::{IndexedParallelIterator, IntoParallelRefIterator, ParallelIterator};
use vstd::prelude::*;

verus! {

broadcast use vstd::laws_cmp::group_laws_cmp;

/// Whether `(x, y)` lies on the `i32 × i32` plane.
pub open spec fn on_plane(x: int, y: int) -> bool {
    i32::MIN <= x <= i32::MAX && i32::MIN <= y <= i32::MAX
}

/// Whether the cell at `(x, y)` is live in the snapshot `s`. Positions off
/// the plane are never live.
pub open spec fn live_at(s: Set<u64>, x: int, y: int) -> bool {
    on_plane(x, y) && s.contains(key_spec(x as i32, y as i32))
}

/// 1 for a live cell, 0 for a dead one.
pub open spec fn live_count(b: bool) -> int {
    if b {
        1
    } else {
        0
    }
}

/// How many of the eight Moore neighbours of `(x, y)` are live in `s`.
pub open spec fn neighbor_count(s: Set<u64>, x: int, y: int) -> int {
    live_count(live_at(s, x - 1, y - 1)) + live_count(live_at(s, x, y - 1)) + live_count(
        live_at(s, x + 1, y - 1),
    ) + live_count(live_at(s, x - 1, y)) + live_count(live_at(s, x + 1, y)) + live_count(
        live_at(s, x - 1, y + 1),
    ) + live_count(live_at(s, x, y + 1)) + live_count(live_at(s, x + 1, y + 1))
}

/// The rule: a live cell survives on 2 or 3 live neighbours, a dead cell is
/// born on exactly 3.
pub open spec fn next_alive(s: Set<u64>, x: int, y: int) -> bool {
    if live_at(s, x, y) {
        2 <= neighbor_count(s, x, y) <= 3
    } else {
        neighbor_count(s, x, y) == 3
    }
}

/// Whether the rule makes the cell of key `k` live after the snapshot `s`.
pub open spec fn key_next_alive(s: Set<u64>, k: u64) -> bool {
    next_alive(s, key_x(k) as int, key_y(k) as int)
}

/// The generation that follows the snapshot `s`: every key whose cell the
/// rule makes live.
pub open spec fn next_generation(s: Set<u64>) -> Set<u64> {
    Set::new(|k: u64| key_next_alive(s, k))
}

/// Whether the cell of `k` is one of the eight neighbours of `(x, y)`.
pub open spec fn adjacent(x: int, y: int, k: u64) -> bool {
    let dx = key_x(k) - x;
    let dy = key_y(k) - y;
    -1 <= dx <= 1 && -1 <= dy <= 1 && !(dx == 0 && dy == 0)
}

/// The keys of the neighbours of `(x, y)` that are dead in `s`: the birth
/// candidates that a live cell there contributes.
pub open spec fn dead_neighbors(s: Set<u64>, x: int, y: int) -> Set<u64> {
    Set::new(|k: u64| adjacent(x, y, k) && !s.contains(k))
}

/// The key of `(x, y)` if that position is on the plane and dead in `s`;
/// nothing otherwise.
pub open spec fn dead_slot(s: Set<u64>, x: int, y: int) -> Set<u64> {
    Set::new(|k: u64| on_plane(x, y) && !live_at(s, x, y) && k == key_spec(x as i32, y as i32))
}

/// The dead neighbours of `(x, y)`, one position at a time.
pub open spec fn dead_slots(s: Set<u64>, x: int, y: int) -> Set<u64> {
    dead_slot(s, x - 1, y - 1).union(dead_slot(s, x, y - 1)).union(dead_slot(s, x + 1, y - 1)).union(
        dead_slot(s, x - 1, y),
    ).union(dead_slot(s, x + 1, y)).union(dead_slot(s, x - 1, y + 1)).union(dead_slot(s, x, y + 1)).union(
        dead_slot(s, x + 1, y + 1),
    )
}

proof fn lemma_dead_slots(s: Set<u64>, x: i32, y: i32)
    ensures
        dead_neighbors(s, x as int, y as int) == dead_slots(s, x as int, y as int),
{
    let d = dead_neighbors(s, x as int, y as int);
    let e = dead_slots(s, x as int, y as int);
    assert forall|k: u64| #[trigger] d.contains(k) implies e.contains(k) by {
        lemma_encode_decode(k);
        let kx = key_x(k) as int;
        let ky = key_y(k) as int;
        assert(dead_slot(s, kx, ky).contains(k));
    }
    assert forall|k: u64| #[trigger] e.contains(k) implies d.contains(k) by {
        lemma_neighbor_keys(x, y);
        if dead_slot(s, x - 1, y - 1).contains(k) {
            assert(adjacent(x as int, y as int, key_spec((x + -1) as i32, (y + -1) as i32)));
        } else if dead_slot(s, x as int, y - 1).contains(k) {
            assert(adjacent(x as int, y as int, key_spec((x + 0) as i32, (y + -1) as i32)));
        } else if dead_slot(s, x + 1, y - 1).contains(k) {
            assert(adjacent(x as int, y as int, key_spec((x + 1) as i32, (y + -1) as i32)));
        } else if dead_slot(s, x - 1, y as int).contains(k) {
            assert(adjacent(x as int, y as int, key_spec((x + -1) as i32, (y + 0) as i32)));
        } else if dead_slot(s, x + 1, y as int).contains(k) {
            assert(adjacent(x as int, y as int, key_spec((x + 1) as i32, (y + 0) as i32)));
        } else if dead_slot(s, x - 1, y + 1).contains(k) {
            assert(adjacent(x as int, y as int, key_spec((x + -1) as i32, (y + 1) as i32)));
        } else if dead_slot(s, x as int, y + 1).contains(k) {
            assert(adjacent(x as int, y as int, key_spec((x + 0) as i32, (y + 1) as i32)));
        } else {
            assert(adjacent(x as int, y as int, key_spec((x + 1) as i32, (y + 1) as i32)));
        }
    }
    assert(d =~= e);
}

/// A position that is on the plane and dead in `s` is in `c`.
pub open spec fn dead_recorded(s: Set<u64>, c: Set<u64>, x: int, y: int) -> bool {
    on_plane(x, y) && !live_at(s, x, y) ==> c.contains(key_spec(x as i32, y as i32))
}

/// Every dead neighbour of the cell of `k` is in `c`.
pub open spec fn ring_recorded(s: Set<u64>, c: Set<u64>, k: u64) -> bool {
    let x = key_x(k) as int;
    let y = key_y(k) as int;
    &&& dead_recorded(s, c, x - 1, y - 1)
    &&& dead_recorded(s, c, x, y - 1)
    &&& dead_recorded(s, c, x + 1, y - 1)
    &&& dead_recorded(s, c, x - 1, y)
    &&& dead_recorded(s, c, x + 1, y)
    &&& dead_recorded(s, c, x - 1, y + 1)
    &&& dead_recorded(s, c, x, y + 1)
    &&& dead_recorded(s, c, x + 1, y + 1)
}

/// Whether the cell at `(x + dx, y + dy)` is live; a position off the plane
/// is dead rather than wrapped.
fn live_offset(cells: &LiveCellSet, x: i32, y: i32, dx: i32, dy: i32) -> (r: bool)
    requires
        -1 <= dx <= 1,
        -1 <= dy <= 1,
    ensures
        r == live_at(cells@, x + dx, y + dy),
{
    match (x.checked_add(dx), y.checked_add(dy)) {
        (Some(nx), Some(ny)) => cells.contains(encode_coord(nx, ny)),
        _ => false,
    }
}

fn count_of(b: bool) -> (r: u8)
    ensures
        r == live_count(b),
{
    if b {
        1
    } else {
        0
    }
}

/// The number of live cells among the eight neighbours of `(x, y)`.
fn count_ring(cells: &LiveCellSet, x: i32, y: i32) -> (r: u8)
    ensures
        r == neighbor_count(cells@, x as int, y as int),
{
    count_of(live_offset(cells, x, y, -1, -1)) + count_of(live_offset(cells, x, y, 0, -1))
        + count_of(live_offset(cells, x, y, 1, -1)) + count_of(live_offset(cells, x, y, -1, 0))
        + count_of(live_offset(cells, x, y, 1, 0)) + count_of(live_offset(cells, x, y, -1, 1))
        + count_of(live_offset(cells, x, y, 0, 1)) + count_of(live_offset(cells, x, y, 1, 1))
}

/// The live neighbours of a cell that is dead in the snapshot; 0 for a cell
/// that turns out to be live, which is then no birth candidate.
pub fn count_neighbors(cells: &LiveCellSet, x: i32, y: i32) -> (r: u8)
    ensures
        !live_at(cells@, x as int, y as int) ==> r == neighbor_count(cells@, x as int, y as int),
        live_at(cells@, x as int, y as int) ==> r == 0,
{
    if cells.contains(encode_coord(x, y)) {
        0
    } else {
        count_ring(cells, x, y)
    }
}

/// The live neighbours of a cell that is live in the snapshot: the live
/// cells of its 3×3 block, less the cell itself.
pub fn count_live_block_neighbors(cells: &LiveCellSet, x: i32, y: i32) -> (r: u8)
    requires
        live_at(cells@, x as int, y as int),
    ensures
        r == neighbor_count(cells@, x as int, y as int),
{
    let block = count_ring(cells, x, y) + count_of(live_offset(cells, x, y, 0, 0));
    block - 1
}

/// Whether the rule makes the cell of `key` live in the next generation.
pub fn next_alive_key(cells: &LiveCellSet, key: u64) -> (r: bool)
    ensures
        r == next_alive(cells@, key_x(key) as int, key_y(key) as int),
{
    let (x, y) = decode_coord(key);
    proof {
        lemma_encode_decode(key);
    }
    if cells.contains(key) {
        let count = count_live_block_neighbors(cells, x, y);
        2 <= count && count <= 3
    } else {
        count_neighbors(cells, x, y) == 3
    }
}

/// Puts `(x + dx, y + dy)` among the birth candidates when it is on the
/// plane and dead in the snapshot.
fn note_candidate(cells: &LiveCellSet, x: i32, y: i32, dx: i32, dy: i32, candidates: &mut LiveCellSet)
    requires
        -1 <= dx <= 1,
        -1 <= dy <= 1,
    ensures
        final(candidates)@ == old(candidates)@.union(dead_slot(cells@, x + dx, y + dy)),
{
    proof {
        if on_plane(x + dx, y + dy) && !live_at(cells@, x + dx, y + dy) {
            assert(dead_slot(cells@, x + dx, y + dy) =~= set![key_spec((x + dx) as i32, (y + dy) as i32)]);
        } else {
            assert(dead_slot(cells@, x + dx, y + dy) =~= Set::<u64>::empty());
        }
    }
    if let (Some(nx), Some(ny)) = (x.checked_add(dx), y.checked_add(dy)) {
        let key = encode_coord(nx, ny);
        if !cells.contains(key) {
            candidates.insert(key);
        }
    }
}

/// Puts every dead neighbour of the live cell `(x, y)` among the birth
/// candidates.
pub fn record_candidates(cells: &LiveCellSet, x: i32, y: i32, candidates: &mut LiveCellSet)
    ensures
        final(candidates)@ == old(candidates)@.union(dead_neighbors(cells@, x as int, y as int)),
        ring_recorded(cells@, final(candidates)@, key_spec(x, y)),
{
    let ghost start = candidates@;
    note_candidate(cells, x, y, -1, -1, candidates);
    note_candidate(cells, x, y, 0, -1, candidates);
    note_candidate(cells, x, y, 1, -1, candidates);
    note_candidate(cells, x, y, -1, 0, candidates);
    note_candidate(cells, x, y, 1, 0, candidates);
    note_candidate(cells, x, y, -1, 1, candidates);
    note_candidate(cells, x, y, 0, 1, candidates);
    note_candidate(cells, x, y, 1, 1, candidates);
    proof {
        lemma_dead_slots(cells@, x, y);
        lemma_decode_encode(x, y);
        assert(candidates@ =~= start.union(dead_slots(cells@, x as int, y as int)));
    }
}

/// The keys of the eight neighbours of `(x, y)` that lie on the plane are
/// adjacent to it.
proof fn lemma_neighbor_keys(x: i32, y: i32)
    ensures
        forall|dx: int, dy: int|
            -1 <= dx <= 1 && -1 <= dy <= 1 && !(dx == 0 && dy == 0) && on_plane(x + dx, y + dy)
                ==> adjacent(x as int, y as int, #[trigger] key_spec((x + dx) as i32, (y + dy) as i32)),
{
    assert forall|dx: int, dy: int|
        -1 <= dx <= 1 && -1 <= dy <= 1 && !(dx == 0 && dy == 0) && on_plane(
            x + dx,
            y + dy,
        ) implies adjacent(x as int, y as int, #[trigger] key_spec((x + dx) as i32, (y + dy) as i32)) by {
        lemma_decode_encode((x + dx) as i32, (y + dy) as i32);
    }
}

/// Relies on rayon's `par_iter().map(..).collect_into_vec(..)` over a slice,
/// which yields one result per item in the items' order; each result is that
/// of `next_alive_key` on the item.
#[verifier::external_body]
fn par_next_alive(cells: &LiveCellSet, keys: &Vec<u64>) -> (r: Vec<bool>)
    ensures
        r@.len() == keys@.len(),
        forall|i: int| 0 <= i < keys@.len() ==> r@[i] == key_next_alive(cells@, #[trigger] keys@[i]),
{
    let mut r: Vec<bool> = Vec::new();
    keys.par_iter().map(|k| next_alive_key(cells, *k)).collect_into_vec(&mut r);
    r
}

/// A dead cell with a live neighbour at `(x + dx, y + dy)` is among the
/// candidates once the dead neighbours of every live cell are.
proof fn lemma_candidate_from_neighbor(s: Set<u64>, c: Set<u64>, x: i32, y: i32, dx: int, dy: int)
    requires
        -1 <= dx <= 1,
        -1 <= dy <= 1,
        dx != 0 || dy != 0,
        live_at(s, x + dx, y + dy),
        !live_at(s, x as int, y as int),
        forall|n: u64| s.contains(n) ==> #[trigger] ring_recorded(s, c, n),
    ensures
        c.contains(key_spec(x, y)),
{
    let n = key_spec((x + dx) as i32, (y + dy) as i32);
    lemma_decode_encode((x + dx) as i32, (y + dy) as i32);
    assert(ring_recorded(s, c, n));
}

/// A cell that is dead in `s` and born after it is among the candidates.
proof fn lemma_births_are_candidates(s: Set<u64>, c: Set<u64>, k: u64)
    requires
        !s.contains(k),
        key_next_alive(s, k),
        forall|n: u64| s.contains(n) ==> #[trigger] ring_recorded(s, c, n),
    ensures
        c.contains(k),
{
    let x = key_x(k);
    let y = key_y(k);
    lemma_encode_decode(k);
    if live_at(s, x - 1, y - 1) {
        lemma_candidate_from_neighbor(s, c, x, y, -1, -1);
    } else if live_at(s, x as int, y - 1) {
        lemma_candidate_from_neighbor(s, c, x, y, 0, -1);
    } else if live_at(s, x + 1, y - 1) {
        lemma_candidate_from_neighbor(s, c, x, y, 1, -1);
    } else if live_at(s, x - 1, y as int) {
        lemma_candidate_from_neighbor(s, c, x, y, -1, 0);
    } else if live_at(s, x + 1, y as int) {
        lemma_candidate_from_neighbor(s, c, x, y, 1, 0);
    } else if live_at(s, x - 1, y + 1) {
        lemma_candidate_from_neighbor(s, c, x, y, -1, 1);
    } else if live_at(s, x as int, y + 1) {
        lemma_candidate_from_neighbor(s, c, x, y, 0, 1);
    } else {
        lemma_candidate_from_neighbor(s, c, x, y, 1, 1);
    }
}

/// The next generation of `cells`, computed from `cells` alone: a parallel
/// pass decides the fate of every live cell while the dead neighbours of
/// the live cells are gathered as birth candidates, then a second parallel
/// pass decides the fate of every candidate.
pub fn find_living(cells: &LiveCellSet) -> (r: LiveCellSet)
    ensures
        r@ == next_generation(cells@),
{
    let live = cells.to_vec();
    let mut next = LiveCellSet::new();
    let mut candidates = LiveCellSet::new();
    let survive = par_next_alive(cells, &live);
    let mut i: usize = 0;
    while i < live.len()
        invariant
            survive@.len() == live@.len(),
            forall|j: int| 0 <= j < live@.len() ==> survive@[j] == key_next_alive(cells@, #[trigger] live@[j]),
            i <= live@.len(),
            forall|k: u64| #[trigger] next@.contains(k) ==> key_next_alive(cells@, k),
            forall|j: int| 0 <= j < i ==> key_next_alive(cells@, #[trigger] live@[j]) ==> next@.contains(live@[j]),
            forall|j: int| 0 <= j < i ==> #[trigger] ring_recorded(cells@, candidates@, live@[j]),
        decreases live@.len() - i,
    {
        let (x, y) = decode_coord(live[i]);
        proof {
            lemma_encode_decode(live@[i as int]);
        }
        let ghost before = candidates@;
        record_candidates(cells, x, y, &mut candidates);
        assert forall|j: int| 0 <= j < i implies #[trigger] ring_recorded(cells@, candidates@, live@[j]) by {
            assert(ring_recorded(cells@, before, live@[j]));
        }
        if survive[i] {
            next.insert(live[i]);
        }
        i = i + 1;
    }
    let ghost gathered = candidates@;
    assert forall|n: u64| cells@.contains(n) implies #[trigger] ring_recorded(cells@, gathered, n) by {
        assert(live@.to_set().contains(n));
        let j = choose|j: int| 0 <= j < live@.len() && live@[j] == n;
        assert(ring_recorded(cells@, gathered, live@[j]));
    }
    let births = candidates.to_vec();
    let born = par_next_alive(cells, &births);
    let mut i: usize = 0;
    while i < births.len()
        invariant
            born@.len() == births@.len(),
            forall|j: int| 0 <= j < births@.len() ==> born@[j] == key_next_alive(cells@, #[trigger] births@[j]),
            i <= births@.len(),
            forall|k: u64| #[trigger] next@.contains(k) ==> key_next_alive(cells@, k),
            forall|j: int| 0 <= j < live@.len() ==> key_next_alive(cells@, #[trigger] live@[j]) ==> next@.contains(live@[j]),
            forall|j: int| 0 <= j < i ==> key_next_alive(cells@, #[trigger] births@[j]) ==> next@.contains(births@[j]),
        decreases births@.len() - i,
    {
        if born[i] {
            next.insert(births[i]);
        }
        i = i + 1;
    }
    assert forall|k: u64| key_next_alive(cells@, k) implies #[trigger] next@.contains(k) by {
        if cells@.contains(k) {
            assert(live@.to_set().contains(k));
            let j = choose|j: int| 0 <= j < live@.len() && live@[j] == k;
            assert(key_next_alive(cells@, live@[j]));
        } else {
            lemma_births_are_candidates(cells@, gathered, k);
            assert(births@.to_set().contains(k));
            let j = choose|j: int| 0 <= j < births@.len() && births@[j] == k;
            assert(key_next_alive(cells@, births@[j]));
        }
    }
    assert(next@ =~= next_generation(cells@));
    next
}

/// A live cell is in the next generation exactly when 2 or 3 of its
/// neighbours are live; with 0, 1 or 4 and more it dies.
pub proof fn lemma_survival(s: Set<u64>, x: i32, y: i32)
    requires
        s.contains(key_spec(x, y)),
    ensures
        next_generation(s).contains(key_spec(x, y)) <==> (neighbor_count(s, x as int, y as int) == 2
            || neighbor_count(s, x as int, y as int) == 3),
{
    lemma_decode_encode(x, y);
}

/// A dead cell is in the next generation exactly when 3 of its neighbours
/// are live.
pub proof fn lemma_birth(s: Set<u64>, x: i32, y: i32)
    requires
        !s.contains(key_spec(x, y)),
    ensures
        next_generation(s).contains(key_spec(x, y)) <==> neighbor_count(s, x as int, y as int) == 3,
{
    lemma_decode_encode(x, y);
}

/// Whether a cell is in the next generation depends on nothing but which
/// cells of its own 3×3 block are live in the snapshot.
pub proof fn lemma_locality(s1: Set<u64>, s2: Set<u64>, x: i32, y: i32)
    requires
        forall|dx: int, dy: int|
            -1 <= dx <= 1 && -1 <= dy <= 1 ==> #[trigger] live_at(s1, x + dx, y + dy) == live_at(
                s2,
                x + dx,
                y + dy,
            ),
    ensures
        next_generation(s1).contains(key_spec(x, y)) == next_generation(s2).contains(key_spec(x, y)),
{
    lemma_decode_encode(x, y);
    assert(live_at(s1, x + 0, y + 0) == live_at(s2, x + 0, y + 0));
    assert(live_at(s1, x + -1, y + -1) == live_at(s2, x + -1, y + -1));
    assert(live_at(s1, x + 0, y + -1) == live_at(s2, x + 0, y + -1));
    assert(live_at(s1, x + 1, y + -1) == live_at(s2, x + 1, y + -1));
    assert(live_at(s1, x + -1, y + 0) == live_at(s2, x + -1, y + 0));
    assert(live_at(s1, x + 1, y + 0) == live_at(s2, x + 1, y + 0));
    assert(live_at(s1, x + -1, y + 1) == live_at(s2, x + -1, y + 1));
    assert(live_at(s1, x + 0, y + 1) == live_at(s2, x + 0, y + 1));
    assert(live_at(s1, x + 1, y + 1) == live_at(s2, x + 1, y + 1));
}

/// Every cell of the next generation is live in the snapshot or has a live
/// neighbour there: nothing appears away from the snapshot's cells.
pub proof fn lemma_next_near_snapshot(s: Set<u64>, k: u64)
    requires
        next_generation(s).contains(k),
    ensures
        s.contains(k) || neighbor_count(s, key_x(k) as int, key_y(k) as int) > 0,
{
}

} // verus!
