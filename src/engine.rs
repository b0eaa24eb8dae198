//! The generation rule of the Game of Life, applied to every cell at once.
use crate::neighbors::{count_live_neighbors, live_neighbor_count};
use crate::store::CellStore;
use vstd::prelude::*;

verus! {

/// Whether a cell is alive in the next generation, given whether it is alive
/// now and how many live neighbours it has: three neighbours give life, two
/// keep a live cell alive, any other count gives death.
pub open spec fn next_state(alive: bool, neighbors: int) -> bool {
    neighbors == 3 || (neighbors == 2 && alive)
}

/// The generation that follows `alive` on a grid of side `n`, every cell
/// being judged against the unchanged current generation.
pub open spec fn next_generation(n: int, alive: Seq<bool>) -> Seq<bool> {
    Seq::new(alive.len(), |i: int| next_state(alive[i], live_neighbor_count(n, alive, i)))
}

/// The flags of a grid of `total` cells in which exactly the cells of `ids`
/// are alive.
pub open spec fn alive_exactly(total: int, ids: Seq<usize>) -> Seq<bool> {
    Seq::new(total as nat, |i: int| ids.contains(i as usize))
}

/// A cell with exactly three live neighbours is alive in the next
/// generation, whether it is alive now or not.
pub proof fn lemma_three_neighbors_give_life(n: int, alive: Seq<bool>, id: int)
    requires
        0 <= id < alive.len(),
        live_neighbor_count(n, alive, id) == 3,
    ensures
        next_generation(n, alive)[id],
{
}

/// A live cell with exactly two live neighbours stays alive; with zero, one,
/// or four or more it dies.
pub proof fn lemma_live_cell_fate(n: int, alive: Seq<bool>, id: int)
    requires
        0 <= id < alive.len(),
        alive[id],
    ensures
        live_neighbor_count(n, alive, id) == 2 ==> next_generation(n, alive)[id],
        live_neighbor_count(n, alive, id) <= 1 ==> !next_generation(n, alive)[id],
        live_neighbor_count(n, alive, id) >= 4 ==> !next_generation(n, alive)[id],
{
}

/// A dead cell whose number of live neighbours is not three stays dead.
pub proof fn lemma_dead_cell_stays_dead(n: int, alive: Seq<bool>, id: int)
    requires
        0 <= id < alive.len(),
        !alive[id],
        live_neighbor_count(n, alive, id) != 3,
    ensures
        !next_generation(n, alive)[id],
{
}

/// Whether a cell is alive in the next generation, from its current state
/// and its number of live neighbours.
pub fn next_state_of(alive: bool, neighbors: usize) -> (r: bool)
    ensures
        r == next_state(alive, neighbors as int),
{
    match neighbors {
        2 => alive,
        3 => true,
        _ => false,
    }
}

/// The identifiers of the cells alive in the next generation, in increasing
/// order. The store is not changed.
pub fn next_alive_set(store: &CellStore) -> (r: Vec<usize>)
    requires
        store.wf(),
    ensures
        forall|i: int| 0 <= i < r@.len() ==> #[trigger] r@[i] < store.total(),
        forall|i: int, j: int| 0 <= i < j < r@.len() ==> r@[i] < r@[j],
        alive_exactly(store.total(), r@) == next_generation(store.side(), store.alive()),
{
    let total = store.cell_count();
    let ghost n = store.side();
    let ghost cur = store.alive();
    let mut next: Vec<usize> = Vec::new();
    let mut id: usize = 0;
    while id < total
        invariant
            store.wf(),
            total == store.total(),
            n == store.side(),
            cur == store.alive(),
            id <= total,
            forall|i: int| 0 <= i < next@.len() ==> #[trigger] next@[i] < id,
            forall|i: int, j: int| 0 <= i < j < next@.len() ==> next@[i] < next@[j],
            forall|i: int|
                0 <= i < id ==> (next@.contains(i as usize) <==> #[trigger] next_generation(n, cur)[i]),
        decreases total - id,
    {
        let k = count_live_neighbors(store, id);
        let now = match store.get_alive(id) {
            Some(b) => b,
            None => false,
        };
        let ghost before = next@;
        if next_state_of(now, k) {
            next.push(id);
        }
        assert forall|i: int| 0 <= i <= id implies (next@.contains(i as usize)
            <==> #[trigger] next_generation(n, cur)[i]) by {
            if i < id {
                if before.contains(i as usize) {
                    let w = choose|w: int| 0 <= w < before.len() && before[w] == i as usize;
                    assert(next@[w] == i as usize);
                }
                if next@.contains(i as usize) {
                    let w = choose|w: int| 0 <= w < next@.len() && next@[w] == i as usize;
                    if w == before.len() {
                        assert(next@[w] == id);
                    } else {
                        assert(before[w] == i as usize);
                    }
                }
            } else {
                if next@.contains(id) {
                    let w = choose|w: int| 0 <= w < next@.len() && next@[w] == id;
                    if w < before.len() {
                        assert(before[w] == next@[w]);
                    }
                } else if next_state(now, k as int) {
                    assert(next@[before.len() as int] == id);
                }
            }
        }
        id = id + 1;
    }
    assert(alive_exactly(total as int, next@) =~= next_generation(n, cur));
    next
}

/// Makes exactly the cells of `next` alive and every other cell dead.
pub fn commit(store: &mut CellStore, next: &Vec<usize>)
    requires
        old(store).wf(),
        forall|i: int| 0 <= i < next@.len() ==> #[trigger] next@[i] < old(store).total(),
    ensures
        final(store).wf(),
        final(store).grid_spec() == old(store).grid_spec(),
        final(store).cell_size_spec() == old(store).cell_size_spec(),
        final(store).alive() == alive_exactly(old(store).total(), next@),
{
    store.clear();
    let ghost total = store.total();
    let mut k: usize = 0;
    while k < next.len()
        invariant
            store.wf(),
            store.grid_spec() == old(store).grid_spec(),
            store.cell_size_spec() == old(store).cell_size_spec(),
            total == store.total(),
            forall|i: int| 0 <= i < next@.len() ==> #[trigger] next@[i] < total,
            k <= next@.len(),
            store.alive() == alive_exactly(total, next@.subrange(0, k as int)),
        decreases next@.len() - k,
    {
        let ghost before = store.alive();
        store.set_alive(next[k], true);
        proof {
            let done = next@.subrange(0, k as int);
            let more = next@.subrange(0, k + 1);
            assert(more =~= done.push(next@[k as int]));
            assert forall|i: int| 0 <= i < total implies #[trigger] store.alive()[i]
                == more.contains(i as usize) by {
                if i == next@[k as int] {
                    assert(more[k as int] == i as usize);
                } else {
                    if done.contains(i as usize) {
                        let w = choose|w: int| 0 <= w < done.len() && done[w] == i as usize;
                        assert(more[w] == i as usize);
                    }
                    if more.contains(i as usize) {
                        let w = choose|w: int| 0 <= w < more.len() && more[w] == i as usize;
                        assert(done[w] == i as usize);
                    }
                }
            }
            assert(store.alive() =~= alive_exactly(total, more));
        }
        k = k + 1;
    }
    assert(next@.subrange(0, next@.len() as int) =~= next@);
}

/// Replaces the current generation of the store by the next one.
pub fn advance(store: &mut CellStore)
    requires
        old(store).wf(),
    ensures
        final(store).wf(),
        final(store).grid_spec() == old(store).grid_spec(),
        final(store).cell_size_spec() == old(store).cell_size_spec(),
        final(store).alive() == next_generation(old(store).side(), old(store).alive()),
{
    let next = next_alive_set(store);
    commit(store, &next);
}

} // verus!
