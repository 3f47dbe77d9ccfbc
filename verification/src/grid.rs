use vstd::prelude::*;
use bevy::platform::collections::HashMap;

use crate::crow::EntityId;

verus! {

/// bevy's `HashMap` (from `bevy::platform::collections`), opaque here.
#[verifier::external_type_specification]
#[verifier::external_body]
#[verifier::reject_recursive_types(K)]
#[verifier::reject_recursive_types(V)]
#[verifier::reject_recursive_types(S)]
pub struct ExHashMap<K, V, S>(HashMap<K, V, S>);

/// bevy's default hasher for its `HashMap`, opaque here.
#[verifier::external_type_specification]
#[verifier::external_body]
pub struct ExFixedHasher(bevy::platform::hash::FixedHasher);

/// A cell of the grid: the integer coordinates of a cube of space.
pub type Cell = (i32, i32, i32);

/// What the cells of a bevy `HashMap` from cells to entity lists hold.
pub uninterp spec fn cell_contents(map: HashMap<Cell, Vec<EntityId>>) -> Map<Cell, Seq<EntityId>>;

/// bevy's `HashMap::new`: an empty map.
#[verifier::external_body]
fn empty_cells() -> (r: HashMap<Cell, Vec<EntityId>>)
    ensures
        cell_contents(r).is_empty(),
{
    HashMap::new()
}

/// bevy's `HashMap::clear`: afterwards the map holds nothing.
#[verifier::external_body]
fn clear_cells(map: &mut HashMap<Cell, Vec<EntityId>>)
    ensures
        cell_contents(*final(map)).is_empty(),
{
    map.clear()
}

/// `map.entry(cell).or_default().push(entity)` on bevy's `HashMap`: the
/// entity is appended to the cell's list, which starts empty if the cell had
/// none; the other cells keep their lists.
#[verifier::external_body]
fn push_to_cell(map: &mut HashMap<Cell, Vec<EntityId>>, cell: Cell, entity: EntityId)
    ensures
        cell_contents(*final(map)) == cell_contents(*old(map)).insert(
            cell,
            (if cell_contents(*old(map)).contains_key(cell) {
                cell_contents(*old(map))[cell]
            } else {
                Seq::<EntityId>::empty()
            }).push(entity),
        ),
{
    map.entry(cell).or_default().push(entity)
}

/// bevy's `HashMap::get`: the cell's list if the map holds the cell.
#[verifier::external_body]
fn cell_list(map: &HashMap<Cell, Vec<EntityId>>, cell: Cell) -> (r: Option<&Vec<EntityId>>)
    ensures
        r is Some <==> cell_contents(*map).contains_key(cell),
        r matches Some(v) ==> v@ == cell_contents(*map)[cell],
{
    map.get(&cell)
}

/// Entities bucketed by the cell they stand in, so that neighbours are found
/// without comparing every pair.
pub struct SpatialGrid {
    cells: HashMap<Cell, Vec<EntityId>>,
}

/// The lists of a grid filled from `entries` (cell and entity), in order: the
/// list of each cell holds the entities placed in it, in the order given.
pub open spec fn grid_of(entries: Seq<(Cell, EntityId)>) -> Map<Cell, Seq<EntityId>>
    decreases entries.len(),
{
    if entries.len() == 0 {
        Map::empty()
    } else {
        let rest = grid_of(entries.drop_last());
        let (cell, entity) = entries.last();
        rest.insert(cell, (if rest.contains_key(cell) { rest[cell] } else { Seq::empty() }).push(entity))
    }
}

/// The entities placed in `cell`, in order.
pub open spec fn placed_in(entries: Seq<(Cell, EntityId)>, cell: Cell) -> Seq<EntityId>
    decreases entries.len(),
{
    if entries.len() == 0 {
        Seq::empty()
    } else {
        let rest = placed_in(entries.drop_last(), cell);
        if entries.last().0 == cell {
            rest.push(entries.last().1)
        } else {
            rest
        }
    }
}

/// A filled grid holds exactly the cells something was placed in, each with
/// the entities placed in it, in the order they were placed.
pub proof fn grid_of_holds_placed(entries: Seq<(Cell, EntityId)>, cell: Cell)
    ensures
        grid_of(entries).contains_key(cell) <==> exists|i: int| 0 <= i < entries.len() && (#[trigger] entries[i]).0 == cell,
        grid_of(entries).contains_key(cell) ==> grid_of(entries)[cell] == placed_in(entries, cell),
        !grid_of(entries).contains_key(cell) ==> placed_in(entries, cell) == Seq::<EntityId>::empty(),
    decreases entries.len(),
{
    if entries.len() > 0 {
        let init = entries.drop_last();
        grid_of_holds_placed(init, cell);
        let last = entries.len() - 1;
        assert(entries[last] == entries.last());
        assert forall|i: int| 0 <= i < init.len() implies #[trigger] init[i] == entries[i] by {}
        if exists|i: int| 0 <= i < init.len() && (#[trigger] init[i]).0 == cell {
            let w = choose|i: int| 0 <= i < init.len() && (#[trigger] init[i]).0 == cell;
            assert(entries[w] == init[w]);
        }
        if exists|i: int| 0 <= i < entries.len() && (#[trigger] entries[i]).0 == cell {
            let w = choose|i: int| 0 <= i < entries.len() && (#[trigger] entries[i]).0 == cell;
            if w < last {
                assert(init[w] == entries[w]);
            }
        }
    }
}

/// The 27 cell offsets of a neighbourhood, x outermost and z innermost, each
/// running from -1 to 1.
pub open spec fn offset(k: int) -> (int, int, int) {
    (k / 9 - 1, (k / 3) % 3 - 1, k % 3 - 1)
}

pub open spec fn shifted(cell: Cell, k: int) -> Cell {
    ((cell.0 + offset(k).0) as i32, (cell.1 + offset(k).1) as i32, (cell.2 + offset(k).2) as i32)
}

/// The neighbour candidates a grid offers around `cell`: the lists of the 27
/// cells around it (itself included), in offset order, leaving out `own`.
pub open spec fn neighbourhood(grid: Map<Cell, Seq<EntityId>>, own: EntityId, cell: Cell) -> Seq<EntityId> {
    neighbour_lists(grid, own, cell).flatten()
}

/// `s` without the entries equal to `own`.
pub open spec fn without(s: Seq<EntityId>, own: EntityId) -> Seq<EntityId>
    decreases s.len(),
{
    if s.len() == 0 {
        Seq::empty()
    } else {
        let rest = without(s.drop_last(), own);
        if s.last() != own {
            rest.push(s.last())
        } else {
            rest
        }
    }
}

/// For each of the 27 offsets, the list of the shifted cell without `own`.
pub open spec fn neighbour_lists(grid: Map<Cell, Seq<EntityId>>, own: EntityId, cell: Cell) -> Seq<Seq<EntityId>> {
    Seq::new(27, |k: int| {
        let c = shifted(cell, k);
        if grid.contains_key(c) {
            without(grid[c], own)
        } else {
            Seq::empty()
        }
    })
}

impl SpatialGrid {
    pub closed spec fn view(&self) -> Map<Cell, Seq<EntityId>> {
        cell_contents(self.cells)
    }

    /// An empty grid.
    pub fn new() -> (r: SpatialGrid)
        ensures
            r.view() == Map::<Cell, Seq<EntityId>>::empty(),
    {
        SpatialGrid { cells: empty_cells() }
    }

    /// Empties the grid and places each entity in its cell, in the order
    /// given.
    pub fn rebuild(&mut self, entries: &Vec<(Cell, EntityId)>)
        ensures
            final(self).view() == grid_of(entries@),
    {
        clear_cells(&mut self.cells);
        let mut i: usize = 0;
        while i < entries.len()
            invariant
                i <= entries.len(),
                cell_contents(self.cells) == grid_of(entries@.take(i as int)),
            decreases entries.len() - i,
        {
            let (cell, entity) = entries[i];
            proof {
                assert(entries@.take(i + 1).drop_last() =~= entries@.take(i as int));
                assert(entries@.take(i + 1).last() == entries@[i as int]);
            }
            push_to_cell(&mut self.cells, cell, entity);
            i = i + 1;
        }
        proof {
            assert(entries@.take(entries.len() as int) =~= entries@);
        }
    }

    /// The entities in the 27 cells around `cell` other than `own`, cell by
    /// cell (x offset outermost, z innermost) and within a cell in the order
    /// they were placed. The caller keeps those within the neighbour radius.
    pub fn candidates(&self, own: EntityId, cell: Cell) -> (r: Vec<EntityId>)
        requires
            i32::MIN < cell.0 < i32::MAX,
            i32::MIN < cell.1 < i32::MAX,
            i32::MIN < cell.2 < i32::MAX,
        ensures
            r@ == neighbourhood(self.view(), own, cell),
    {
        let ghost grid = self.view();
        let ghost parts = neighbour_lists(grid, own, cell);
        let mut r: Vec<EntityId> = Vec::new();
        let mut k: usize = 0;
        let mut dx: i32 = -1;
        proof {
            assert(parts.take(0) =~= Seq::<Seq<EntityId>>::empty());
            assert(parts.take(0).flatten() =~= Seq::<EntityId>::empty());
        }
        while dx <= 1
            invariant
                -1 <= dx <= 2,
                k == (dx + 1) * 9,
                grid == self.view(),
                i32::MIN < cell.0 < i32::MAX,
                i32::MIN < cell.1 < i32::MAX,
                i32::MIN < cell.2 < i32::MAX,
                parts == neighbour_lists(grid, own, cell),
                r@ == parts.take(k as int).flatten(),
            decreases 2 - dx,
        {
            let mut dy: i32 = -1;
            while dy <= 1
                invariant
                    -1 <= dx <= 1,
                    -1 <= dy <= 2,
                    k == (dx + 1) * 9 + (dy + 1) * 3,
                    grid == self.view(),
                    i32::MIN < cell.0 < i32::MAX,
                    i32::MIN < cell.1 < i32::MAX,
                    i32::MIN < cell.2 < i32::MAX,
                    parts == neighbour_lists(grid, own, cell),
                    r@ == parts.take(k as int).flatten(),
                decreases 2 - dy,
            {
                let mut dz: i32 = -1;
                while dz <= 1
                    invariant
                        -1 <= dx <= 1,
                        -1 <= dy <= 1,
                        -1 <= dz <= 2,
                        k == (dx + 1) * 9 + (dy + 1) * 3 + (dz + 1),
                        grid == self.view(),
                        i32::MIN < cell.0 < i32::MAX,
                        i32::MIN < cell.1 < i32::MAX,
                        i32::MIN < cell.2 < i32::MAX,
                        parts == neighbour_lists(grid, own, cell),
                        r@ == parts.take(k as int).flatten(),
                    decreases 2 - dz,
                {
                    let c: Cell = (cell.0 + dx, cell.1 + dy, cell.2 + dz);
                    proof {
                        assert(offset(k as int) == (dx as int, dy as int, dz as int));
                        assert(c == shifted(cell, k as int));
                    }
                    let ghost before = r@;
                    match cell_list(&self.cells, c) {
                        Some(list) => {
                            let mut j: usize = 0;
                            while j < list.len()
                                invariant
                                    j <= list.len(),
                                    r@ == before + without(list@.take(j as int), own),
                                decreases list.len() - j,
                            {
                                let e: EntityId = list[j];
                                proof {
                                    let t = list@.take(j + 1);
                                    assert(t.drop_last() =~= list@.take(j as int));
                                    assert(t.last() == e);
                                }
                                if e != own {
                                    r.push(e);
                                }
                                proof {
                                    assert(r@ =~= before + without(list@.take(j + 1), own));
                                }
                                j = j + 1;
                            }
                            proof {
                                assert(list@.take(list@.len() as int) =~= list@);
                            }
                        },
                        None => {
                            proof {
                                assert(r@ =~= before + Seq::<EntityId>::empty());
                            }
                        },
                    }
                    proof {
                        assert(parts[k as int] == (if grid.contains_key(c) {
                            without(grid[c], own)
                        } else {
                            Seq::<EntityId>::empty()
                        }));
                        let t = parts.take(k + 1);
                        assert(t.drop_last() =~= parts.take(k as int));
                        assert(t.last() == parts[k as int]);
                        t.lemma_flatten_and_flatten_alt_are_equivalent();
                        t.drop_last().lemma_flatten_and_flatten_alt_are_equivalent();
                        assert(r@ =~= t.flatten());
                    }
                    k = k + 1;
                    dz = dz + 1;
                }
                dy = dy + 1;
            }
            dx = dx + 1;
        }
        proof {
            assert(parts.take(27) =~= parts);
        }
        r
    }
}

} // verus!
