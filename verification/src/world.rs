//! A sparse store of block values over the whole integer grid.

use crate::coord::Coordinate;
use std::collections::HashMap;
use vstd::prelude::*;

verus! {

broadcast use vstd::std_specs::hash::group_hash_axioms;

/// The content of one voxel.
pub type Block = u16;

/// The block value of a voxel that holds nothing.
pub const EMPTY: Block = 0;

/// The mathematical model of a world: the grid points that hold a block,
/// each with its block.
pub type Voxels = Map<(int, int, int), Block>;

/// The block at the grid point `p`, which is `EMPTY` where the world holds
/// none.
pub open spec fn block_at(voxels: Voxels, p: (int, int, int)) -> Block {
    if voxels.contains_key(p) {
        voxels[p]
    } else {
        EMPTY
    }
}

/// The world in which every voxel is empty.
pub open spec fn empty_voxels() -> Voxels {
    Map::empty()
}

/// The world `voxels` with `block` at the grid point `p`.
pub open spec fn put(voxels: Voxels, p: (int, int, int), block: Block) -> Voxels {
    if block == EMPTY {
        voxels.remove(p)
    } else {
        voxels.insert(p, block)
    }
}

/// The grid point of a coordinate.
pub open spec fn point(c: Coordinate) -> (int, int, int) {
    (c.x as int, c.y as int, c.z as int)
}

/// Whether `voxels` lists no grid point as holding the empty block. The
/// model of every `World` is of this kind, so that two worlds with the
/// same block at every grid point have the same model.
pub open spec fn is_sparse(voxels: Voxels) -> bool {
    forall|p: (int, int, int)| voxels.contains_key(p) ==> #[trigger] voxels[p] != EMPTY
}

/// Two sparse worlds with the same block at every grid point are equal.
pub proof fn lemma_same_blocks(a: Voxels, b: Voxels)
    requires
        is_sparse(a),
        is_sparse(b),
        forall|p: (int, int, int)| #[trigger] block_at(a, p) == block_at(b, p),
    ensures
        a == b,
{
    assert forall|p: (int, int, int)| #[trigger] a.dom().contains(p) == b.dom().contains(p) by {
        assert(block_at(a, p) == block_at(b, p));
    }
    assert forall|p: (int, int, int)| a.dom().contains(p) implies #[trigger] a[p] == b[p] by {
        assert(block_at(a, p) == block_at(b, p));
    }
    assert(a =~= b);
}

/// The block at each grid point after `put`.
pub proof fn lemma_put(voxels: Voxels, p: (int, int, int), block: Block)
    ensures
        forall|q: (int, int, int)| #[trigger]
            block_at(put(voxels, p, block), q) == if q == p {
                block
            } else {
                block_at(voxels, q)
            },
        is_sparse(voxels) ==> is_sparse(put(voxels, p, block)),
{
}

/// Whether a grid point lies in the box that starts at the grid point `low`
/// and extends by `size`.
pub open spec fn in_box(p: (int, int, int), low: (int, int, int), size: Coordinate) -> bool {
    &&& low.0 <= p.0 < low.0 + size.x
    &&& low.1 <= p.1 < low.1 + size.y
    &&& low.2 <= p.2 < low.2 + size.z
}

/// Whether a grid point lies in the box that starts at `start` and extends
/// by `size`.
pub open spec fn in_region(p: (int, int, int), start: Coordinate, size: Coordinate) -> bool {
    in_box(p, point(start), size)
}

/// Whether every coordinate of the box at `start` of extent `size` is
/// representable.
pub open spec fn region_fits(start: Coordinate, size: Coordinate) -> bool {
    &&& start.x + size.x <= i32::MAX + 1
    &&& start.y + size.y <= i32::MAX + 1
    &&& start.z + size.z <= i32::MAX + 1
}

/// Whether no voxel of the box at `start` of extent `size` holds a block.
pub open spec fn region_is_empty(voxels: Voxels, start: Coordinate, size: Coordinate) -> bool {
    forall|x: int, y: int, z: int|
        in_region((x, y, z), start, size) ==> #[trigger] block_at(voxels, (x, y, z)) == EMPTY
}

/// The world `voxels` with the box at `start` of extent `size` emptied.
pub open spec fn cleared(voxels: Voxels, start: Coordinate, size: Coordinate) -> Voxels {
    Map::new(
        |p: (int, int, int)| voxels.contains_key(p) && !in_region(p, start, size),
        |p: (int, int, int)| voxels[p],
    )
}

/// Where the first `x` planes, then `y` rows of the next plane, then `z`
/// voxels of the next row of a box have been passed, whether the offset
/// `(dx, dy, dz)` is among them.
pub open spec fn passed(dx: int, dy: int, dz: int, x: int, y: int, z: int) -> bool {
    dx < x || (dx == x && (dy < y || (dy == y && dz < z)))
}

/// The key under which the voxel at `(x, y, z)` is stored: the three
/// coordinates, each moved into the range of a `u32`, as the digits of a
/// number.
spec fn cell_key(x: int, y: int, z: int) -> int {
    ((x + 0x8000_0000) * 0x1_0000_0000 + (y + 0x8000_0000)) * 0x1_0000_0000 + (z + 0x8000_0000)
}

/// Whether each part of `p` is in the range of an `i32`.
spec fn is_coordinate(p: (int, int, int)) -> bool {
    &&& i32::MIN <= p.0 <= i32::MAX
    &&& i32::MIN <= p.1 <= i32::MAX
    &&& i32::MIN <= p.2 <= i32::MAX
}

/// Two coordinates with the same key are the same.
proof fn lemma_cell_key_injective(p: (int, int, int), q: (int, int, int))
    requires
        is_coordinate(p),
        is_coordinate(q),
        cell_key(p.0, p.1, p.2) == cell_key(q.0, q.1, q.2),
    ensures
        p == q,
{
    let rows = (p.0 + 0x8000_0000) * 0x1_0000_0000 + (p.1 + 0x8000_0000);
    let rows_q = (q.0 + 0x8000_0000) * 0x1_0000_0000 + (q.1 + 0x8000_0000);
    assert(rows * 0x1_0000_0000 + (p.2 + 0x8000_0000) == rows_q * 0x1_0000_0000 + (q.2
        + 0x8000_0000));
    if rows < rows_q {
        assert((rows + 1) * 0x1_0000_0000 <= rows_q * 0x1_0000_0000);
    }
    if rows_q < rows {
        assert((rows_q + 1) * 0x1_0000_0000 <= rows * 0x1_0000_0000);
    }
    assert(rows == rows_q);
    if p.0 < q.0 {
        assert((p.0 + 0x8000_0000 + 1) * 0x1_0000_0000 <= (q.0 + 0x8000_0000) * 0x1_0000_0000);
    }
    if q.0 < p.0 {
        assert((q.0 + 0x8000_0000 + 1) * 0x1_0000_0000 <= (p.0 + 0x8000_0000) * 0x1_0000_0000);
    }
}

/// The key of a coordinate is in the range of a `u128`.
proof fn lemma_cell_key_range(p: (int, int, int))
    requires
        is_coordinate(p),
    ensures
        0 <= cell_key(p.0, p.1, p.2) <= u128::MAX,
{
}

/// A voxel world. Voxels never written are empty.
pub struct World {
    cells: HashMap<u128, Block>,
}

impl View for World {
    type V = Voxels;

    closed spec fn view(&self) -> Voxels {
        Map::new(
            |p: (int, int, int)|
                is_coordinate(p) && self.cells@.contains_key(cell_key(p.0, p.1, p.2) as u128)
                    && self.cells@[cell_key(p.0, p.1, p.2) as u128] != EMPTY,
            |p: (int, int, int)| self.cells@[cell_key(p.0, p.1, p.2) as u128],
        )
    }
}

fn key_of(pos: Coordinate) -> (k: u128)
    ensures
        k == cell_key(pos.x as int, pos.y as int, pos.z as int),
{
    let x: u128 = (pos.x as i64 + 0x8000_0000) as u128;
    let y: u128 = (pos.y as i64 + 0x8000_0000) as u128;
    let z: u128 = (pos.z as i64 + 0x8000_0000) as u128;
    (x * 0x1_0000_0000 + y) * 0x1_0000_0000 + z
}

impl World {
    /// The model of a world lists no grid point as holding the empty block.
    pub proof fn lemma_view_is_sparse(&self)
        ensures
            is_sparse(self@),
    {
    }

    /// A world with no block in it.
    pub fn new() -> (w: World)
        ensures
            w@ == empty_voxels(),
    {
        let w = World { cells: HashMap::new() };
        assert(w@ =~= empty_voxels());
        w
    }

    /// The block at `pos`.
    pub fn block(&self, pos: Coordinate) -> (b: Block)
        ensures
            b == block_at(self@, point(pos)),
    {
        let k: u128 = key_of(pos);
        match self.cells.get(&k) {
            Some(b) => *b,
            None => EMPTY,
        }
    }

    /// Puts `block` at `pos` and leaves every other voxel as it is.
    pub fn set_block(&mut self, pos: Coordinate, block: Block)
        ensures
            final(self)@ == put(old(self)@, point(pos), block),
    {
        let k: u128 = key_of(pos);
        if block == EMPTY {
            self.cells.remove(&k);
        } else {
            self.cells.insert(k, block);
        }
        proof {
            let before = old(self)@;
            let after = put(before, point(pos), block);
            assert forall|p: (int, int, int)|
                self@.contains_key(p) == after.contains_key(p) && (self@.contains_key(p)
                    ==> self@[p] == after[p]) by {
                if is_coordinate(p) && p != point(pos) {
                    if cell_key(p.0, p.1, p.2) == cell_key(pos.x as int, pos.y as int, pos.z as int) {
                        lemma_cell_key_injective(p, point(pos));
                    }
                    lemma_cell_key_range(p);
                }
            }
            assert(self@ =~= after);
        }
    }

    /// Whether the box at `start` of extent `size` holds a block. A box with
    /// an extent below one on some axis holds none.
    pub fn has_block(&self, start: Coordinate, size: Coordinate) -> (found: bool)
        requires
            region_fits(start, size),
        ensures
            found == !region_is_empty(self@, start, size),
    {
        let mut x: i32 = 0;
        while x < size.x
            invariant
                region_fits(start, size),
                0 <= x,
                x <= size.x || size.x < 0,
                forall|i: int, j: int, k: int|
                    in_region((i, j, k), start, size) && i - start.x < x
                        ==> #[trigger] block_at(self@, (i, j, k)) == EMPTY,
            decreases size.x - x,
        {
            let mut y: i32 = 0;
            while y < size.y
                invariant
                    region_fits(start, size),
                    0 <= x < size.x,
                    0 <= y,
                    y <= size.y || size.y < 0,
                    forall|i: int, j: int, k: int|
                        in_region((i, j, k), start, size) && passed(
                            i - start.x,
                            j - start.y,
                            0,
                            x as int,
                            y as int,
                            0,
                        ) ==> #[trigger] block_at(self@, (i, j, k)) == EMPTY,
                decreases size.y - y,
            {
                let mut z: i32 = 0;
                while z < size.z
                    invariant
                        region_fits(start, size),
                        0 <= x < size.x,
                        0 <= y < size.y,
                        0 <= z,
                        z <= size.z || size.z < 0,
                        forall|i: int, j: int, k: int|
                            in_region((i, j, k), start, size) && passed(
                                i - start.x,
                                j - start.y,
                                k - start.z,
                                x as int,
                                y as int,
                                z as int,
                            ) ==> #[trigger] block_at(self@, (i, j, k)) == EMPTY,
                    decreases size.z - z,
                {
                    let pos = Coordinate { x: start.x + x, y: start.y + y, z: start.z + z };
                    if self.block(pos) != EMPTY {
                        assert(in_region(point(pos), start, size));
                        return true;
                    }
                    z += 1;
                }
                y += 1;
            }
            x += 1;
        }
        false
    }

    /// Empties every voxel of the box at `start` of extent `size`.
    pub fn clear(&mut self, start: Coordinate, size: Coordinate)
        requires
            region_fits(start, size),
        ensures
            final(self)@ == cleared(old(self)@, start, size),
    {
        let ghost before = self@;
        let mut x: i32 = 0;
        while x < size.x
            invariant
                region_fits(start, size),
                0 <= x,
                x <= size.x || size.x < 0,
                forall|p: (int, int, int)|
                    #[trigger] block_at(self@, p) == if in_region(p, start, size) && p.0 - start.x < x {
                        EMPTY
                    } else {
                        block_at(before, p)
                    },
            decreases size.x - x,
        {
            let mut y: i32 = 0;
            while y < size.y
                invariant
                    region_fits(start, size),
                    0 <= x < size.x,
                    0 <= y,
                    y <= size.y || size.y < 0,
                    forall|p: (int, int, int)|
                        #[trigger] block_at(self@, p) == if in_region(p, start, size) && passed(
                            p.0 - start.x,
                            p.1 - start.y,
                            0,
                            x as int,
                            y as int,
                            0,
                        ) {
                            EMPTY
                        } else {
                            block_at(before, p)
                        },
                decreases size.y - y,
            {
                let mut z: i32 = 0;
                while z < size.z
                    invariant
                        region_fits(start, size),
                        0 <= x < size.x,
                        0 <= y < size.y,
                        0 <= z,
                        z <= size.z || size.z < 0,
                        forall|p: (int, int, int)|
                            #[trigger] block_at(self@, p) == if in_region(p, start, size) && passed(
                                p.0 - start.x,
                                p.1 - start.y,
                                p.2 - start.z,
                                x as int,
                                y as int,
                                z as int,
                            ) {
                                EMPTY
                            } else {
                                block_at(before, p)
                            },
                    decreases size.z - z,
                {
                    let pos = Coordinate { x: start.x + x, y: start.y + y, z: start.z + z };
                    proof {
                        lemma_put(self@, point(pos), EMPTY);
                    }
                    self.set_block(pos, EMPTY);
                    z += 1;
                }
                y += 1;
            }
            x += 1;
        }
        proof {
            let after = cleared(before, start, size);
            assert forall|p: (int, int, int)| #[trigger]
                block_at(self@, p) == block_at(after, p) by {}
            lemma_same_blocks(self@, after);
        }
    }
}

} // verus!
