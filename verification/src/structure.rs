//! Snapshots of a region: its extent, where the reference point lay in it,
//! and its blocks, plane by plane.

use crate::coord::Coordinate;
use crate::world::{
    block_at, in_box, in_region, lemma_put, lemma_same_blocks, passed, point, region_fits,
    Block, Voxels, World, EMPTY,
};
use vstd::prelude::*;

verus! {

/// A captured region. `blocks` lists the voxels with `x` slowest and `z`
/// fastest; `origin_pos` is the reference point counted from the region's
/// minimum corner.
#[derive(Debug)]
pub struct Structure {
    pub size: Coordinate,
    pub origin_pos: Coordinate,
    pub blocks: Vec<Block>,
}

/// The place in `blocks` of the voxel at offset `(x, y, z)` in a region of
/// extent `size`.
pub open spec fn cell_index(size: Coordinate, x: int, y: int, z: int) -> int {
    (x * size.y + y) * size.z + z
}

/// Whether `(x, y, z)` is an offset into a region of extent `size`.
pub open spec fn in_extent(size: Coordinate, x: int, y: int, z: int) -> bool {
    0 <= x < size.x && 0 <= y < size.y && 0 <= z < size.z
}

/// Every offset into a region has a place of its own in `blocks`.
pub proof fn lemma_cell_index_bounds(size: Coordinate, x: int, y: int, z: int)
    requires
        in_extent(size, x, y, z),
    ensures
        0 <= cell_index(size, x, y, z) < size.x * size.y * size.z,
{
    let sx = size.x as int;
    let sy = size.y as int;
    let sz = size.z as int;
    assert(0 <= x * sy + y <= sx * sy - 1) by (nonlinear_arith)
        requires
            0 <= x < sx,
            0 <= y < sy,
    ;
    let row = x * sy + y;
    assert(0 <= row * sz + z && row * sz + z < sx * sy * sz) by (nonlinear_arith)
        requires
            0 <= row <= sx * sy - 1,
            0 <= z < sz,
    ;
}

/// Offsets are laid out in the order in which the region is walked.
pub proof fn lemma_cell_index_order(size: Coordinate, a: (int, int, int), b: (int, int, int))
    requires
        0 <= a.0,
        0 <= a.1 < size.y,
        0 <= a.2 < size.z,
        0 <= b.1 <= size.y,
        0 <= b.2 <= size.z,
        passed(a.0, a.1, a.2, b.0, b.1, b.2),
    ensures
        cell_index(size, a.0, a.1, a.2) < cell_index(size, b.0, b.1, b.2),
{
    let sy = size.y as int;
    let sz = size.z as int;
    let row_a = a.0 * sy + a.1;
    let row_b = b.0 * sy + b.1;
    if a.0 < b.0 {
        assert(row_a < row_b) by (nonlinear_arith)
            requires
                a.0 < b.0,
                0 <= a.1 < sy,
                0 <= b.1,
                row_a == a.0 * sy + a.1,
                row_b == b.0 * sy + b.1,
        ;
    }
    if row_a < row_b {
        assert(row_a * sz + a.2 < row_b * sz + b.2) by (nonlinear_arith)
            requires
                row_a < row_b,
                0 <= a.2 < sz,
                0 <= b.2,
        ;
    }
}

impl Structure {
    /// Every extent is at least one and `blocks` holds one block for each
    /// voxel.
    pub open spec fn wf(&self) -> bool {
        &&& self.size.x >= 1
        &&& self.size.y >= 1
        &&& self.size.z >= 1
        &&& self.blocks@.len() == self.size.x * self.size.y * self.size.z
    }

    /// The block at offset `(x, y, z)` of the region.
    pub open spec fn block_in(&self, x: int, y: int, z: int) -> Block {
        self.blocks@[cell_index(self.size, x, y, z)]
    }

    /// Whether `self` holds the region of `voxels` at `position` of extent
    /// `size`, with the reference point at `origin`.
    pub open spec fn captures(
        &self,
        voxels: Voxels,
        position: Coordinate,
        size: Coordinate,
        origin: Coordinate,
    ) -> bool {
        &&& self.wf()
        &&& self.size == size
        &&& self.origin_pos.x == origin.x - position.x
        &&& self.origin_pos.y == origin.y - position.y
        &&& self.origin_pos.z == origin.z - position.z
        &&& forall|x: int, y: int, z: int|
            in_extent(size, x, y, z) ==> self.blocks@[#[trigger] cell_index(size, x, y, z)]
                == block_at(voxels, (position.x + x, position.y + y, position.z + z))
    }
}

/// Reads the id of bedrock off `valence::block::BlockState::BEDROCK` with
/// `valence::block::BlockState::to_raw`. Nothing is proved of the call; the
/// contract claims that bedrock is not air, whose id is `EMPTY`.
#[verifier::external_body]
fn bedrock() -> (block: Block)
    ensures
        block != EMPTY,
{
    valence::block::BlockState::BEDROCK.to_raw()
}

impl Structure {
    /// Whether the structure can be laid out with its reference point at
    /// `position`: every coordinate it would touch is representable.
    pub open spec fn fits_at(&self, position: Coordinate) -> bool {
        &&& i32::MIN <= position.x - self.origin_pos.x
        &&& i32::MIN <= position.y - self.origin_pos.y
        &&& i32::MIN <= position.z - self.origin_pos.z
        &&& position.x - self.origin_pos.x + self.size.x <= i32::MAX + 1
        &&& position.y - self.origin_pos.y + self.size.y <= i32::MAX + 1
        &&& position.z - self.origin_pos.z + self.size.z <= i32::MAX + 1
    }

    /// The minimum corner of the structure when its reference point lies at
    /// `position`.
    pub open spec fn anchor_at(&self, position: Coordinate) -> (int, int, int) {
        (
            position.x - self.origin_pos.x,
            position.y - self.origin_pos.y,
            position.z - self.origin_pos.z,
        )
    }

    /// The world `voxels` with the structure laid out in it, its reference
    /// point at `position`.
    pub open spec fn rendered(&self, voxels: Voxels, position: Coordinate) -> Voxels {
        let anchor = self.anchor_at(position);
        Map::new(
            |p: (int, int, int)|
                if in_box(p, anchor, self.size) {
                    self.block_in(p.0 - anchor.0, p.1 - anchor.1, p.2 - anchor.2) != EMPTY
                } else {
                    voxels.contains_key(p)
                },
            |p: (int, int, int)|
                if in_box(p, anchor, self.size) {
                    self.block_in(p.0 - anchor.0, p.1 - anchor.1, p.2 - anchor.2)
                } else {
                    voxels[p]
                },
        )
    }

    /// A structure of the given parts, where they fit together: every
    /// extent is at least one and there is one block for each voxel.
    pub fn new(size: Coordinate, origin_pos: Coordinate, blocks: Vec<Block>) -> (made: Option<
        Structure,
    >)
        ensures
            made is Some <==> size.x >= 1 && size.y >= 1 && size.z >= 1 && blocks@.len() == size.x
                * size.y * size.z,
            made is Some ==> made->0.wf() && made->0.size == size && made->0.origin_pos
                == origin_pos && made->0.blocks@ == blocks@,
    {
        if size.x < 1 || size.y < 1 || size.z < 1 {
            return None;
        }
        let sx: u128 = size.x as u128;
        let sy: u128 = size.y as u128;
        let sz: u128 = size.z as u128;
        assert(sx * sy <= 0x8000_0000 * 0x8000_0000) by (nonlinear_arith)
            requires
                0 <= sx <= 0x8000_0000,
                0 <= sy <= 0x8000_0000,
        ;
        let plane: u128 = sx * sy;
        assert(plane * sz <= 0x4000_0000_0000_0000 * 0x8000_0000) by (nonlinear_arith)
            requires
                0 <= plane <= 0x4000_0000_0000_0000,
                0 <= sz <= 0x8000_0000,
        ;
        let count: u128 = plane * sz;
        if blocks.len() as u128 != count {
            return None;
        }
        Some(Structure { size, origin_pos, blocks })
    }

    /// A structure of one voxel that holds `block`, with the reference
    /// point on it.
    pub fn single(block: Block) -> (made: Structure)
        ensures
            made.wf(),
            made.size == (Coordinate { x: 1, y: 1, z: 1 }),
            made.origin_pos == (Coordinate { x: 0, y: 0, z: 0 }),
            made.blocks@ == seq![block],
    {
        let mut blocks: Vec<Block> = Vec::new();
        blocks.push(block);
        assert(blocks@ =~= seq![block]);
        Structure {
            size: Coordinate { x: 1, y: 1, z: 1 },
            origin_pos: Coordinate { x: 0, y: 0, z: 0 },
            blocks,
        }
    }

    /// The structure a session starts from: one voxel that holds bedrock,
    /// with the reference point on it. Which id bedrock has is left to the
    /// world engine; it is not the empty block.
    pub fn starter() -> (made: Structure)
        ensures
            made.wf(),
            made.size == (Coordinate { x: 1, y: 1, z: 1 }),
            made.origin_pos == (Coordinate { x: 0, y: 0, z: 0 }),
            made.blocks@.len() == 1,
            made.blocks@[0] != EMPTY,
    {
        Structure::single(bedrock())
    }

    /// Whether `render_to_layer` may be called with `position`.
    pub fn can_render_at(&self, position: Coordinate) -> (fits: bool)
        requires
            self.wf(),
        ensures
            fits == self.fits_at(position),
    {
        axis_fits_at(position.x, self.origin_pos.x, self.size.x) && axis_fits_at(
            position.y,
            self.origin_pos.y,
            self.size.y,
        ) && axis_fits_at(position.z, self.origin_pos.z, self.size.z)
    }
}

/// Along one axis: whether a run of `extent` voxels, with its reference
/// point `offset` voxels in and lying at `at`, has representable ends.
fn axis_fits_at(at: i32, offset: i32, extent: i32) -> (fits: bool)
    ensures
        fits == (i32::MIN <= at - offset && at - offset + extent <= i32::MAX + 1),
{
    let low: i64 = at as i64 - offset as i64;
    low >= i32::MIN as i64 && low + extent as i64 <= i32::MAX as i64 + 1
}

impl Structure {
    /// Captures the region of `world` at `position` of extent `size`,
    /// walking it with `x` slowest and `z` fastest, and records where
    /// `origin` lies in it.
    pub fn from_section(
        world: &World,
        position: Coordinate,
        size: Coordinate,
        origin: Coordinate,
    ) -> (made: Structure)
        requires
            size.x >= 1 && size.y >= 1 && size.z >= 1,
            region_fits(position, size),
            origin.offset_fits(-position.x, -position.y, -position.z),
        ensures
            made.captures(world@, position, size, origin),
    {
        let mut blocks: Vec<Block> = Vec::new();
        let mut x: i32 = 0;
        assert(cell_index(size, 0, 0, 0) == 0) by (nonlinear_arith);
        while x < size.x
            invariant
                size.x >= 1 && size.y >= 1 && size.z >= 1,
                region_fits(position, size),
                0 <= x <= size.x,
                blocks@.len() == cell_index(size, x as int, 0, 0),
                forall|i: int, j: int, k: int|
                    in_extent(size, i, j, k) && i < x ==> blocks@[#[trigger] cell_index(size, i, j, k)]
                        == block_at(world@, (position.x + i, position.y + j, position.z + k)),
            decreases size.x - x,
        {
            let mut y: i32 = 0;
            while y < size.y
                invariant
                    size.x >= 1 && size.y >= 1 && size.z >= 1,
                    region_fits(position, size),
                    0 <= x < size.x,
                    0 <= y <= size.y,
                    blocks@.len() == cell_index(size, x as int, y as int, 0),
                    forall|i: int, j: int, k: int|
                        in_extent(size, i, j, k) && passed(i, j, 0, x as int, y as int, 0)
                            ==> blocks@[#[trigger] cell_index(size, i, j, k)] == block_at(
                            world@,
                            (position.x + i, position.y + j, position.z + k),
                        ),
                decreases size.y - y,
            {
                let mut z: i32 = 0;
                while z < size.z
                    invariant
                        size.x >= 1 && size.y >= 1 && size.z >= 1,
                        region_fits(position, size),
                        0 <= x < size.x,
                        0 <= y < size.y,
                        0 <= z <= size.z,
                        blocks@.len() == cell_index(size, x as int, y as int, z as int),
                        forall|i: int, j: int, k: int|
                            in_extent(size, i, j, k) && passed(i, j, k, x as int, y as int, z as int)
                                ==> blocks@[#[trigger] cell_index(size, i, j, k)] == block_at(
                                world@,
                                (position.x + i, position.y + j, position.z + k),
                            ),
                    decreases size.z - z,
                {
                    let pos = Coordinate {
                        x: position.x + x,
                        y: position.y + y,
                        z: position.z + z,
                    };
                    let block: Block = world.block(pos);
                    let ghost before = blocks@;
                    blocks.push(block);
                    proof {
                        assert forall|i: int, j: int, k: int|
                            in_extent(size, i, j, k) && passed(
                                i,
                                j,
                                k,
                                x as int,
                                y as int,
                                z + 1,
                            ) implies blocks@[#[trigger] cell_index(size, i, j, k)] == block_at(
                            world@,
                            (position.x + i, position.y + j, position.z + k),
                        ) by {
                            if passed(i, j, k, x as int, y as int, z as int) {
                                lemma_cell_index_order(
                                    size,
                                    (i, j, k),
                                    (x as int, y as int, z as int),
                                );
                                lemma_cell_index_bounds(size, i, j, k);
                            }
                        }
                    }
                    z += 1;
                }
                proof {
                    lemma_row_end(size, x as int, y as int);
                }
                y += 1;
            }
            proof {
                lemma_plane_end(size, x as int);
            }
            x += 1;
        }
        proof {
            lemma_plane_end(size, size.x - 1);
            assert(cell_index(size, size.x as int, 0, 0) == size.x * size.y * size.z)
                by (nonlinear_arith);
        }
        Structure {
            size,
            origin_pos: Coordinate {
                x: origin.x - position.x,
                y: origin.y - position.y,
                z: origin.z - position.z,
            },
            blocks,
        }
    }
}

impl Structure {
    /// Writes the structure into `world` with its reference point at
    /// `position`: the voxel at offset `(x, y, z)` goes to
    /// `position - origin_pos + (x, y, z)`. Voxels outside the structure's
    /// box stay as they are.
    pub fn render_to_layer(&self, world: &mut World, position: Coordinate)
        requires
            self.wf(),
            self.fits_at(position),
        ensures
            final(world)@ == self.rendered(old(world)@, position),
    {
        let ghost before = world@;
        let size = self.size;
        let anchor = Coordinate {
            x: position.x - self.origin_pos.x,
            y: position.y - self.origin_pos.y,
            z: position.z - self.origin_pos.z,
        };
        let count: usize = self.blocks.len();
        let mut next: usize = 0;
        let mut x: i32 = 0;
        assert(cell_index(size, 0, 0, 0) == 0) by (nonlinear_arith);
        while x < size.x
            invariant
                self.wf(),
                count == self.blocks@.len(),
                size == self.size,
                region_fits(anchor, size),
                0 <= x <= size.x,
                next == cell_index(size, x as int, 0, 0),
                forall|p: (int, int, int)| #[trigger]
                    block_at(world@, p) == if in_region(p, anchor, size) && p.0 - anchor.x < x {
                        self.block_in(p.0 - anchor.x, p.1 - anchor.y, p.2 - anchor.z)
                    } else {
                        block_at(before, p)
                    },
            decreases size.x - x,
        {
            let mut y: i32 = 0;
            while y < size.y
                invariant
                    self.wf(),
                    count == self.blocks@.len(),
                    size == self.size,
                    region_fits(anchor, size),
                    0 <= x < size.x,
                    0 <= y <= size.y,
                    next == cell_index(size, x as int, y as int, 0),
                    forall|p: (int, int, int)| #[trigger]
                        block_at(world@, p) == if in_region(p, anchor, size) && passed(
                            p.0 - anchor.x,
                            p.1 - anchor.y,
                            0,
                            x as int,
                            y as int,
                            0,
                        ) {
                            self.block_in(p.0 - anchor.x, p.1 - anchor.y, p.2 - anchor.z)
                        } else {
                            block_at(before, p)
                        },
                decreases size.y - y,
            {
                let mut z: i32 = 0;
                while z < size.z
                    invariant
                        self.wf(),
                        count == self.blocks@.len(),
                        size == self.size,
                        region_fits(anchor, size),
                        0 <= x < size.x,
                        0 <= y < size.y,
                        0 <= z <= size.z,
                        next == cell_index(size, x as int, y as int, z as int),
                        forall|p: (int, int, int)| #[trigger]
                            block_at(world@, p) == if in_region(p, anchor, size) && passed(
                                p.0 - anchor.x,
                                p.1 - anchor.y,
                                p.2 - anchor.z,
                                x as int,
                                y as int,
                                z as int,
                            ) {
                                self.block_in(p.0 - anchor.x, p.1 - anchor.y, p.2 - anchor.z)
                            } else {
                                block_at(before, p)
                            },
                    decreases size.z - z,
                {
                    let pos = Coordinate { x: anchor.x + x, y: anchor.y + y, z: anchor.z + z };
                    proof {
                        lemma_cell_index_bounds(size, x as int, y as int, z as int);
                        lemma_put(world@, point(pos), self.blocks@[next as int]);
                    }
                    world.set_block(pos, self.blocks[next]);
                    next += 1;
                    z += 1;
                }
                proof {
                    lemma_row_end(size, x as int, y as int);
                }
                y += 1;
            }
            proof {
                lemma_plane_end(size, x as int);
            }
            x += 1;
        }
        proof {
            world.lemma_view_is_sparse();
            old(world).lemma_view_is_sparse();
            let after = self.rendered(before, position);
            assert forall|p: (int, int, int)| #[trigger]
                block_at(world@, p) == block_at(after, p) by {}
            lemma_same_blocks(world@, after);
        }
    }
}

/// The place after the last voxel of a row is the first place of the next
/// row.
proof fn lemma_row_end(size: Coordinate, x: int, y: int)
    ensures
        cell_index(size, x, y, size.z as int) == cell_index(size, x, y + 1, 0),
{
    let sy = size.y as int;
    let sz = size.z as int;
    assert((x * sy + y) * sz + sz == (x * sy + (y + 1)) * sz + 0) by (nonlinear_arith);
}

/// The place after the last row of a plane is the first place of the next
/// plane.
proof fn lemma_plane_end(size: Coordinate, x: int)
    ensures
        cell_index(size, x, size.y as int, 0) == cell_index(size, x + 1, 0, 0),
{
    let sy = size.y as int;
    let sz = size.z as int;
    assert((x * sy + sy) * sz + 0 == ((x + 1) * sy + 0) * sz + 0) by (nonlinear_arith);
}

/// A captured region that is laid out again shows the same blocks at the
/// same offsets from its minimum corner, keeps the reference point at the
/// same offset from that corner, and leaves the voxels around it alone.
pub proof fn lemma_capture_then_render(
    source: Voxels,
    position: Coordinate,
    size: Coordinate,
    origin: Coordinate,
    structure: Structure,
    target: Voxels,
    at: Coordinate,
)
    requires
        structure.captures(source, position, size, origin),
    ensures
        at.x - structure.anchor_at(at).0 == origin.x - position.x,
        at.y - structure.anchor_at(at).1 == origin.y - position.y,
        at.z - structure.anchor_at(at).2 == origin.z - position.z,
        forall|p: (int, int, int)|
            in_box(p, structure.anchor_at(at), size) ==> #[trigger] block_at(
                structure.rendered(target, at),
                p,
            ) == block_at(
                source,
                (
                    p.0 - structure.anchor_at(at).0 + position.x,
                    p.1 - structure.anchor_at(at).1 + position.y,
                    p.2 - structure.anchor_at(at).2 + position.z,
                ),
            ),
        forall|p: (int, int, int)|
            !in_box(p, structure.anchor_at(at), size) ==> #[trigger] block_at(
                structure.rendered(target, at),
                p,
            ) == block_at(target, p),
{
    let anchor = structure.anchor_at(at);
    assert forall|p: (int, int, int)| in_box(p, anchor, size) implies #[trigger] block_at(
        structure.rendered(target, at),
        p,
    ) == block_at(
        source,
        (p.0 - anchor.0 + position.x, p.1 - anchor.1 + position.y, p.2 - anchor.2 + position.z),
    ) by {
        let x = p.0 - anchor.0;
        let y = p.1 - anchor.1;
        let z = p.2 - anchor.2;
        assert(in_extent(size, x, y, z));
        assert(structure.blocks@[cell_index(size, x, y, z)] == block_at(
            source,
            (position.x + x, position.y + y, position.z + z),
        ));
    }
}

} // verus!
