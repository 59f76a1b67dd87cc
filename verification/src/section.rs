//! The bounding box of the edited region: it grows to take in each placed
//! block and is trimmed where a whole face of it has fallen empty.

use crate::coord::Coordinate;
use crate::world::{block_at, in_region, point, region_fits, region_is_empty, Voxels, World, EMPTY};
use vstd::prelude::*;

verus! {

/// An axis-aligned box: `position` is its inclusive minimum corner and
/// `size` its extent on each axis.
#[derive(Clone, Copy, Debug, PartialEq, Eq, Structural)]
pub struct Section {
    pub position: Coordinate,
    pub size: Coordinate,
}

/// A face of a box, named by its axis and by the end of the axis it lies at.
/// The order of the variants is the order in which faces are tried when the
/// box is trimmed.
#[derive(Clone, Copy, Debug, PartialEq, Eq, Structural)]
pub enum Face {
    LowX,
    HighX,
    LowY,
    HighY,
    LowZ,
    HighZ,
}

/// The smaller of two integers.
pub open spec fn lesser(a: int, b: int) -> int {
    if a <= b {
        a
    } else {
        b
    }
}

/// The larger of two integers.
pub open spec fn greater(a: int, b: int) -> int {
    if a >= b {
        a
    } else {
        b
    }
}

/// The mathematical model of a box: its minimum corner and its extents,
/// as integers without bound.
pub struct Bounds {
    pub low: (int, int, int),
    pub extent: (int, int, int),
}

impl Bounds {
    /// Every extent is at least one.
    pub open spec fn wf(self) -> bool {
        self.extent.0 >= 1 && self.extent.1 >= 1 && self.extent.2 >= 1
    }

    /// Whether the grid point `p` lies in the box.
    pub open spec fn contains(self, p: (int, int, int)) -> bool {
        &&& self.low.0 <= p.0 < self.low.0 + self.extent.0
        &&& self.low.1 <= p.1 < self.low.1 + self.extent.1
        &&& self.low.2 <= p.2 < self.low.2 + self.extent.2
    }

    /// The smallest box that holds both `self` and `p`.
    pub open spec fn grown(self, p: (int, int, int)) -> Bounds {
        Bounds {
            low: (lesser(self.low.0, p.0), lesser(self.low.1, p.1), lesser(self.low.2, p.2)),
            extent: (
                greater(self.low.0 + self.extent.0 - 1, p.0) - lesser(self.low.0, p.0) + 1,
                greater(self.low.1 + self.extent.1 - 1, p.1) - lesser(self.low.1, p.1) + 1,
                greater(self.low.2 + self.extent.2 - 1, p.2) - lesser(self.low.2, p.2) + 1,
            ),
        }
    }

    /// The box after a run of points has been taken in, one after the other.
    pub open spec fn grown_by(self, points: Seq<(int, int, int)>) -> Bounds
        decreases points.len(),
    {
        if points.len() == 0 {
            self
        } else {
            self.grown_by(points.drop_last()).grown(points.last())
        }
    }
}

impl View for Section {
    type V = Bounds;

    open spec fn view(&self) -> Bounds {
        Bounds {
            low: point(self.position),
            extent: (self.size.x as int, self.size.y as int, self.size.z as int),
        }
    }
}

impl Section {
    /// Every extent is at least one and the far corner is representable.
    pub open spec fn wf(self) -> bool {
        &&& self.size.x >= 1
        &&& self.size.y >= 1
        &&& self.size.z >= 1
        &&& region_fits(self.position, self.size)
    }

    /// Whether the grid point `p` lies in the box.
    pub open spec fn contains(self, p: (int, int, int)) -> bool {
        in_region(p, self.position, self.size)
    }

    /// The sum of the three extents.
    pub open spec fn girth(self) -> int {
        self.size.x + self.size.y + self.size.z
    }

    /// Whether the smallest box around `self` and `p` has representable
    /// extents.
    pub open spec fn grow_fits(self, p: Coordinate) -> bool {
        &&& self@.grown(point(p)).extent.0 <= i32::MAX
        &&& self@.grown(point(p)).extent.1 <= i32::MAX
        &&& self@.grown(point(p)).extent.2 <= i32::MAX
    }

    /// The extent of the box along the axis of `face`.
    pub open spec fn extent(self, face: Face) -> int {
        match face {
            Face::LowX | Face::HighX => self.size.x as int,
            Face::LowY | Face::HighY => self.size.y as int,
            Face::LowZ | Face::HighZ => self.size.z as int,
        }
    }

    /// The minimum corner of the slab, one voxel thick, that makes up `face`.
    pub open spec fn slab_start(self, face: Face) -> Coordinate {
        match face {
            Face::HighX => Coordinate {
                x: (self.position.x + self.size.x - 1) as i32,
                y: self.position.y,
                z: self.position.z,
            },
            Face::HighY => Coordinate {
                x: self.position.x,
                y: (self.position.y + self.size.y - 1) as i32,
                z: self.position.z,
            },
            Face::HighZ => Coordinate {
                x: self.position.x,
                y: self.position.y,
                z: (self.position.z + self.size.z - 1) as i32,
            },
            _ => self.position,
        }
    }

    /// The extent of the slab that makes up `face`.
    pub open spec fn slab_size(self, face: Face) -> Coordinate {
        match face {
            Face::LowX | Face::HighX => Coordinate { x: 1, y: self.size.y, z: self.size.z },
            Face::LowY | Face::HighY => Coordinate { x: self.size.x, y: 1, z: self.size.z },
            Face::LowZ | Face::HighZ => Coordinate { x: self.size.x, y: self.size.y, z: 1 },
        }
    }

    /// Whether no voxel of `face` holds a block.
    pub open spec fn face_is_empty(self, voxels: Voxels, face: Face) -> bool {
        region_is_empty(voxels, self.slab_start(face), self.slab_size(face))
    }

    /// The first face, in the order of `Face`, that holds no block.
    pub open spec fn first_empty_face(self, voxels: Voxels) -> Option<Face> {
        if self.face_is_empty(voxels, Face::LowX) {
            Some(Face::LowX)
        } else if self.face_is_empty(voxels, Face::HighX) {
            Some(Face::HighX)
        } else if self.face_is_empty(voxels, Face::LowY) {
            Some(Face::LowY)
        } else if self.face_is_empty(voxels, Face::HighY) {
            Some(Face::HighY)
        } else if self.face_is_empty(voxels, Face::LowZ) {
            Some(Face::LowZ)
        } else if self.face_is_empty(voxels, Face::HighZ) {
            Some(Face::HighZ)
        } else {
            None
        }
    }

    /// The box with the slab of `face` cut off.
    pub open spec fn trimmed(self, face: Face) -> Section {
        match face {
            Face::LowX => Section {
                position: Coordinate { x: (self.position.x + 1) as i32, ..self.position },
                size: Coordinate { x: (self.size.x - 1) as i32, ..self.size },
            },
            Face::HighX => Section {
                position: self.position,
                size: Coordinate { x: (self.size.x - 1) as i32, ..self.size },
            },
            Face::LowY => Section {
                position: Coordinate { y: (self.position.y + 1) as i32, ..self.position },
                size: Coordinate { y: (self.size.y - 1) as i32, ..self.size },
            },
            Face::HighY => Section {
                position: self.position,
                size: Coordinate { y: (self.size.y - 1) as i32, ..self.size },
            },
            Face::LowZ => Section {
                position: Coordinate { z: (self.position.z + 1) as i32, ..self.position },
                size: Coordinate { z: (self.size.z - 1) as i32, ..self.size },
            },
            Face::HighZ => Section {
                position: self.position,
                size: Coordinate { z: (self.size.z - 1) as i32, ..self.size },
            },
        }
    }

    /// The face that the next trim would cut off: the first empty face,
    /// unless the box is only one voxel thick along its axis.
    pub open spec fn next_trim(self, voxels: Voxels) -> Option<Face> {
        match self.first_empty_face(voxels) {
            Some(face) if self.extent(face) > 1 => Some(face),
            _ => None,
        }
    }

    /// The box that is left when faces are cut off for as long as
    /// `next_trim` names one.
    pub open spec fn tightened(self, voxels: Voxels) -> Section
        decreases self.girth(),
    {
        if !self.wf() {
            self
        } else {
            match self.next_trim(voxels) {
                Some(face) => self.trimmed(face).tightened(voxels),
                None => self,
            }
        }
    }
}

impl Default for Section {
    /// The unit box at the grid's zero point.
    fn default() -> (s: Section)
        ensures
            s.position == (Coordinate { x: 0, y: 0, z: 0 }),
            s.size == (Coordinate { x: 1, y: 1, z: 1 }),
            s.wf(),
    {
        Section { position: Coordinate { x: 0, y: 0, z: 0 }, size: Coordinate { x: 1, y: 1, z: 1 } }
    }
}

/// Along one axis: whether a box from `low` of extent `extent` can take in
/// `p` with a representable extent.
fn axis_fits(low: i32, extent: i32, p: i32) -> (fits: bool)
    requires
        extent >= 1,
        low + extent <= i32::MAX + 1,
    ensures
        fits == (greater(low + extent - 1, p as int) - lesser(low as int, p as int) + 1
            <= i32::MAX),
{
    let far: i64 = low as i64 + extent as i64 - 1;
    let high: i64 = if far >= p as i64 { far } else { p as i64 };
    let near: i64 = if low <= p { low as i64 } else { p as i64 };
    high - near < i32::MAX as i64
}

impl Section {
    /// Whether `grow` may be called with `pos`.
    pub fn can_grow(&self, pos: Coordinate) -> (fits: bool)
        requires
            self.wf(),
        ensures
            fits == self.grow_fits(pos),
    {
        axis_fits(self.position.x, self.size.x, pos.x) && axis_fits(
            self.position.y,
            self.size.y,
            pos.y,
        ) && axis_fits(self.position.z, self.size.z, pos.z)
    }

    /// Extends the box by as little as takes `pos` in. On each axis the box
    /// is lengthened past its far corner by what `pos` lies beyond it, and
    /// past its near corner likewise, which also moves `position`.
    pub fn grow(&mut self, pos: Coordinate)
        requires
            old(self).wf(),
            old(self).grow_fits(pos),
        ensures
            final(self)@ == old(self)@.grown(point(pos)),
            final(self).wf(),
            final(self).contains(point(pos)),
            final(self).size.x >= old(self).size.x,
            final(self).size.y >= old(self).size.y,
            final(self).size.z >= old(self).size.z,
            forall|p: (int, int, int)| old(self).contains(p) ==> final(self).contains(p),
    {
        let corner = Coordinate {
            x: self.position.x + (self.size.x - 1),
            y: self.position.y + (self.size.y - 1),
            z: self.position.z + (self.size.z - 1),
        };
        let above = Coordinate {
            x: positive(pos.x - corner.x),
            y: positive(pos.y - corner.y),
            z: positive(pos.z - corner.z),
        };
        self.size = Coordinate {
            x: self.size.x + above.x,
            y: self.size.y + above.y,
            z: self.size.z + above.z,
        };
        let below = Coordinate {
            x: positive(self.position.x - pos.x),
            y: positive(self.position.y - pos.y),
            z: positive(self.position.z - pos.z),
        };
        self.position = Coordinate {
            x: self.position.x - below.x,
            y: self.position.y - below.y,
            z: self.position.z - below.z,
        };
        self.size = Coordinate {
            x: self.size.x + below.x,
            y: self.size.y + below.y,
            z: self.size.z + below.z,
        };
    }
}

/// `v` where it is positive, and zero otherwise.
fn positive(v: i32) -> (r: i32)
    ensures
        r == greater(v as int, 0),
{
    if v > 0 {
        v
    } else {
        0
    }
}

/// What trimming to the end does to a box: the result is a box inside the
/// first, it has lost no block, and no further trim applies to it.
pub proof fn lemma_tightened(s: Section, voxels: Voxels)
    requires
        s.wf(),
    ensures
        s.tightened(voxels).wf(),
        s.tightened(voxels).size.x <= s.size.x,
        s.tightened(voxels).size.y <= s.size.y,
        s.tightened(voxels).size.z <= s.size.z,
        s.tightened(voxels).girth() <= s.girth(),
        s.tightened(voxels).next_trim(voxels) is None,
        s.tightened(voxels).tightened(voxels) == s.tightened(voxels),
        s.next_trim(voxels) is None ==> s.tightened(voxels) == s,
        forall|p: (int, int, int)| #[trigger] s.tightened(voxels).contains(p) ==> s.contains(p),
        forall|p: (int, int, int)|
            s.contains(p) && block_at(voxels, p) != EMPTY ==> #[trigger] s.tightened(voxels).contains(p),
    decreases s.girth(),
{
    match s.next_trim(voxels) {
        Some(face) => {
            let t = s.trimmed(face);
            lemma_tightened(t, voxels);
            assert forall|p: (int, int, int)| s.contains(p) && block_at(voxels, p) != EMPTY implies t.contains(
                p,
            ) by {
                if in_region(p, s.slab_start(face), s.slab_size(face)) {
                    assert(block_at(voxels, (p.0, p.1, p.2)) == EMPTY);
                }
            }
        },
        None => {},
    }
}

impl Section {
    /// The slab that makes up `face`, as its minimum corner and its extent.
    fn slab(&self, face: Face) -> (slab: (Coordinate, Coordinate))
        requires
            self.wf(),
        ensures
            slab.0 == self.slab_start(face),
            slab.1 == self.slab_size(face),
            region_fits(slab.0, slab.1),
    {
        let start = match face {
            Face::HighX => Coordinate { x: self.position.x + (self.size.x - 1), ..self.position },
            Face::HighY => Coordinate { y: self.position.y + (self.size.y - 1), ..self.position },
            Face::HighZ => Coordinate { z: self.position.z + (self.size.z - 1), ..self.position },
            _ => self.position,
        };
        let size = match face {
            Face::LowX | Face::HighX => Coordinate { x: 1, ..self.size },
            Face::LowY | Face::HighY => Coordinate { y: 1, ..self.size },
            Face::LowZ | Face::HighZ => Coordinate { z: 1, ..self.size },
        };
        (start, size)
    }

    /// Whether `face` holds no block in `world`.
    pub fn is_face_empty(&self, world: &World, face: Face) -> (empty: bool)
        requires
            self.wf(),
        ensures
            empty == self.face_is_empty(world@, face),
    {
        let (start, size) = self.slab(face);
        !world.has_block(start, size)
    }

    /// The first face, in the order of `Face`, that holds no block in
    /// `world`.
    pub fn find_empty_face(&self, world: &World) -> (face: Option<Face>)
        requires
            self.wf(),
        ensures
            face == self.first_empty_face(world@),
    {
        if self.is_face_empty(world, Face::LowX) {
            Some(Face::LowX)
        } else if self.is_face_empty(world, Face::HighX) {
            Some(Face::HighX)
        } else if self.is_face_empty(world, Face::LowY) {
            Some(Face::LowY)
        } else if self.is_face_empty(world, Face::HighY) {
            Some(Face::HighY)
        } else if self.is_face_empty(world, Face::LowZ) {
            Some(Face::LowZ)
        } else if self.is_face_empty(world, Face::HighZ) {
            Some(Face::HighZ)
        } else {
            None
        }
    }

    /// Trims the box towards the blocks of `world`. The first empty face is
    /// cut off, unless the box is one voxel thick there, in which case
    /// nothing changes; after a cut the trimming is taken up again, six
    /// times over, on the box that is left. In effect faces are cut off
    /// until the first empty face lies on an axis of extent one, or no face
    /// is empty.
    pub fn shrink(&mut self, world: &World)
        requires
            old(self).wf(),
        ensures
            *final(self) == old(self).tightened(world@),
            final(self).wf(),
            final(self).size.x <= old(self).size.x,
            final(self).size.y <= old(self).size.y,
            final(self).size.z <= old(self).size.z,
            final(self).next_trim(world@) is None,
            old(self).first_empty_face(world@) is None ==> *final(self) == *old(self),
            forall|p: (int, int, int)| #[trigger] final(self).contains(p) ==> old(self).contains(p),
            forall|p: (int, int, int)|
                old(self).contains(p) && block_at(world@, p) != EMPTY ==> #[trigger] final(self).contains(p),
        decreases old(self).girth(),
    {
        let ghost start = *self;
        proof {
            lemma_tightened(start, world@);
        }
        let face = match self.find_empty_face(world) {
            Some(face) => face,
            None => {
                return ;
            },
        };
        match face {
            Face::LowX | Face::HighX => {
                self.size.x = self.size.x - 1;
            },
            Face::LowY | Face::HighY => {
                self.size.y = self.size.y - 1;
            },
            Face::LowZ | Face::HighZ => {
                self.size.z = self.size.z - 1;
            },
        }
        if self.size.x == 0 {
            self.size.x = 1;
            return ;
        }
        if self.size.y == 0 {
            self.size.y = 1;
            return ;
        }
        if self.size.z == 0 {
            self.size.z = 1;
            return ;
        }
        match face {
            Face::LowX => {
                self.position.x = self.position.x + 1;
            },
            Face::LowY => {
                self.position.y = self.position.y + 1;
            },
            Face::LowZ => {
                self.position.z = self.position.z + 1;
            },
            _ => {},
        }
        assert(*self == start.trimmed(face));
        let mut retry: u8 = 0;
        while retry < 6
            invariant
                retry <= 6,
                start == *old(self),
                self.wf(),
                self.girth() < start.girth(),
                self.tightened(world@) == start.tightened(world@),
                retry > 0 ==> *self == start.tightened(world@),
            decreases 6 - retry,
        {
            proof {
                lemma_tightened(*self, world@);
            }
            self.shrink(world);
            retry += 1;
        }
    }
}

/// Growing is minimal: a box that holds both `b` and `p` holds all of
/// `b.grown(p)`.
pub proof fn lemma_grown_is_least(b: Bounds, p: (int, int, int), other: Bounds)
    requires
        b.wf(),
        other.contains(p),
        forall|q: (int, int, int)| b.contains(q) ==> other.contains(q),
    ensures
        forall|q: (int, int, int)| b.grown(p).contains(q) ==> other.contains(q),
{
    let high = (
        b.low.0 + b.extent.0 - 1,
        b.low.1 + b.extent.1 - 1,
        b.low.2 + b.extent.2 - 1,
    );
    assert(b.contains(b.low));
    assert(b.contains(high));
}

/// Growing never shrinks: for every box and every point, the grown box is
/// no smaller on any axis, holds the point, and holds every point the box
/// held.
pub proof fn lemma_grown_keeps_points(b: Bounds, p: (int, int, int))
    requires
        b.wf(),
    ensures
        b.grown(p).wf(),
        b.grown(p).extent.0 >= b.extent.0,
        b.grown(p).extent.1 >= b.extent.1,
        b.grown(p).extent.2 >= b.extent.2,
        b.grown(p).contains(p),
        forall|q: (int, int, int)| b.contains(q) ==> b.grown(p).contains(q),
{
}

/// After any run of points has been taken in, the box is no smaller on any
/// axis, it still holds every point it held, and it holds every point of
/// the run.
pub proof fn lemma_grown_by_keeps_points(b: Bounds, points: Seq<(int, int, int)>)
    requires
        b.wf(),
    ensures
        b.grown_by(points).wf(),
        b.grown_by(points).extent.0 >= b.extent.0,
        b.grown_by(points).extent.1 >= b.extent.1,
        b.grown_by(points).extent.2 >= b.extent.2,
        forall|q: (int, int, int)| b.contains(q) ==> b.grown_by(points).contains(q),
        forall|i: int| 0 <= i < points.len() ==> b.grown_by(points).contains(#[trigger] points[i]),
    decreases points.len(),
{
    if points.len() > 0 {
        let front = points.drop_last();
        lemma_grown_by_keeps_points(b, front);
        let before = b.grown_by(front);
        lemma_grown_keeps_points(before, points.last());
        assert forall|i: int| 0 <= i < points.len() implies b.grown_by(points).contains(
            #[trigger] points[i],
        ) by {
            if i < front.len() {
                assert(points[i] == front[i]);
                assert(before.contains(front[i]));
            }
        }
    }
}

} // verus!
