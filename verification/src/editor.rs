//! The editing session: the bounding box, the reference point and the name
//! of the snapshot file last used, with the operations that act on all
//! three.

use crate::coord::Coordinate;
use crate::origin::Origin;
use crate::path::{name_of, snapshot_path, string_to_path_buf};
use crate::section::Section;
use crate::structure::{cell_index, lemma_capture_then_render, Structure};
use crate::world::{block_at, cleared, lemma_put, point, put, Block, Voxels, World, EMPTY};
use vstd::prelude::*;

verus! {

/// The height at which a session starts.
pub const SPAWN_Y: i32 = 64;

/// The voxel at which a session starts and at which a loaded structure has
/// its reference point.
pub open spec fn spawn() -> Coordinate {
    Coordinate { x: 0, y: SPAWN_Y, z: 0 }
}

/// Why a command did nothing.
#[derive(Clone, Copy, Debug, PartialEq, Eq, Structural)]
pub enum EditError {
    /// A save named no file and no file had been used before.
    PathMissing,
    /// The snapshot file could not be read.
    IoError,
    /// The snapshot file did not hold a snapshot.
    DecodeError,
}

/// What came of reading a snapshot file.
#[derive(Debug)]
pub enum FileRead {
    /// The file could not be read.
    Unreadable,
    /// The file was read and does not hold a snapshot.
    Malformed,
    /// The file held this snapshot.
    Decoded(Structure),
}

/// What a save hands on for writing.
#[derive(Debug)]
pub struct Saved {
    pub path: String,
    pub structure: Structure,
}

/// The state of an editing session.
#[derive(Debug)]
pub struct Editor {
    pub section: Section,
    pub origin: Origin,
    pub current_path: Option<String>,
}

/// The name of the file a save goes to: the one asked for, in its snapshot
/// form, and else the one last used.
pub open spec fn save_target(argument: Option<Seq<char>>, current: Option<Seq<char>>) -> Option<
    Seq<char>,
> {
    match argument {
        Some(asked) => Some(snapshot_path(asked)),
        None => current,
    }
}

/// The characters of an optional borrowed file name.
pub open spec fn asked_name(argument: Option<&str>) -> Option<Seq<char>> {
    match argument {
        Some(p) => Some(p@),
        None => None,
    }
}

/// The voxel at which a session starts.
pub fn spawn_point() -> (c: Coordinate)
    ensures
        c == spawn(),
{
    Coordinate { x: 0, y: SPAWN_Y, z: 0 }
}

impl Editor {
    /// The bounding box is well formed.
    pub open spec fn wf(&self) -> bool {
        self.section.wf()
    }

    /// Whether the offset of the reference point from the box's minimum
    /// corner is representable.
    pub open spec fn offset_fits(&self) -> bool {
        self.origin.position.offset_fits(
            -self.section.position.x,
            -self.section.position.y,
            -self.section.position.z,
        )
    }

    /// Starts a session on `world`: the block of the starter structure is
    /// put at the spawn voxel, the box is that one voxel, the reference
    /// point lies on it and no file has been used.
    pub fn setup(world: &mut World) -> (editor: Editor)
        ensures
            block_at(final(world)@, point(spawn())) != EMPTY,
            final(world)@ == put(
                old(world)@,
                point(spawn()),
                block_at(final(world)@, point(spawn())),
            ),
            editor.wf(),
            editor.section.position == spawn(),
            editor.section.size == (Coordinate { x: 1, y: 1, z: 1 }),
            editor.origin.position == spawn(),
            editor.current_path is None,
    {
        let at = spawn_point();
        let start = Structure::starter();
        let ghost before = world@;
        world.set_block(at, start.blocks[0]);
        proof {
            lemma_put(before, point(at), start.blocks@[0]);
        }
        Editor {
            section: Section { position: at, size: Coordinate { x: 1, y: 1, z: 1 } },
            origin: Origin { position: at },
            current_path: None,
        }
    }

    /// A block has been placed: it is written to `world` and the box grows
    /// to take it in, whatever the block is.
    pub fn place_block(&mut self, world: &mut World, pos: Coordinate, block: Block)
        requires
            old(self).wf(),
            old(self).section.grow_fits(pos),
        ensures
            final(world)@ == put(old(world)@, point(pos), block),
            final(self).section@ == old(self).section@.grown(point(pos)),
            final(self).wf(),
            final(self).origin == old(self).origin,
            final(self).current_path == old(self).current_path,
    {
        world.set_block(pos, block);
        self.section.grow(pos);
    }

    /// A block has been dug at: where `broken` says that it gave way, the
    /// voxel is emptied; then the box is trimmed in either case.
    pub fn digging(&mut self, world: &mut World, pos: Coordinate, broken: bool)
        requires
            old(self).wf(),
        ensures
            final(world)@ == if broken {
                put(old(world)@, point(pos), EMPTY)
            } else {
                old(world)@
            },
            final(self).section == old(self).section.tightened(final(world)@),
            final(self).wf(),
            final(self).origin == old(self).origin,
            final(self).current_path == old(self).current_path,
    {
        if broken {
            world.set_block(pos, EMPTY);
        }
        self.section.shrink(world);
    }
}

impl Editor {
    /// Whether the session holds `structure` as `load_structure` leaves it:
    /// the box is the structure's, laid out with its reference point at the
    /// spawn voxel, and the session's reference point lies there.
    pub open spec fn holds(&self, structure: &Structure) -> bool {
        &&& self.origin.position == spawn()
        &&& self.section.size == structure.size
        &&& point(self.section.position) == structure.anchor_at(spawn())
    }

    /// The world after `structure` has replaced the content of `section`:
    /// the box is emptied, then the structure is laid out with its
    /// reference point at the spawn voxel.
    pub open spec fn replaced(voxels: Voxels, section: Section, structure: &Structure) -> Voxels {
        structure.rendered(cleared(voxels, section.position, section.size), spawn())
    }

    /// Puts `structure` in the place of what the session holds.
    pub fn load_structure(&mut self, world: &mut World, structure: &Structure)
        requires
            old(self).wf(),
            structure.wf(),
            structure.fits_at(spawn()),
        ensures
            final(world)@ == Self::replaced(old(world)@, old(self).section, structure),
            final(self).holds(structure),
            final(self).wf(),
            final(self).current_path == old(self).current_path,
    {
        world.clear(self.section.position, self.section.size);
        self.origin.position = spawn_point();
        structure.render_to_layer(world, self.origin.position);
        self.section.size = structure.size;
        self.section.position = Coordinate {
            x: self.origin.position.x - structure.origin_pos.x,
            y: self.origin.position.y - structure.origin_pos.y,
            z: self.origin.position.z - structure.origin_pos.z,
        };
    }

    /// Captures the box for a save. The file is the one asked for, in its
    /// snapshot form, and else the one last used; with neither the save
    /// fails and nothing changes. Otherwise the file becomes the one last
    /// used, whatever comes of writing it.
    pub fn save(&mut self, world: &World, argument: Option<&str>) -> (result: Result<
        Saved,
        EditError,
    >)
        requires
            old(self).wf(),
            argument is Some || old(self).current_path is Some ==> old(self).offset_fits(),
        ensures
            final(self).section == old(self).section,
            final(self).origin == old(self).origin,
            match result {
                Ok(saved) => {
                    &&& save_target(asked_name(argument), name_of(old(self).current_path)) == Some(
                        saved.path@,
                    )
                    &&& saved.structure.captures(
                        world@,
                        old(self).section.position,
                        old(self).section.size,
                        old(self).origin.position,
                    )
                    &&& name_of(final(self).current_path) == Some(saved.path@)
                },
                Err(error) => {
                    &&& error == EditError::PathMissing
                    &&& argument is None
                    &&& old(self).current_path is None
                    &&& final(self).current_path is None
                },
            },
    {
        let path = match argument {
            Some(asked) => string_to_path_buf(asked),
            None => match &self.current_path {
                Some(current) => current.clone(),
                None => {
                    return Err(EditError::PathMissing);
                },
            },
        };
        let structure = Structure::from_section(
            world,
            self.section.position,
            self.section.size,
            self.origin.position,
        );
        self.current_path = Some(path.clone());
        Ok(Saved { path, structure })
    }

    /// Takes in what came of reading the snapshot file `path`. A file that
    /// could not be read or held no snapshot changes nothing; a snapshot
    /// replaces what the session holds, and `path` becomes the file last
    /// used.
    pub fn load(&mut self, world: &mut World, path: String, read: FileRead) -> (result: Result<
        (),
        EditError,
    >)
        requires
            old(self).wf(),
            read matches FileRead::Decoded(structure) ==> structure.wf() && structure.fits_at(
                spawn(),
            ),
        ensures
            match read {
                FileRead::Unreadable => {
                    &&& result == Err::<(), EditError>(EditError::IoError)
                    &&& *final(self) == *old(self)
                    &&& final(world)@ == old(world)@
                },
                FileRead::Malformed => {
                    &&& result == Err::<(), EditError>(EditError::DecodeError)
                    &&& *final(self) == *old(self)
                    &&& final(world)@ == old(world)@
                },
                FileRead::Decoded(structure) => {
                    &&& result is Ok
                    &&& final(world)@ == Self::replaced(old(world)@, old(self).section, &structure)
                    &&& final(self).holds(&structure)
                    &&& final(self).wf()
                    &&& name_of(final(self).current_path) == Some(path@)
                },
            },
    {
        match read {
            FileRead::Unreadable => Err(EditError::IoError),
            FileRead::Malformed => Err(EditError::DecodeError),
            FileRead::Decoded(structure) => {
                self.load_structure(world, &structure);
                self.current_path = Some(path);
                Ok(())
            },
        }
    }

    /// Starts over: the starter structure replaces what the session holds,
    /// and no file counts as used.
    pub fn new_structure(&mut self, world: &mut World)
        requires
            old(self).wf(),
        ensures
            block_at(final(world)@, point(spawn())) != EMPTY,
            final(world)@ == put(
                cleared(old(world)@, old(self).section.position, old(self).section.size),
                point(spawn()),
                block_at(final(world)@, point(spawn())),
            ),
            final(self).wf(),
            final(self).origin.position == spawn(),
            final(self).section.position == spawn(),
            final(self).section.size == (Coordinate { x: 1, y: 1, z: 1 }),
            final(self).current_path is None,
    {
        let structure = Structure::starter();
        self.load_structure(world, &structure);
        self.current_path = None;
        proof {
            let emptied = cleared(old(world)@, old(self).section.position, old(self).section.size);
            assert(cell_index(structure.size, 0, 0, 0) == 0) by (nonlinear_arith)
                requires
                    structure.size.y == 1,
                    structure.size.z == 1,
            ;
            assert(world@ =~= put(emptied, point(spawn()), structure.blocks@[0]));
            lemma_put(emptied, point(spawn()), structure.blocks@[0]);
        }
    }
}

/// Saving and loading again brings the region back: the box has its old
/// extent, the reference point lies where it lay in the box, and every
/// voxel of the box holds the block that lay at the same place in the box
/// when it was saved. This holds whatever the session and the world were
/// when the snapshot was loaded.
pub proof fn lemma_save_then_load(
    saved_from: Editor,
    saved_world: Voxels,
    structure: Structure,
    loaded_over: Editor,
    loaded_world: Voxels,
    after: Editor,
)
    requires
        saved_from.wf(),
        structure.captures(
            saved_world,
            saved_from.section.position,
            saved_from.section.size,
            saved_from.origin.position,
        ),
        after.holds(&structure),
    ensures
        after.section.size == saved_from.section.size,
        after.origin.position.x - after.section.position.x == saved_from.origin.position.x
            - saved_from.section.position.x,
        after.origin.position.y - after.section.position.y == saved_from.origin.position.y
            - saved_from.section.position.y,
        after.origin.position.z - after.section.position.z == saved_from.origin.position.z
            - saved_from.section.position.z,
        forall|p: (int, int, int)|
            after.section.contains(p) ==> #[trigger] block_at(
                Editor::replaced(loaded_world, loaded_over.section, &structure),
                p,
            ) == block_at(
                saved_world,
                (
                    p.0 - after.section.position.x + saved_from.section.position.x,
                    p.1 - after.section.position.y + saved_from.section.position.y,
                    p.2 - after.section.position.z + saved_from.section.position.z,
                ),
            ),
{
    lemma_capture_then_render(
        saved_world,
        saved_from.section.position,
        saved_from.section.size,
        saved_from.origin.position,
        structure,
        cleared(loaded_world, loaded_over.section.position, loaded_over.section.size),
        spawn(),
    );
}

} // verus!
