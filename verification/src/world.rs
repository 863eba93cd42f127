//! A save directory: where its containers lie and which cells they are
//! named after.

use crate::chunk::Chunk;
use crate::coords::{coords, coords_of};
use vstd::prelude::*;
use vstd::utf8::encode_utf8;

verus! {

/// How many directories of a save hold containers.
pub const REGION_DIRS: usize = 3;

/// A save directory, known by its path.
pub struct World {
    root: String,
}

impl View for World {
    type V = Seq<char>;

    closed spec fn view(&self) -> Seq<char> {
        self.root@
    }
}

/// The directory of containers with the given index, relative to the save:
/// the overworld's first, then one for each further dimension.
pub open spec fn region_dir_of(index: int) -> Option<Seq<char>> {
    if index == 0 {
        Some("region"@)
    } else if index == 1 {
        Some("DIM-1/region"@)
    } else if index == 2 {
        Some("DIM1/region"@)
    } else {
        None
    }
}

/// The cell to inspect for a file of the given name, held against `limit`;
/// `None` where the name is not that of a container.
pub open spec fn chunk_of(name: Seq<char>, limit: usize) -> Option<Chunk> {
    match coords_of(encode_utf8(name)) {
        Some((x, z)) => Some(Chunk { x, z, limit }),
        None => None,
    }
}

impl World {
    /// The save at `path`.
    pub fn new(path: &str) -> (world: World)
        ensures
            world@ == path@,
    {
        World { root: path.to_owned() }
    }

    /// The path the save is known by.
    pub fn root(&self) -> (path: &str)
        ensures
            path@ == self@,
    {
        self.root.as_str()
    }

    /// Names the directory of containers with the given index, relative to
    /// the save; `None` from `REGION_DIRS` on.
    pub fn region_dir(index: usize) -> (dir: Option<&'static str>)
        ensures
            match dir {
                Some(text) => region_dir_of(index as int) == Some(text@),
                None => region_dir_of(index as int) is None,
            },
            dir is Some <==> index < REGION_DIRS,
    {
        if index == 0 {
            Some("region")
        } else if index == 1 {
            Some("DIM-1/region")
        } else if index == 2 {
            Some("DIM1/region")
        } else {
            None
        }
    }

    /// Goes through the names found in one directory and gives, place for
    /// place, the cell to inspect in each file. A file whose name is not that
    /// of a container gets `None` and leaves the others as they are.
    pub fn plan(names: &Vec<String>, limit: usize) -> (chunks: Vec<Option<Chunk>>)
        ensures
            chunks@.len() == names@.len(),
            forall|i: int|
                0 <= i < names@.len() ==> #[trigger] chunks@[i] == chunk_of(names@[i]@, limit),
    {
        let mut chunks: Vec<Option<Chunk>> = Vec::new();
        let mut at: usize = 0;
        while at < names.len()
            invariant
                at <= names@.len(),
                chunks@.len() == at,
                forall|i: int| 0 <= i < at ==> #[trigger] chunks@[i] == chunk_of(names@[i]@, limit),
            decreases names@.len() - at,
        {
            let chunk = match coords(names[at].as_str().as_bytes()) {
                Some((x, z)) => Some(Chunk::new(x, z, limit)),
                None => None,
            };
            chunks.push(chunk);
            at = at + 1;
        }
        chunks
    }
}

} // verus!
