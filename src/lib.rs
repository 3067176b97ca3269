//! Writer for the chunked voxel model format: accumulates colored voxels into
//! bounded cubes and serialises them, with a scene graph and a palette, into the
//! bytes of a model file.
pub mod bounds;
pub mod chunks;
pub mod codec;
pub mod dict;
pub mod partition;
pub mod table;
pub mod writer;

pub use bounds::{Point3, AABBCC};
pub use chunks::{Model, Ngrp, Nshp, Ntrn, Size, LAYR, RGBA, XYZI};
pub use codec::{get_id_char, get_id_u8};
pub use dict::{DICTitem, DICTstring, DICT};
pub use table::Table;
pub use writer::{VoxCube, VoxWriter, MAX_CUBES};
