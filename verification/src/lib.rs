//! Mesh reading and writing for the VTK legacy data model.

pub mod assoc;
pub mod cell_types;
pub mod grouping;
pub mod mesh;
pub mod model;
pub mod read;
pub mod round_trip;
pub mod text;
pub mod topology;
pub mod write;
