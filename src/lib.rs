//! A small software 3D rendering engine: mesh and triangle parsing, a pixel
//! canvas with line rasterisation, and two-dimensional bouncing-box actors.

pub mod actors;
pub mod canvas;
pub mod errors;
pub mod geometry;
pub mod mesh;
pub mod text;

pub use errors::{
    EngineError, EnvironmentError, GeometryError, PointParsingError, TriangleParsingError,
};
