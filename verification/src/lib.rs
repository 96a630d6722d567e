//! Verified core of the ellipsoid flat-pattern generator.
//!
//! The geometry itself is floating point and is computed by the caller. What
//! is here is everything around it that is exact: the units and projections
//! and their names in settings files, the face records of the OBJ meshes and
//! reading them back, the text of the SVG document, when settings are written
//! back between sessions, and what the app reports about files.

pub mod document;
pub mod editing;
pub mod mesh;
pub mod obj;
pub mod outline;
pub mod obj_laws;
pub mod obj_read;
pub mod persistence;
pub mod platform;
pub mod scene;
pub mod settings;
pub mod svg;
pub mod text;
pub mod units;
pub mod views;

pub use settings::{Projection, ValidationError};
pub use units::Unit;
