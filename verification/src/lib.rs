//! Overlap classification of one triangle mesh against another.
//!
//! A check mesh is held against a background mesh: a triangle of the check
//! mesh overlaps when all of its points lie within a tolerance of the
//! background surface. This crate decides; it does not measure. Distances,
//! tolerances and triangle measures come to it as [`Scalar`]s, the bit patterns
//! of single-precision numbers, and everything it does with them is exact
//! integer work that is proved here:
//!
//! * [`BackgroundMesh::new`] accepts a mesh only if its triangles name
//!   vertices that exist;
//! * [`BackgroundMesh::check_points`] flags the points whose distance is
//!   strictly below the tolerance;
//! * [`BackgroundMesh::check_element`] and
//!   [`BackgroundMesh::partition_elements`] read the flags triangle by
//!   triangle;
//! * [`smallest_positive`] picks the triangle that sets the scale of a default
//!   tolerance;
//! * [`triangles_from_cells`] turns connectivity as mesh files store it into
//!   triangles.

pub mod cells;
pub mod laws;
pub mod mesh;
pub mod partition;
pub mod scalar;
pub mod status;
pub mod tolerance;

pub use cells::{triangles_from_cells, CellError};
pub use mesh::{BackgroundMesh, MeshError};
pub use partition::{Partition, PartitionError};
pub use scalar::Scalar;
pub use tolerance::{smallest_positive, ToleranceError};
