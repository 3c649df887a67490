//! Isocontour extraction over a rectangular grid of integer samples:
//! per-cell marching-squares classification with exact (rational)
//! interpolation, stitching of the resulting segments into paths, and
//! closing of paths that leave the grid along its outer border.

pub mod border;
pub mod cell;
pub mod field;
pub mod geometry;
pub mod path;

pub use border::CloseEdges;
pub use cell::{cell_segment, id_from_vals, Cell, CellLine, CellSegment};
pub use field::Field;
pub use geometry::{Edge, Line, Point, RichPoint};
pub use path::{paths_from_lines, ContourError, Path};
