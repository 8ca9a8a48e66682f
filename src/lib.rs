//! A double-buffered, brush-editable grid of cells with dirty-region
//! tracking, a bounded undo history and randomised draw-point sampling.
//!
//! The engine is generic over the cell type: whatever a cell holds, and how a
//! brush or a threshold reads it, is supplied by the caller as closures.

pub mod rect;
pub mod double_buffer;
pub mod grid;
pub mod rng;
pub mod canvas;

pub use canvas::{BlobCanvas, Color, DrawPoint, Level, MAX_UNDOS};
pub use double_buffer::DataDoubleBuffer;
pub use grid::PointDataStore;
pub use rect::DirtyRect;
