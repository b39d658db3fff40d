//! Geometric pattern-detection engine for two-dimensional machine-readable
//! symbols, together with the Aztec symbol renderer and an SMTP result parser.
//!
//! The engine walks a binary pixel grid, traces noisy edges, fits lines to the
//! traced points, and locates concentric finder patterns.  All geometry is
//! carried out in exact integer and rational arithmetic, so every contract can
//! be stated and proved precisely.

pub mod aztec_writer;
pub mod bitmatrix_cursor;
pub mod bitmatrix_cursor_trait;
pub mod concentric_finder;
pub mod direction;
pub mod dm_regression_line;
pub mod edge_tracer;
pub mod fast_edge_to_edge_counter;
pub mod matrix;
pub mod pattern;
pub mod regression_line;
pub mod regression_line_trait;
pub mod smtp;
pub mod step_result;
pub mod text;
pub mod util;
pub mod value;
