//! A verified interpreter for a chain of image filters.
//!
//! The library parses a flat token stream (filter names followed by their
//! arguments) into a validated list of operations, and applies those
//! operations in order to an image through the `image` crate.

pub mod digits;
pub mod realnum;
pub mod chain;
pub mod image_ops;
pub mod apply;
pub mod usage;

pub use chain::FilterOp;
pub use chain::PipelineError;
pub use chain::parse_chain;
pub use apply::apply_op;
pub use apply::apply_chain;
pub use apply::crop_checked;
pub use apply::integer_sampled;
pub use apply::invert_twice;
pub use apply::rotate90_four_times;
pub use apply::rotate90_then_270;
pub use apply::rotate180_twice;
pub use apply::grayscale_twice;
pub use usage::usage_lines;
