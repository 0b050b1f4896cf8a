//! A runtime-editable, strongly typed model of GPU uniform bindings: values
//! that encode to exact buffer layouts, conversions between their
//! representations, and the repair loop that reshapes a binding set until a
//! shader accepts it.
//!
//! - [`float`] and [`rounding`]: binary32 numbers as bit patterns, with the
//!   conversions and sums that the values need, in integer arithmetic.
//! - [`bytes`]: layouts as words, and their little-endian bytes.
//! - [`uniform_types`]: scalars, vectors, matrices, transforms and built-ins.
//! - [`binding`], [`group`], [`uniforms`]: named values with their buffers,
//!   groups of them, and the set of all groups.
//! - [`edit`]: what an editor asks of a set.
//! - [`reconciler`]: the repair loop.
//! - [`json`], [`persistence`], [`saved_sets`]: records of a persistence file,
//!   and how values and sets are written to them and read back.
//! - [`time_keeper`]: the clock that feeds the time binding.

pub mod binding;
pub mod bytes;
pub mod edit;
pub mod float;
pub mod group;
pub mod json;
pub mod persistence;
pub mod reconciler;
pub mod rounding;
pub mod saved_sets;
pub mod time_keeper;
pub mod uniform_types;
pub mod uniforms;
