//! Derives, from the description of a record, a mirror record whose fields
//! are selectively nullable, together with the operations that move data
//! between the two; and says what those operations do to values.
//!
//! [`opt_struct`] is the transformation: it classifies the fields of a
//! record ([`classify`]), builds the mirror ([`mirror`]), synthesizes the
//! four operations ([`synth`]) and reconciles the capabilities
//! ([`derives`]).
//!
//! [`Applicable`] is what a mirror offers. [`Mirror`] offers it for the
//! values of this crate ([`value`]), read by a [`plan::Plan`]; what the
//! operations do to such values is defined in [`merge`] and [`convert`],
//! and what holds of them is proved in [`laws`].
pub mod applicable;
pub mod applyable;
pub mod blank;
pub mod classify;
pub mod convert;
pub mod derives;
pub mod engine;
pub mod form;
pub mod laws;
pub mod merge;
pub mod mirror;
pub mod plan;
pub mod schema;
pub mod synth;
pub mod value;
pub mod vocabulary;

pub use crate::applicable::{Applicable, Mirror};
pub use crate::applyable::{Applyable, OptionalRepresentation, OptionalStructureField};
pub use crate::engine::{opt_struct, OptionalStructOutput};
