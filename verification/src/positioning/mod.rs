//! Positioning engine: placement vocabulary, candidate selection and
//! containing-block detection for floating elements.
pub mod auto_update;
pub mod candidates;
pub mod dom;
pub mod types;
