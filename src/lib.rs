//! Assembles a linear playthrough script for a small text adventure out of a
//! pool of reusable story fragments, each of which produces one named effect.

pub mod story_builder;
pub mod laws;
pub mod story_definition;
