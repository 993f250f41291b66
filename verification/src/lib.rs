//! A source-to-source generator that turns an annotated implementation
//! block into a companion trait of "overwritable" method signatures,
//! together with a small identity-wrapping container that attaches a
//! unique string identifier to any value.

pub mod config;
pub mod model;
pub mod my_struct;
pub mod synth;
pub mod with_id;
