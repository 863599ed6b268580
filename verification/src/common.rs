//! Shared rendering helpers.

pub mod description_builder;
pub mod numbers;
