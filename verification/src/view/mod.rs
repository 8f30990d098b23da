//! The map view that an embedding host drives, and its style.

pub mod view;
