//! Decision logic of a self-extracting launcher.

pub mod archive;
pub mod disk;
pub mod extract;
pub mod flow;
pub mod invoke;
pub mod launcher;
pub mod layout;
pub mod locator;
pub mod paths;
pub mod staleness;
pub mod world;
