use vstd::prelude::*;

pub mod laws;
pub mod range;
pub mod render;
pub mod scan;
pub mod status;
