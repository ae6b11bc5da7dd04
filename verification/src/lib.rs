use vstd::prelude::*;

pub mod api;
pub mod cli;
pub mod number;
pub mod pipeline;
pub mod text;
pub mod upscale;
