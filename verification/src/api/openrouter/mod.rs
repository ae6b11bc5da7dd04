//! The OpenRouter video generation API.
pub mod client;
pub mod external;
pub mod internal;
