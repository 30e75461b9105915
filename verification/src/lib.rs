//! Text cleaning, chunking and scoring logic of the ATS ranker.

pub mod text;
pub mod utils;
pub mod json;
pub mod model;
pub mod scoring;
pub mod slugs;
pub mod providers;
pub mod vectorize;
pub mod schema;
