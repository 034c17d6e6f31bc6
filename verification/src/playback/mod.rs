pub mod dj;
pub mod engine;
pub mod mpris;
pub mod position;
