pub mod doctor;
pub mod executor;
pub mod export;
pub mod grep;
pub mod prune;
pub mod stats;

pub use executor::Executor;
