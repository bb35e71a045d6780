pub mod cache;
pub mod registry;
pub mod scanner;
pub mod session;

pub use session::{Session, SessionHealth};
