pub mod fs;
pub mod text;
pub mod json;
pub mod time;
pub mod icons;
pub mod term;
