pub mod ui;
pub mod event;
pub mod order;
pub mod navigation;
pub mod theme;
pub mod app;
pub mod folding;
