//! What the graphical interface decides, apart from drawing.
pub mod app;
pub mod event;
pub mod icon;
pub mod settings;
pub mod simple;
pub mod style;
pub mod window;
