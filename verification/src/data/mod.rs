//! The settings and records of the graphical application.
pub mod extraction;
pub mod filters;
pub mod general;
pub mod info;
pub mod name_params;
pub mod ripping_naming;
pub mod sample_naming;
pub mod theme;
pub mod time;
