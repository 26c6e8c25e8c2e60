//! Sample ripping from tracker music modules (Impulse Tracker, Extended Module,
//! Scream Tracker 3, Amiga ProTracker and Unreal packages), with the
//! parsers, decoders and decisions stated and proved.

pub mod bytes;
pub mod cli;
pub mod common;
pub mod compression;
pub mod crash;
pub mod data;
pub mod deltadecode;
pub mod error;
pub mod fmt;
pub mod gui;
pub mod interface;
pub mod it;
pub mod loader;
pub mod sample;
pub mod signed;
pub mod text;
pub mod wav;

pub use error::XmoditsError;
