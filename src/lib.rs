//! Global hotkeys for a speedrun timer: resolves configured key names to
//! key codes, tracks which keys are held, and decides which hotkeys fire.

pub mod text;
pub mod key;
pub mod engine;
pub mod profile;
pub mod device;
pub mod commands;
