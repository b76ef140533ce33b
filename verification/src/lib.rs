//! Switches the power and performance settings of AMD graphics devices by the
//! processes that run: the rules, the decisions of each tick and the commands
//! that carry them out.

pub mod amdgpu_device;
pub mod app;
pub mod args;
pub mod config;
pub mod knob;
pub mod number;
pub mod pci;
pub mod reconcile;
pub mod text;
pub mod utils;
