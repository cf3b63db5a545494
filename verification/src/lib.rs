//! The verified logic of a network-lab backend that runs virtual machines on
//! QEMU disk overlays and opens their consoles through Guacamole.
pub mod env_map;
pub mod guacamole;
pub mod identifier;
pub mod models;
pub mod qemu;
pub mod setup;
pub mod text;
