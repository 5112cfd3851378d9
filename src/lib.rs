//! Ordered hook dispatch for a modular bundler's plugins: hooks hold taps
//! with stages, interceptors supply more taps at call time (from a host
//! runtime, through a registration function with a cache), and a plugin
//! driver fills the hooks once and then only shares them.

pub mod registry;
pub mod order;
pub mod dispatch;
pub mod hook;
pub mod register;
pub mod driver;
pub mod utils;
pub mod options;
pub mod sync_hook;
pub mod module;
pub mod error;
pub mod loader;
pub mod config;
pub mod render;
