//! Supervision of plugin processes and the fan-out of one upstream event stream.

pub mod api;
pub mod auth;
pub mod bot;
pub mod config;
pub mod logs;
pub mod manager;
pub mod plugin;
pub mod proxy;
pub mod runner;
pub mod sse;
pub mod text;
