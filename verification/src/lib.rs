//! Automatic class-activity attendance for HKMU's Online Learning Environment.

pub mod text;
pub mod html;
pub mod web_url;
pub mod cookie;
pub mod ltpa;
pub mod error;
pub mod time;
pub mod secret;
pub mod config;
pub mod schedule;
pub mod wire;
pub mod attendance;
pub mod poll;
pub mod setup;
pub mod oleconnect;
pub mod gateway;
pub mod session;
pub mod session_cache;
pub mod auth;
