//! The decision core of a reverse proxy that starts backend services on demand
//! and stops them when they fall idle.
#![allow(unused_imports)]

pub mod auth;
pub mod clock;
pub mod config;
pub mod laws;
pub mod lifecycle;
pub mod message;
pub mod proxy;
pub mod reply;
pub mod server;
pub mod shell;
pub mod text;
