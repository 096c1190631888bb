//! The cloud service: its task store, API answers, authentication and
//! client messages.

pub mod state;
pub mod api;
pub mod auth;
pub mod websocket;
