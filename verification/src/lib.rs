//! Coordination service between game-server proxies and a community platform.
//!
//! Proxies register the servers they front, ask whether a connecting player may
//! enter one of them, and subscribe to notifications about players whose
//! standing changed. The decision rests on a community account linked to the
//! player, on that account's membership of the proxy's group, and on the role a
//! server requires.

pub mod access;
pub mod address;
pub mod bus;
pub mod events;
pub mod linking;
pub mod minecraft;
pub mod model;
pub mod oauth;
pub mod registry;
pub mod service;
pub mod snowflake;
pub mod status;
pub mod store;
pub mod table;
pub mod uptime;
