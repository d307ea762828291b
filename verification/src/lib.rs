//! Lifecycle logic for temporary voice channels: number allocation, channel
//! naming, command cooldowns and the create / move / clean-up sequencing of
//! channels spawned from a trigger channel.

pub mod commands;
pub mod cooldown;
pub mod events;
pub mod flow;
pub mod handler;
pub mod lifecycle;
pub mod model;
pub mod numbers;
pub mod permissions;
pub mod store;
mod table;
pub mod template;
pub mod text;
