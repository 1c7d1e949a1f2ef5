//! The feed bot: it polls the podcast's RSS feed and announces new episodes to
//! Matrix users and rooms.

pub mod announcement;
pub mod avatar;
pub mod content;
pub mod entry;
pub mod items;
pub mod poll;
