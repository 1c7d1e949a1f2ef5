//! Verified logic of the two DevZen Matrix bots: the one that announces new
//! podcast episodes and the one that announces topics taken up for discussion.

pub mod delivery;
pub mod feed;
pub mod homeserver;
pub mod message;
pub mod outside;
pub mod recipient;
pub mod text;
pub mod topics;
