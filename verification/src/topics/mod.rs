//! The topics bot: it is told by Trello when a card moves to the "In Discussion"
//! list and announces the card to Matrix users and rooms.

pub mod announcement;
pub mod card;
pub mod hook;
pub mod listen;
pub mod rooms;
pub mod urls;
