//! A signaling relay for pairs of WebRTC peers.
//!
//! Two peers meet in a room named by a shared identifier and exchange the
//! session descriptions and ICE candidates they need to open a direct
//! connection. The relay keeps the table of rooms, admits at most two peers
//! to each, and fans every accepted frame out to the room unchanged.

pub mod channel;
pub mod json;
pub mod protocol;
pub mod registry;
pub mod session;
