//! The interaction core of a stacking compositor: interactive move and resize
//! grabs with the resize acknowledgement handshake, focus and stacking policy,
//! and per-window fade animations. Everything here is pure state and integer
//! arithmetic; protocol transport, input devices and rendering are driven by
//! the embedding program, which feeds events in and carries intents out.

pub mod animations;
pub mod edges;
pub mod events;
pub mod geometry;
pub mod grabs;
pub mod handlers;
pub mod stack;
pub mod state;
pub mod table;
