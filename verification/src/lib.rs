//! Session engine for a two-player, turn-based, simultaneous-move selection
//! game played over stateless request/response calls from polling clients.
//!
//! The library keeps every rule of the game in verified code: move encoding,
//! round resolution, score progression, matchmaking, and liveness-based
//! forfeiture. Randomness and the clock enter through narrow trusted
//! wrappers; persistence is a plain in-memory row store owned by the caller.

pub mod api;
pub mod clock;
pub mod entropy;
pub mod identity;
pub mod lifecycle;
pub mod liveness;
pub mod matchmaker;
pub mod model;
pub mod moves;
pub mod response;
pub mod status;
pub mod steps;
pub mod store;
pub mod turn;
