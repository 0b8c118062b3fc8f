//! Bughouse chess: pieces, boards and the client-side interaction state of a
//! bughouse game, together with the rules a lobby server applies to players.

pub mod force;
pub mod piece;
pub mod coord;
pub mod game;
pub mod turn;
pub mod board;
pub mod rules;
pub mod altered_game;
pub mod prod_server_helpers;
pub mod server_helpers;
pub mod server;
pub mod session_cookie;
pub mod util;
