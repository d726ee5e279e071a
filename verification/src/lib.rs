//! A server for two players of Lines of Action, and what a player needs to
//! talk to it.
//!
//! * [`board`] holds the board and the one rule a move is held to.
//! * [`command`] holds what travels between a connection and the engine.
//! * [`player`] holds what the engine knows of a player.
//! * [`engine`] is the single owner of the game: it takes commands one by
//!   one and says which answers are due to whom.
//! * [`laws`] states what holds of the engine whatever is put to it.
//! * [`protocol`] is the grammar of the text that goes over the wire.
//! * [`server`] reads what a connection sent and words the answers.
//! * [`api`] words a player's requests and reads the server's answers.
//! * [`draw`] turns a board into shapes to paint.
//! * [`text`] holds small tools for reading and writing text.
//!
//! Nothing here opens a socket, starts a thread or paints a pixel: the
//! library decides, and whoever uses it carries the decisions out.

pub mod api;
pub mod board;
pub mod command;
pub mod draw;
pub mod engine;
pub mod laws;
pub mod player;
pub mod protocol;
pub mod server;
pub mod text;
