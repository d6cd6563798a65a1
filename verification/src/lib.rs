//! The decisions of a speech-to-text service, verified.
//!
//! A server holds audio streams by identifier, takes messages about them over framed
//! connections, and answers with transcriptions. The modules here decide what happens; the
//! sockets, the timers and the model belong to the program around them.
//!
//! - [`frame`] puts messages into frames and reads them back;
//! - [`message`] and [`error`] are what connections carry and how they fail;
//! - [`connection`] and [`dispatch`] run a connection and act on its messages;
//! - [`stream`] holds the streams, [`model`] and [`transcript`] are about transcribing them, and
//!   [`pool`] about many transcriptions side by side;
//! - [`server`] and [`logging`] set the process up;
//! - [`client`] is the other side, for testing a server;
//! - [`text`] writes and reads numbers.

pub mod client;
pub mod connection;
pub mod dispatch;
pub mod error;
pub mod frame;
pub mod logging;
pub mod message;
pub mod model;
pub mod pool;
pub mod server;
pub mod stream;
pub mod text;
pub mod transcript;
