//! A client for a desktop application's local rich-presence channel.
//!
//! The protocol logic (frame codec, socket discovery, the connection state
//! machine with its one-shot reconnect policy, and the presence payload model
//! with its JSON projection) lives here and is verified. Performing the actual
//! socket and environment I/O is left to the caller, which runs the state
//! machine of [`client::DiscordIpcClient`] by carrying out each [`client::Action`]
//! and reporting the outcome as an [`client::Event`].
//!
//! Beside the client stand the small pieces of the surrounding command-line
//! tool that compute rather than perform I/O: player states, song metadata
//! taken from a catalogue search, durations as text, and the launch agent's
//! property list.

pub mod activity;
pub mod agent;
pub mod client;
pub mod codec;
pub mod error;
pub mod format;
pub mod json;
pub mod music;
pub mod runs;
pub mod transport;

pub use error::RichPresenceError;
