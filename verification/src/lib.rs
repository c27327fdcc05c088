//! UAP: a small datagram protocol with sessions, sequence numbers and a Lamport logical clock.
//!
//! - [`uap`]: UapHeader and UapMessage with binary encoding/decoding (big-endian)
//! - [`clock`]: the Lamport clock
//! - [`util`]: time, session identifiers and sequence numbers
//! - [`endpoint`]: the clock and the sequence of one side, and the messages that it sends
//! - [`server`]: the sessions of a server, and what it does about each event
//! - [`client`]: the states of a client, and what it does about each event
//! - [`server_laws`], [`client_laws`]: what holds of the answers of each
//! - [`timer`], [`latency`]: the client's timer, and the latency of what it receives
//! - [`conversation`]: what client and server make of each other's datagrams
//! - [`wire`], [`text`], [`report`]: numbers as bytes and as text, and the lines that are printed

pub mod client;
pub mod client_laws;
pub mod clock;
pub mod conversation;
pub mod endpoint;
pub mod latency;
pub mod report;
pub mod server;
pub mod server_laws;
pub mod text;
pub mod timer;
pub mod uap;
pub mod util;
pub mod wire;

pub use clock::LamportClock;
pub use uap::{Command, UapHeader, UapMessage, HEADER_LEN, MAGIC, VERSION};
