//! The configuration of a tunnel client and server, verified.
//!
//! The library reads and writes the texts that configure tunnels
//! (`scheme://[bind:]port:host:port[?name=value&...]`), durations, headers, credentials and
//! server addresses; merges the command line with a configuration file; and holds the
//! decisions that a running tunnel takes without touching a socket: whether a destination
//! is allowed, how long to wait before the next attempt to connect, when an idle session
//! ends, and what to answer to a SOCKS5 client.
//!
//! Every function states what it returns over a model of its arguments: texts are
//! `Seq<char>`, and each type has a view. The calls into other crates stand behind a small
//! number of functions whose contracts are believed and not proved; each of them says so.

pub mod addr;
pub mod backoff;
pub mod cli;
pub mod config;
pub mod duration;
pub mod error;
pub mod header;
pub mod options;
pub mod protocol;
pub mod restrict;
pub mod round_trip;
pub mod sni;
pub mod socks5;
pub mod text;
pub mod tunnel;
pub mod weburl;
