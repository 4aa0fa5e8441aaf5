//! Tunnels Warcraft III LAN discovery and game traffic between a host peer
//! and client peers: the wire codec of the discovery packets, the host-side
//! lobby scanner, and the client-side packet rewriter.

pub mod client;
pub mod codec;
pub mod encoding;
pub mod game_scanner;
pub mod host;
pub mod obfuscation;
pub mod packets;
pub mod response;
pub mod utils;
