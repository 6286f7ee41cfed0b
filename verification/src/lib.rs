//! A user-space IPv4 protocol stack: Internet checksums, IPv4 headers, and a TCP/ICMP/UDP engine
//! that decides replies to incoming packets, independent of any I/O.

pub mod addr_pairs;
pub mod bytes;
pub mod checksum;
pub mod error;
pub mod ipv4_header;
pub mod protocol;
pub mod server;
pub mod try_ops;
pub mod application;
pub mod config;
pub mod logger;
