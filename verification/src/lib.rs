//! Verified core of a Kademlia DHT node: command-line parsing, the XML
//! snapshot of the machine, the requests sent to the record database and
//! the decisions of the network event loop.

pub mod text;
pub mod cli;
pub mod decimal;
pub mod xml;
pub mod sysinfo_extractor;
pub mod database;
pub mod network;
pub mod rest_api;
