//! Verified core of an n2n edge client: parsing of the edge's management
//! replies and console output, the rules that drive a connection, and the
//! stores for saved servers and settings.

pub mod text;
pub mod trusted;
pub mod addr;
pub mod strmap;
pub mod management;
pub mod edge;
pub mod connection;
pub mod servers;
pub mod commands;
pub mod discovery;
pub mod logs;
pub mod tap;
