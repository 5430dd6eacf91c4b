//! The core of a local HTTP gateway that runs several stdio servers as child
//! processes and shares each one among many clients.

pub mod child;
pub mod command;
pub mod config;
pub mod console;
pub mod error;
pub mod json;
pub mod jsonrpc;
pub mod order;
pub mod proxy;
pub mod routes;
pub mod session;
pub mod state;
pub mod table;
pub mod text;
