//! What travels between the server and its clients, and the decisions the server makes.

pub mod chaos;
pub mod protocol;
pub mod server;
pub mod session;
