pub mod delivery;
pub mod error;
pub mod mailbox;
pub mod message;
pub mod router;
pub mod server;
pub mod session;
pub mod state;
pub mod text;
pub mod user;
