pub mod allow_list;
pub mod channel;
pub mod error;
pub mod frames;
pub mod ids;
pub mod json;
pub mod laws;
pub mod message;
pub mod queue;
pub mod security;
pub mod service;
pub mod session;
pub mod state;
pub mod table;
pub mod text;
