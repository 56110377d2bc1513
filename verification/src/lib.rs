//! Routing of free-text chat requests about a media file: scoring a message
//! for the capabilities it asks for, deciding whether to ask back or to act,
//! driving the capability calls of one turn, and writing the single reply.

pub mod errors;
pub mod intent;
pub mod policy;
pub mod reply;
pub mod reports;
pub mod store;
pub mod text;
pub mod turn;
