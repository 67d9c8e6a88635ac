//! A small task tracker built as a Model-Update-View pipeline: key inputs
//! become low-level messages, a submitted line is parsed into a typed
//! command, and commands are executed against an in-memory task store.

pub mod messages;
pub mod model;
pub mod store;
pub mod text;

pub use model::Model;

