//! The bridge between the Messages API and the web chat endpoints: which
//! events of an upstream stream reach the client, how a response that stops for
//! a tool is paused and later resumed, and what the requests on the way hold.
//!
//! Everything here is a decision on plain values. Sockets, timers, channels that
//! are awaited and the wire format belong to the program around the library.
pub mod channel;
pub mod claude;
pub mod completion;
pub mod count;
pub mod endpoint;
pub mod error;
pub mod events;
pub mod header;
pub mod ident;
pub mod json;
pub mod request;
pub mod session;
pub mod session_laws;
pub mod sse;
pub mod state;
pub mod string_map;
pub mod text;
pub mod tool_stream;
pub mod transform;
