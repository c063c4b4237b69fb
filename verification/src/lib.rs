//! Navigation and fetch engine for a small Gemini client: address
//! resolution, a redirect-following fetch state machine, an asynchronous
//! fetch coordinator, and navigation history.

pub mod address;
pub mod document;
pub mod fetch;
pub mod history;
pub mod session;
