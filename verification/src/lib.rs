//! Verified core of a chat-driven feed subscription service.
//!
//! The library holds the logic worth proving: the per-conversation dialogue
//! state machine and its subscription-list invariants, the URL safety check
//! that guards against fetching internal network addresses, and the sweep
//! logic that turns fetched feed documents into notification messages.
//! Network and store I/O live outside, in the surrounding application.

pub mod feed;
pub mod netcheck;
pub mod states;
pub mod text;
pub mod transitions;
