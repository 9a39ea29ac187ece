//! An iterative DNS resolver core.
//!
//! The library decides, query by query, which nameserver to ask next while
//! walking the delegation chain from a root server down to an authoritative
//! answer. Sending datagrams is left to the caller: the resolver hands out
//! [`resolver::Action`]s and is fed back the parsed responses.

pub mod message;
pub mod name;
pub mod resolver;
