//! An XMPP client library: protocol state machines, stanza builders and parsers.
pub mod util;
pub mod xmpp;
