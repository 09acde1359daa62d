//! Core logic of a permissive SMTP receiver: the conversation state machine, the
//! addresses and file names it derives, where accepted emails are stored, and which old
//! data is cleaned up.
pub mod text;
pub mod address;
pub mod time;
pub mod session;
pub mod protocol;
pub mod storage;
pub mod firebase;
pub mod cleanup;
pub mod config;
pub mod tls;
