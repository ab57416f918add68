//! A minimal record-management service, verified: the byte-level request
//! dispatch of a small HTTP-over-TCP interface to a users table, and the
//! persistence gateway it calls, with contracts for every operation.
pub mod codec;
pub mod http;
pub mod laws;
pub mod store;
pub mod text;
pub mod user;
