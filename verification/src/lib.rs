//! A minimal web server core: the HTTP message codec, the in-memory resource
//! table, the scheduling rules of the worker pool and the bookkeeping of the
//! readiness-driven reactor, each with a verified contract.
//!
//! Sockets, threads and the operating system's readiness facility stay with
//! the caller. The library decides; the caller performs.

pub mod cli;
pub mod decimal;
pub mod event_loop;
pub mod file;
pub mod headers;
pub mod laws;
pub mod penetrator;
pub mod request;
pub mod response;
pub mod text;
pub mod threaded;
