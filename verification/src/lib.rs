//! Route matching and per-connection dispatch decisions of a request router.
//!
//! A router holds an ordered table of routes. Each route pairs a method and a
//! path pattern with the address of a backend. A request is answered by the
//! first route of the table that accepts it; a request that no route accepts
//! gets a fixed reply.

pub mod connection;
pub mod method;
pub mod params;
pub mod pattern;
pub mod route;
pub mod segments;
