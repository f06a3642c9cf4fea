//! A node library for the Interledger Protocol v4 (ILPv4).
//!
//! ILPv4 routes payment packets hop by hop: a node receives a `Prepare`
//! packet, validates and transforms it, and eventually answers with either a
//! `Fulfill` (success) or a `Reject` (typed failure).  This crate holds the
//! node's core: the binary packet codec, the error-code taxonomy, the
//! service abstraction that composes request-processing stages, the Echo
//! protocol handler, the ILDCP client, the metrics wrappers, and the
//! compute side of the ILP-over-HTTP transport.

pub mod address;
pub mod decimal;
pub mod echo;
pub mod errorcode;
pub mod http;
pub mod ildcp;
pub mod metrics;
pub mod oer;
pub mod packet;
pub mod service;
pub mod text;
pub mod timestamp;
