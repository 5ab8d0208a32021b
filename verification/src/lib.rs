//! A line-framed, request-tagged multiplexing protocol and the decision logic
//! of the single-threaded server that speaks it.
//!
//! Every frame on the wire is a four-byte big-endian request identifier, a
//! UTF-8 payload and one line feed. Several requests may be in flight on one
//! connection; each answer carries the identifier of the request it answers.
#![allow(unused_imports)]

pub mod codec;
pub mod connection;
pub mod error;
pub mod reactor;
pub mod registry;
pub mod service;
pub mod transport;
pub mod wire;

use vstd::prelude::*;
