//! Core library of a client-side DPI-circumvention engine.
//!
//! The engine intercepts IP packets on the host, recognises HTTP, TLS,
//! QUIC and DNS flows, and transforms them so that censorship middleboxes
//! fail to classify the connection while the far endpoint still sees a
//! valid byte stream.
//!
//! This crate holds the verified core: the packet model and its byte-level
//! mutators, the bypass strategies, the execution pipeline, the
//! connection-tracking tables, the domain filter, the configuration types
//! and the capture-filter expression builder.  Everything that talks to
//! the outside world (the kernel driver, files, the console) lives in the
//! unverified front end built on top of this library.

pub mod addr;
pub mod builder;
pub mod capture;
pub mod capture_filter;
pub mod config;
pub mod conntrack;
pub mod context;
pub mod dns_redirect;
pub mod error;
pub mod fake_packet;
pub mod filter;
pub mod fragment;
pub mod header_mangle;
pub mod packet;
pub mod parser;
pub mod passive_dpi;
pub mod pipeline;
pub mod ports;
pub mod profile;
pub mod quic_block;
pub mod strategy;
pub mod types;
pub mod util;
