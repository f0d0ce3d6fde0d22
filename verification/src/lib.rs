//! The decisions of a proxy that carries SSH over plain TCP, TLS, HTTP and UDP:
//! what a connection is, what a request asks for, how a download stream and the
//! uploads of its session run, and what is sent in answer. The library does no
//! input or output: it takes what was read or what came of an action, and says
//! what to do next.
pub mod chunk;
pub mod connect;
pub mod download;
pub mod error;
pub mod number;
pub mod options;
pub mod pump;
pub mod reply;
pub mod request;
pub mod route;
pub mod session;
pub mod text;
pub mod tls;
pub mod udp;
pub mod upload;
pub mod utf8;
