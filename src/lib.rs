//! A small non-blocking HTTP/1.1 client engine.
//!
//! The engine keeps every in-flight request as an explicit state machine:
//! name resolution, connecting, sending the request, reading the response
//! head and streaming the body (identity or chunked). It performs no I/O of
//! its own: the caller owns the sockets, the poller and the clock, performs
//! the actions the engine asks for and hands the outcomes back.

pub mod body;
pub mod chunked;
pub mod client;
pub mod dns;
pub mod head;
pub mod http;
pub mod simple;
pub mod util;

pub use client::{Action, CachedAddr, Client, ConnectTo, InternalReq, Phase, Setup};
pub use dns::{DnsClient, DnsId, DnsOutcome, DnsResponse, SocketCommand};
pub use http::{
    Header, Method, Mode, OwnedHeader, Query, ReqId, Request, RequestBuilder, Response,
    ResponseHead, ResponseState, Status, Uri,
};
pub use simple::SimpleResponse;
pub use util::hash;
