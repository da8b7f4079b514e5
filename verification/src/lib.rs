//! A bridge between local HTTP clients and a browser's native-messaging host.
//!
//! The host speaks length-prefixed JSON frames over one pair of pipes and has
//! no request identifiers, so everything rests on ordering: one frame out,
//! one frame back, and never two exchanges at once. This crate holds the
//! rules of that bridge as verified code. It performs no I/O itself: the
//! [`bridge::Bridge`] state machine says what to do next, and the program
//! around it does it and reports back.
//!
//! * [`byte_order`] and [`frame`]: the frame codec.
//! * [`percent`] and [`query`]: query strings and their percent-decoding.
//! * [`http`] and [`message`]: requests, responses and the two message shapes.
//! * [`bridge`]: the request-by-request state machine and its laws.
//! * [`browser`]: what differs between browsers when the bridge is installed.

pub mod bridge;
pub mod browser;
pub mod byte_order;
pub mod frame;
pub mod http;
pub mod message;
pub mod percent;
pub mod query;
pub mod text;
