//! Core of a TCP-over-WebSocket tunneling broker.
//!
//! A local process exposes raw TCP listeners whose connections are bridged,
//! byte for byte, to remote WebSocket endpoints. A small HTTP control plane
//! decides which remote origins may create or manage tunnels. This crate
//! holds the verified heart of that system: the byte-bridging codec, the
//! tunnel lifecycle and registry, the access-control state machine over
//! scopes, the health-monitor policy, and the control-API decision logic.
//! The surrounding I/O (sockets, HTTP serving, WebSocket handshakes) is
//! driven by an unverified shell that feeds events into these functions and
//! carries their decisions out.

pub mod strutil;
pub mod flags;
pub mod errors;
pub mod message;
pub mod scope;
pub mod tunnel;
pub mod registry;
pub mod monitor;
pub mod api;
pub mod manager;
