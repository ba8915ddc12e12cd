//! The decision core of a reverse proxy that fronts a single HTTPS/WebSocket
//! upstream: traffic accounting, request rewriting, WebSocket frame relaying
//! and path routing, each with a machine-checked contract.

pub mod bridge;
pub mod cfg;
pub mod dashboard;
pub mod handshake;
pub mod headers;
pub mod relay;
pub mod router;
pub mod snapshot;
pub mod state;
pub mod text;
pub mod tls;
pub mod traffic;
pub mod uri;
pub mod ws;
