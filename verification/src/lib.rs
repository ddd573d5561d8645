//! Core logic of the traffic-redirection layer of a game-server launcher:
//! certificate-authority management, the per-connection interception state
//! machine, HTTP request routing and rewriting, proxy lifecycle control, and
//! the process-liveness watcher that tears the proxy down when the watched
//! game process exits.

pub mod assets;
pub mod bytes;
pub mod ca;
pub mod encoding;
pub mod http;
pub mod lifecycle;
pub mod router;
pub mod session;
pub mod tls;
pub mod web;
