//! Fedsurf, a browser for the Federate Network: the browser's own logic.
//!
//! - [`tabs`]: the tab model (order, metadata, active tab), every chrome
//!   operation on it, shortcut actions and window titles;
//! - [`address`]: what the address bar makes of typed input;
//! - [`fed_protocol`]: the canonical `fed://` form of request URLs and the
//!   response (verified content or a branded page) to every resolution outcome;
//! - [`ipc`]: messages from tab pages over the `fedsurf-ipc` scheme;
//! - [`ua`]: the user agent and the script injected into every tab;
//! - [`base64`], [`decimal`], [`text`]: encodings and string primitives.
//!
//! Windows, webviews, the resolver's network and disk access and the
//! operating system are driven by the application around this library.

pub mod address;
pub mod base64;
pub mod decimal;
pub mod deep_link;
pub mod fed_protocol;
pub mod ipc;
pub mod tabs;
pub mod text;
pub mod ua;
