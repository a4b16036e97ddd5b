//! A small key-value store that is spoken to in lines of text, with the
//! contracts of its parts proved.
//!
//! The store itself is in `store`, the values it holds in `resource`, the
//! reading of a request in `wire`, the answering of one in `dispatch`, and the
//! life of a server around them in `server`. `json` reads and writes JSON
//! through `serde_json`; `human` and `document` are two kinds of value that
//! can be stored. `laws` states what holds of these parts together.
//!
//! The other modules are small tools of their own: `putchr` puts characters
//! out as UTF-8, `trace` writes an indented trace of calls, `compositions`
//! counts ordered sums, `dot` ripples bits through counters, `echo` decides
//! the steps of an echo server, `ports` draws a port, and `data` holds a
//! value.

pub mod compositions;
pub mod data;
pub mod dispatch;
pub mod document;
pub mod dot;
pub mod echo;
pub mod error;
pub mod human;
pub mod json;
pub mod laws;
pub mod ports;
pub mod putchr;
pub mod resource;
pub mod server;
pub mod store;
pub mod text;
pub mod trace;
pub mod wire;
