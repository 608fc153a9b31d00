//! Core of a terminal client for an XML-RPC virtualization-management API:
//! the wire codec, the embedded document format, the resource registry and
//! the navigation engine.

pub mod text;
pub mod xml;
pub mod value;
pub mod encode;
pub mod error;
pub mod decode;
pub mod document;
pub mod transcode;
pub mod envelope;
pub mod extract;
pub mod registry;
pub mod auth;
pub mod client;
pub mod dispatch;
pub mod format;
pub mod navigation;
pub mod config;
pub mod splash;
pub mod input;
pub mod payload;
pub mod wire;
