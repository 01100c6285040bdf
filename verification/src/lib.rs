//! A user-space client for NFS version 4.1 that speaks the protocol itself,
//! without a mount.
//!
//! The layers, from the bottom:
//!
//! - [`xdr`]: the XDR codec, as specification functions and as executable
//!   functions proved to compute them;
//! - [`bitmap`] and [`enum_map`]: sets of identifiers as little bitmaps, and
//!   attribute maps as a bitmap and one opaque body;
//! - [`basic`], [`flags`], [`status`], [`attr`], [`args`], [`res`], [`ops`]:
//!   the types of NFSv4.1, each with its encoding;
//! - [`rpc`] and [`rpc_client`]: the messages of Sun-RPC, record marking and
//!   the transport;
//! - [`compound`] and [`requests`]: requests that know their operations and
//!   take their results from a reply;
//! - [`client`]: the session, and the file system methods.
//!
//! [`path`], [`attr_text`], [`ports`] and [`text`] read the texts that come
//! from a command line or from the monitor of a virtual machine.

pub mod args;
pub mod attr;
pub mod attr_text;
pub mod basic;
pub mod bitmap;
pub mod client;
pub mod compound;
pub mod enum_map;
pub mod flags;
pub mod ops;
pub mod path;
pub mod ports;
pub mod requests;
pub mod res;
pub mod rpc;
pub mod rpc_client;
pub mod status;
pub mod text;
pub mod xdr;

pub use crate::client::Client;
pub use crate::compound::Error;
pub use crate::rpc_client::{Link, RpcClient, Transport};
