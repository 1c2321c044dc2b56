//! The protocol logic of an NFS version 3 server, without its sockets.
//!
//! The library decodes calls, decides what to ask of the exported file system,
//! and encodes replies. It never performs I/O itself: whoever runs it carries
//! its requests out and hands the answers back.
#![allow(non_camel_case_types)]
#![allow(non_snake_case)]

pub mod client;
pub mod nfs;
pub mod nfs_args;
pub mod nfs_handlers;
pub mod rpc;
pub mod rpcwire;
pub mod tcp;
pub mod text;
pub mod transaction_table;
pub mod transaction_tracker;
pub mod vfs;
pub mod xdr;
