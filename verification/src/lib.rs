//! The logic of cccp, a network file transfer utility, with its behaviour stated in contracts
//! and proved.

pub mod archive;
pub mod bytes;
pub mod cipher;
pub mod error;
pub mod hash;
pub mod install;
pub mod items;
pub mod keys;
pub mod options;
pub mod packet;
pub mod receiver;
pub mod retry;
pub mod sender;
pub mod session;
pub mod stats;
pub mod text;
pub mod transfer;
