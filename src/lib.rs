//! Resolution of public share links into files to download, and the
//! bookkeeping of each transfer.

pub mod link;
pub mod node;
pub mod select;
pub mod transfer;
pub mod cli;
