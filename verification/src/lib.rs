//! Scaffolding for applications on Ethereum layer-2 networks: the stored
//! defaults, the templates and how they are filled in, and the decisions of
//! the `init`, `config` and `doctor` commands.
//!
//! The library reads no file and writes none. It takes what was read as plain
//! values and hands back what is to be shown, stored or created.

pub mod commands;
pub mod network;
pub mod template;
pub mod text;
pub mod utils;
