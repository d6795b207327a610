//! Flocon keeps a POSIX file tree inside one SQLite file and serves it over
//! FUSE. This crate holds what the file system decides and computes; the
//! program around it talks to SQLite, to the kernel and to the terminal.

pub mod asking_laws;
pub mod block_laws;
pub mod blocks;
pub mod cli;
pub mod content;
pub mod contract_laws;
pub mod database;
pub mod decision_laws;
pub mod error;
pub mod file_laws;
pub mod flocon;
pub mod handle_laws;
pub mod handler;
pub mod image_laws;
pub mod laws;
pub mod manager;
pub mod migration;
pub mod models;
pub mod modes;
pub mod operation_laws;
pub mod operations;
pub mod request_laws;
pub mod rules;
pub mod sql;
pub mod storage;
pub mod table_laws;
pub mod text;
pub mod timestamp;
pub mod tree_laws;
pub mod value_laws;
pub mod virtiofs;
pub mod winter;
