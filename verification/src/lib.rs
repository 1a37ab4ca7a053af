//! The extraction of a configuration into a QKD manager.
//!
//! A configuration names SAEs, other KMEs and directories of key files. This library decides in
//! which order a manager is filled from it (`config`), how a directory (`key_dir`) and a key
//! file (`key_file`) are imported, and how a directory is watched for new key files (`setup`,
//! `watch`, `completion`). Each of these is a machine that says what is to be done next, such as
//! reading the metadata of a file, and takes what came of it. Nothing here touches a file.

pub mod completion;
pub mod config;
pub mod error;
pub mod extractor;
pub mod imported;
pub mod key_dir;
pub mod key_file;
pub mod path;
pub mod setup;
pub mod watch;
