//! Basic library for BIOS: the verified core of RBUM (Resource-Based Unified Model)
//! and its helpers.
pub mod dto;
pub mod enumeration;
pub mod error;
pub mod helper;
pub mod process;
pub mod rbum;
pub mod text;
