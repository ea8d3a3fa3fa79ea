//! RBUM (Resource-Based Unified Model)
pub mod dto;
pub mod helper;
pub mod rbum_config;
pub mod rbum_enumeration;
pub mod serv;
