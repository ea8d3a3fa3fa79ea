//! RBUM helpers
pub mod rbum_scope_helper;
pub mod secret_helper;
