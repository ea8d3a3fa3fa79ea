//! Helpers
pub mod db_helper;
pub mod request_helper;
