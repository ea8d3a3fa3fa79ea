//! Resource certificate objects
use crate::rbum::rbum_enumeration::{RbumCertRelKind, RbumCertStatusKind};
use vstd::prelude::*;

verus! {

/// Add request of a certificate; the times are UNIX timestamps in seconds
#[derive(Debug, Clone)]
pub struct RbumCertAddReq {
    pub ak: String,
    pub sk: Option<String>,
    pub sk_invisible: Option<bool>,
    /// Whether to skip the check of the sk against the sk rule
    pub ignore_check_sk: bool,
    pub kind: Option<String>,
    pub supplier: Option<String>,
    pub ext: Option<String>,
    pub start_time: Option<i64>,
    pub end_time: Option<i64>,
    pub conn_uri: Option<String>,
    pub status: RbumCertStatusKind,
    pub vcode: Option<String>,
    pub rel_rbum_cert_conf_id: Option<String>,
    pub rel_rbum_kind: RbumCertRelKind,
    pub rel_rbum_id: String,
    pub is_outside: bool,
}

/// Modify request of a certificate; the times are UNIX timestamps in seconds
#[derive(Debug, Clone)]
pub struct RbumCertModifyReq {
    pub ak: Option<String>,
    pub sk: Option<String>,
    pub sk_invisible: Option<bool>,
    /// Whether to skip the check of the sk against the sk rule
    pub ignore_check_sk: bool,
    pub ext: Option<String>,
    pub start_time: Option<i64>,
    pub end_time: Option<i64>,
    pub conn_uri: Option<String>,
    pub status: Option<RbumCertStatusKind>,
}

} // verus!
