//! Resource certificate configuration objects
use crate::rbum::rbum_enumeration::RbumCertConfStatusKind;
use vstd::prelude::*;

verus! {

/// Id and extension of a certificate configuration
#[derive(Debug, Clone)]
pub struct RbumCertConfIdAndExtResp {
    pub id: String,
    pub ext: String,
}

/// Add request of a certificate configuration
#[derive(Debug, Clone)]
pub struct RbumCertConfAddReq {
    pub kind: String,
    pub supplier: Option<String>,
    pub name: String,
    pub note: Option<String>,
    pub ak_rule: Option<String>,
    pub ak_note: Option<String>,
    pub sk_rule: Option<String>,
    pub sk_note: Option<String>,
    pub ext: Option<String>,
    pub sk_need: Option<bool>,
    pub sk_dynamic: Option<bool>,
    pub sk_encrypted: Option<bool>,
    pub repeatable: Option<bool>,
    pub is_basic: Option<bool>,
    pub rest_by_kinds: Option<String>,
    pub expire_sec: Option<i64>,
    pub sk_lock_err_times: Option<i16>,
    pub sk_lock_duration_sec: Option<i32>,
    pub sk_lock_cycle_sec: Option<i32>,
    pub coexist_num: Option<i16>,
    pub conn_uri: Option<String>,
    pub status: RbumCertConfStatusKind,
    pub rel_rbum_domain_id: String,
    pub rel_rbum_item_id: Option<String>,
}

/// Modify request of a certificate configuration
#[derive(Debug, Clone)]
pub struct RbumCertConfModifyReq {
    pub name: Option<String>,
    pub note: Option<String>,
    pub ak_rule: Option<String>,
    pub ak_note: Option<String>,
    pub sk_rule: Option<String>,
    pub sk_note: Option<String>,
    pub ext: Option<String>,
    pub sk_need: Option<bool>,
    pub sk_encrypted: Option<bool>,
    pub repeatable: Option<bool>,
    pub is_basic: Option<bool>,
    pub rest_by_kinds: Option<String>,
    pub expire_sec: Option<i64>,
    pub sk_lock_err_times: Option<i16>,
    pub sk_lock_duration_sec: Option<i32>,
    pub sk_lock_cycle_sec: Option<i32>,
    pub coexist_num: Option<i16>,
    pub conn_uri: Option<String>,
    pub status: Option<RbumCertConfStatusKind>,
}

/// Detail of a certificate configuration; the times are UNIX timestamps in seconds
#[derive(Debug, Clone)]
pub struct RbumCertConfDetailResp {
    pub id: String,
    pub kind: String,
    pub supplier: String,
    pub name: String,
    pub note: String,
    pub ak_rule: String,
    pub ak_note: String,
    pub sk_rule: String,
    pub sk_note: String,
    pub ext: String,
    pub sk_need: bool,
    pub sk_dynamic: bool,
    pub sk_encrypted: bool,
    pub repeatable: bool,
    pub is_basic: bool,
    pub rest_by_kinds: String,
    pub expire_sec: i64,
    pub sk_lock_err_times: i16,
    pub sk_lock_duration_sec: i32,
    pub sk_lock_cycle_sec: i32,
    pub coexist_num: i16,
    pub conn_uri: String,
    pub status: RbumCertConfStatusKind,
    pub rel_rbum_domain_id: String,
    pub rel_rbum_item_id: String,
    pub own_paths: String,
    pub owner: String,
    pub create_time: i64,
    pub update_time: i64,
}

} // verus!
