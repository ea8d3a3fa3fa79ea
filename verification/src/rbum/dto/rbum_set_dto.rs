//! Resource set objects
use crate::rbum::dto::rbum_set_item_dto::RbumSetItemRelInfoResp;
use crate::rbum::rbum_enumeration::RbumScopeLevelKind;
use vstd::prelude::*;

verus! {

/// A node on the path of an item in a set
#[derive(Debug, Clone)]
pub struct RbumSetPathResp {
    pub id: String,
    pub name: String,
    pub own_paths: String,
}

/// Resource set category (node) summary, as the tree is built from it
#[derive(Debug, Clone)]
pub struct RbumSetCateSummaryResp {
    pub id: String,
    /// System (internal) code: the codes of the levels from the root, each ``node_len`` long
    pub sys_code: String,
    pub bus_code: String,
    pub name: String,
    pub icon: String,
    pub sort: i64,
    pub ext: String,
    pub rel_rbum_set_id: String,
    pub own_paths: String,
    pub owner: String,
    pub scope_level: RbumScopeLevelKind,
    /// Creation time, as a UNIX timestamp in seconds
    pub create_time: i64,
    /// Update time, as a UNIX timestamp in seconds
    pub update_time: i64,
}

/// A node of the resource tree
#[derive(Debug, Clone)]
pub struct RbumSetTreeNodeResp {
    pub id: String,
    pub sys_code: String,
    pub bus_code: String,
    pub name: String,
    pub icon: String,
    pub sort: i64,
    pub ext: String,
    /// Parent node id
    pub pid: Option<String>,
    /// Associated object id, set by the business layer
    pub rel: Option<String>,
    pub own_paths: String,
    pub owner: String,
    pub scope_level: RbumScopeLevelKind,
    /// Creation time of the category, as a UNIX timestamp in seconds
    pub create_time: i64,
    /// Update time of the category, as a UNIX timestamp in seconds
    pub update_time: i64,
}

/// Resource tree
#[derive(Debug, Clone)]
pub struct RbumSetTreeResp {
    pub main: Vec<RbumSetTreeNodeResp>,
    pub ext: Option<RbumSetTreeExtResp>,
}

/// Item information of the resource tree
#[derive(Debug, Clone)]
pub struct RbumSetTreeExtResp {
    /// ``node id -> items of the node``; the items without node are under ``""``
    pub items: Vec<(String, Vec<RbumSetItemRelInfoResp>)>,
    /// ``node id -> item kind id -> number of items``
    pub item_number_agg: Vec<(String, Vec<(String, u64)>)>,
    /// The kinds of the listed items, each once, whose records the service layer looks up
    pub item_kind_ids: Vec<String>,
    /// The domains of the listed items, each once, whose records the service layer looks up
    pub item_domain_ids: Vec<String>,
}

} // verus!
