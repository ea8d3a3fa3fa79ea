//! Resource item attribute objects
use vstd::prelude::*;

verus! {

/// Add request of an item attribute
#[derive(Debug, Clone)]
pub struct RbumItemAttrAddReq {
    pub value: String,
    pub rel_rbum_item_id: String,
    pub rel_rbum_kind_attr_id: String,
}

/// Modify request of an item attribute
#[derive(Debug, Clone)]
pub struct RbumItemAttrModifyReq {
    pub value: String,
}

/// Add-or-modify request of the attributes of an item; ``values`` holds name/value pairs
/// with distinct names
#[derive(Debug, Clone)]
pub struct RbumItemAttrsAddOrModifyReq {
    pub values: Vec<(String, String)>,
    pub rel_rbum_item_id: String,
}

} // verus!
