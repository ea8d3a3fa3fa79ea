//! Resource relation attribute objects
use vstd::prelude::*;

verus! {

/// Add request of a relation attribute
#[derive(Debug, Clone)]
pub struct RbumRelAttrAddReq {
    pub is_from: bool,
    pub name: Option<String>,
    pub value: String,
    pub record_only: bool,
    pub rel_rbum_kind_attr_id: Option<String>,
    pub rel_rbum_rel_id: String,
}

/// Modify request of a relation attribute
#[derive(Debug, Clone)]
pub struct RbumRelAttrModifyReq {
    pub value: String,
}

} // verus!
