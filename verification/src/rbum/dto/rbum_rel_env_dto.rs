//! Resource relation environment objects
use crate::rbum::rbum_enumeration::RbumRelEnvKind;
use vstd::prelude::*;

verus! {

/// Add request of a relation environment
#[derive(Debug, Clone)]
pub struct RbumRelEnvAddReq {
    pub kind: RbumRelEnvKind,
    pub value1: String,
    pub value2: Option<String>,
    pub rel_rbum_rel_id: String,
}

/// Modify request of a relation environment
#[derive(Debug, Clone)]
pub struct RbumRelEnvModifyReq {
    pub value1: Option<String>,
    pub value2: Option<String>,
}

} // verus!
