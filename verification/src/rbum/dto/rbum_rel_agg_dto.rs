//! Aggregated resource relation objects
use crate::rbum::dto::rbum_rel_dto::RbumRelAddReq;
use crate::rbum::rbum_enumeration::RbumRelEnvKind;
use vstd::prelude::*;

verus! {

/// Add request of a relation together with its attributes and environments
#[derive(Debug, Clone)]
pub struct RbumRelAggAddReq {
    pub rel: RbumRelAddReq,
    pub attrs: Vec<RbumRelAttrAggAddReq>,
    pub envs: Vec<RbumRelEnvAggAddReq>,
}

/// Attribute of an aggregated relation add request
#[derive(Debug, Clone)]
pub struct RbumRelAttrAggAddReq {
    pub is_from: bool,
    pub value: String,
    pub name: String,
    pub record_only: bool,
    pub rel_rbum_kind_attr_id: String,
}

/// Environment of an aggregated relation add request
#[derive(Debug, Clone)]
pub struct RbumRelEnvAggAddReq {
    pub kind: RbumRelEnvKind,
    pub value1: String,
    pub value2: Option<String>,
}

} // verus!
