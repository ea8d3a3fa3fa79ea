//! Resource relation objects
use crate::rbum::rbum_enumeration::{RbumRelEnvKind, RbumRelFromKind};
use vstd::prelude::*;

verus! {

/// Add request of a resource relation
#[derive(Debug, Clone)]
pub struct RbumRelAddReq {
    pub tag: String,
    pub note: Option<String>,
    pub from_rbum_kind: RbumRelFromKind,
    pub from_rbum_id: String,
    pub to_rbum_item_id: String,
    pub to_own_paths: String,
    pub ext: Option<String>,
    pub to_is_outside: bool,
    pub disabled: Option<bool>,
}

/// Modify request of a resource relation
#[derive(Debug, Clone)]
pub struct RbumRelModifyReq {
    pub tag: Option<String>,
    pub note: Option<String>,
    pub ext: Option<String>,
    pub disabled: Option<bool>,
}

/// Simple find request of resource relations
#[derive(Debug, Clone)]
pub struct RbumRelSimpleFindReq {
    pub tag: Option<String>,
    pub from_rbum_kind: Option<RbumRelFromKind>,
    pub from_rbum_id: Option<String>,
    pub to_rbum_item_id: Option<String>,
    pub from_own_paths: Option<String>,
    pub to_rbum_own_paths: Option<String>,
}

/// Check request of a resource relation; the attributes are name/value pairs with distinct names
#[derive(Debug, Clone)]
pub struct RbumRelCheckReq {
    pub tag: String,
    pub from_rbum_kind: RbumRelFromKind,
    pub from_rbum_id: String,
    pub to_rbum_item_id: String,
    pub from_attrs: Vec<(String, String)>,
    pub to_attrs: Vec<(String, String)>,
    pub envs: Vec<RbumRelEnvCheckReq>,
}

/// Environment condition of a relation check
#[derive(Debug, Clone)]
pub struct RbumRelEnvCheckReq {
    pub kind: RbumRelEnvKind,
    pub value: String,
}

/// Resource relation detail; the times are UNIX timestamps in seconds
#[derive(Debug, Clone)]
pub struct RbumRelDetailResp {
    pub id: String,
    pub tag: String,
    pub note: String,
    pub from_rbum_kind: RbumRelFromKind,
    pub from_rbum_id: String,
    pub from_rbum_item_name: String,
    pub from_rbum_set_name: String,
    pub from_rbum_set_cate_name: String,
    pub to_rbum_item_id: String,
    pub to_rbum_item_name: String,
    pub to_own_paths: String,
    pub ext: String,
    pub own_paths: String,
    pub owner: String,
    pub owner_name: Option<String>,
    pub create_time: i64,
    pub update_time: i64,
}

/// The essentials of a relation, seen from one of its ends
#[derive(Debug, Clone)]
pub struct RbumRelBoneResp {
    pub tag: String,
    pub note: String,
    pub from_rbum_kind: RbumRelFromKind,
    pub rel_id: String,
    pub rel_name: String,
    pub rel_own_paths: String,
    pub ext: String,
}

/// The name of the source end of a relation.
pub open spec fn from_name_of(detail: RbumRelDetailResp) -> Seq<char> {
    match detail.from_rbum_kind {
        RbumRelFromKind::Item => detail.from_rbum_item_name@,
        RbumRelFromKind::RbumSet => detail.from_rbum_set_name@,
        RbumRelFromKind::SetCate => detail.from_rbum_set_cate_name@,
        RbumRelFromKind::Cert => Seq::<char>::empty(),
    }
}

impl RbumRelBoneResp {
    /// The relation seen from its target (``package_to_info``) or from its source.
    pub fn new(detail: RbumRelDetailResp, package_to_info: bool) -> (r: RbumRelBoneResp)
        ensures
            r.tag == detail.tag,
            r.note == detail.note,
            r.from_rbum_kind == detail.from_rbum_kind,
            r.ext == detail.ext,
            package_to_info ==> r.rel_id == detail.to_rbum_item_id && r.rel_name
                == detail.to_rbum_item_name && r.rel_own_paths == detail.to_own_paths,
            !package_to_info ==> r.rel_id == detail.from_rbum_id && r.rel_name@ == from_name_of(
                detail,
            ) && r.rel_own_paths == detail.own_paths,
    {
        if package_to_info {
            RbumRelBoneResp {
                tag: detail.tag,
                note: detail.note,
                from_rbum_kind: detail.from_rbum_kind,
                rel_id: detail.to_rbum_item_id,
                rel_name: detail.to_rbum_item_name,
                rel_own_paths: detail.to_own_paths,
                ext: detail.ext,
            }
        } else {
            let rel_name = match detail.from_rbum_kind {
                RbumRelFromKind::Item => detail.from_rbum_item_name,
                RbumRelFromKind::RbumSet => detail.from_rbum_set_name,
                RbumRelFromKind::SetCate => detail.from_rbum_set_cate_name,
                RbumRelFromKind::Cert => String::new(),
            };
            RbumRelBoneResp {
                rel_name,
                tag: detail.tag,
                note: detail.note,
                from_rbum_kind: detail.from_rbum_kind,
                rel_id: detail.from_rbum_id,
                rel_own_paths: detail.own_paths,
                ext: detail.ext,
            }
        }
    }
}

} // verus!
