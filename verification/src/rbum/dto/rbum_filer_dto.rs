//! Query filters of the RBUM objects.
use crate::rbum::rbum_enumeration::{
    RbumCertConfStatusKind, RbumCertRelKind, RbumCertStatusKind, RbumRelFromKind, RbumScopeLevelKind,
    RbumSetCateLevelQueryKind,
};
use vstd::prelude::*;

verus! {

/// Basic filter, shared by all RBUM queries
///
/// 基础的过滤条件
#[derive(Debug, Clone)]
pub struct RbumBasicFilterReq {
    /// Compare the own paths only, ignore the scope level of the records
    pub ignore_scope: bool,
    pub scope_level: Option<RbumScopeLevelKind>,
    /// Also match the records under the sub own paths
    pub with_sub_own_paths: bool,
    pub rel_ctx_owner: bool,
    /// The own paths to compare with (the context's own paths when absent)
    pub own_paths: Option<String>,
    pub ids: Option<Vec<String>>,
    pub name: Option<String>,
    pub names: Option<Vec<String>>,
    pub code: Option<String>,
    pub codes: Option<Vec<String>>,
    pub enabled: Option<bool>,
    pub rbum_kind_id: Option<String>,
    pub rbum_domain_id: Option<String>,
}

impl Default for RbumBasicFilterReq {
    /// A filter that sets nothing: every flag false and every option absent.
    fn default() -> (r: Self)
        ensures
            !r.ignore_scope,
            r.scope_level is None,
            !r.with_sub_own_paths,
            !r.rel_ctx_owner,
            r.own_paths is None,
            r.ids is None,
            r.name is None,
            r.names is None,
            r.code is None,
            r.codes is None,
            r.enabled is None,
            r.rbum_kind_id is None,
            r.rbum_domain_id is None,
    {
        RbumBasicFilterReq {
            ignore_scope: false,
            scope_level: None,
            with_sub_own_paths: false,
            rel_ctx_owner: false,
            own_paths: None,
            ids: None,
            name: None,
            names: None,
            code: None,
            codes: None,
            enabled: None,
            rbum_kind_id: None,
            rbum_domain_id: None,
        }
    }
}

/// Resource certificate configuration filter
#[derive(Debug, Clone)]
pub struct RbumCertConfFilterReq {
    pub basic: RbumBasicFilterReq,
    pub kind: Option<String>,
    pub supplier: Option<String>,
    pub status: Option<RbumCertConfStatusKind>,
    pub rel_rbum_domain_id: Option<String>,
    pub rel_rbum_item_id: Option<String>,
}

/// Resource certificate filter
#[derive(Debug, Clone)]
pub struct RbumCertFilterReq {
    pub basic: RbumBasicFilterReq,
    pub id: Option<String>,
    pub ak: Option<String>,
    pub ak_like: Option<String>,
    pub kind: Option<String>,
    pub suppliers: Option<Vec<String>>,
    pub status: Option<RbumCertStatusKind>,
    pub ext: Option<String>,
    pub rel: Option<RbumItemRelFilterReq>,
    pub rel_rbum_kind: Option<RbumCertRelKind>,
    pub rel_rbum_id: Option<String>,
    pub rel_rbum_ids: Option<Vec<String>>,
    pub rel_rbum_cert_conf_ids: Option<Vec<String>>,
}

/// Resource kind filter
#[derive(Debug, Clone)]
pub struct RbumKindFilterReq {
    pub basic: RbumBasicFilterReq,
    pub module: Option<String>,
}

/// Resource kind attribute filter
#[derive(Debug, Clone)]
pub struct RbumKindAttrFilterReq {
    pub basic: RbumBasicFilterReq,
    pub secret: Option<bool>,
    pub parent_attr_name: Option<String>,
}

/// Resource item attribute filter
#[derive(Debug, Clone)]
pub struct RbumItemAttrFilterReq {
    pub basic: RbumBasicFilterReq,
    pub rel_rbum_item_id: Option<String>,
    pub rel_rbum_kind_attr_id: Option<String>,
}

/// Resource relation filter
#[derive(Debug, Clone)]
pub struct RbumRelFilterReq {
    pub basic: RbumBasicFilterReq,
    pub tag: Option<String>,
    pub from_rbum_kind: Option<RbumRelFromKind>,
    pub from_rbum_id: Option<String>,
    pub from_rbum_scope_levels: Option<Vec<i16>>,
    pub to_rbum_item_id: Option<String>,
    pub to_rbum_item_scope_levels: Option<Vec<i16>>,
    pub to_own_paths: Option<String>,
    pub ext_eq: Option<String>,
    pub ext_like: Option<String>,
}

/// Resource relation extension (attribute / environment) filter
#[derive(Debug, Clone)]
pub struct RbumRelExtFilterReq {
    pub basic: RbumBasicFilterReq,
    pub rel_rbum_rel_id: Option<String>,
}

/// Resource set filter
#[derive(Debug, Clone)]
pub struct RbumSetFilterReq {
    pub basic: RbumBasicFilterReq,
    pub rel: Option<RbumItemRelSimpleFilterReq>,
    pub kind: Option<String>,
}

/// Resource set category (node) filter
#[derive(Debug, Clone)]
pub struct RbumSetCateFilterReq {
    pub basic: RbumBasicFilterReq,
    pub rel: Option<RbumItemRelSimpleFilterReq>,
    pub rel_rbum_set_id: Option<String>,
    pub sys_codes: Option<Vec<String>>,
    pub sys_code_query_kind: Option<RbumSetCateLevelQueryKind>,
    pub sys_code_query_depth: Option<i16>,
    pub cate_exts: Option<Vec<String>>,
}

/// Resource set item filter
#[derive(Debug, Clone)]
pub struct RbumSetItemFilterReq {
    pub basic: RbumBasicFilterReq,
    pub rel_rbum_set_id: Option<String>,
    pub sys_code_query_kind: Option<RbumSetCateLevelQueryKind>,
    pub sys_code_query_depth: Option<i16>,
    pub rel_rbum_set_cate_sys_codes: Option<Vec<String>>,
    pub rel_rbum_set_cate_ids: Option<Vec<String>>,
    pub rel_rbum_set_item_cate_code: Option<String>,
    pub rel_rbum_item_can_not_exist: Option<bool>,
    pub rel_rbum_item_ids: Option<Vec<String>>,
    pub rel_rbum_item_scope_level: Option<RbumScopeLevelKind>,
    pub rel_rbum_item_kind_ids: Option<Vec<String>>,
    pub rel_rbum_item_domain_ids: Option<Vec<String>>,
    pub rel_rbum_item_disabled: Option<bool>,
}

/// Resource set tree filter
#[derive(Debug, Clone)]
pub struct RbumSetTreeFilterReq {
    pub sys_codes: Option<Vec<String>>,
    pub sys_code_query_kind: Option<RbumSetCateLevelQueryKind>,
    pub sys_code_query_depth: Option<i16>,
    pub cate_exts: Option<Vec<String>>,
    /// Also fetch the items of the categories
    pub fetch_cate_item: bool,
    /// Leave out the items that are disabled
    pub hide_item_with_disabled: bool,
    /// Leave out the categories whose sub tree holds no item
    pub hide_cate_with_empty_item: bool,
    pub rel_rbum_item_ids: Option<Vec<String>>,
    pub rel_rbum_item_kind_ids: Option<Vec<String>>,
    pub rel_rbum_item_domain_ids: Option<Vec<String>>,
}

/// Resource set item relation filter; ``set_ids_and_cate_codes`` maps a set id to category codes
#[derive(Debug, Clone)]
pub struct RbumSetItemRelFilterReq {
    pub set_ids_and_cate_codes: Option<Vec<(String, Vec<String>)>>,
    pub with_sub_set_cate_codes: bool,
    pub rel_item_ids: Option<Vec<String>>,
}

/// Simple relation filter of an item
#[derive(Debug, Clone)]
pub struct RbumItemRelSimpleFilterReq {
    pub rel_by_from: bool,
    pub tag: Option<String>,
    pub from_rbum_kind: Option<RbumRelFromKind>,
    pub rel_item_id: Option<String>,
}

/// Relation filter of an item
#[derive(Debug, Clone)]
pub struct RbumItemRelFilterReq {
    pub optional: bool,
    pub rel_by_from: bool,
    pub tag: Option<String>,
    pub from_rbum_kind: Option<RbumRelFromKind>,
    pub rel_item_id: Option<String>,
    pub rel_item_ids: Option<Vec<String>>,
    pub ext_eq: Option<String>,
    pub ext_like: Option<String>,
    pub own_paths: Option<String>,
}

/// Access to the common parts of an item filter
pub trait RbumItemFilterFetcher {
    fn basic(&self) -> &RbumBasicFilterReq;

    fn rel(&self) -> &Option<RbumItemRelFilterReq>;

    fn rel2(&self) -> &Option<RbumItemRelFilterReq>;
}

/// Basic item filter
#[derive(Debug, Clone)]
pub struct RbumItemBasicFilterReq {
    pub basic: RbumBasicFilterReq,
    pub rel: Option<RbumItemRelFilterReq>,
}

impl RbumItemFilterFetcher for RbumItemBasicFilterReq {
    fn basic(&self) -> (r: &RbumBasicFilterReq)
        ensures
            r == &self.basic,
    {
        &self.basic
    }

    fn rel(&self) -> (r: &Option<RbumItemRelFilterReq>)
        ensures
            r == &self.rel,
    {
        &self.rel
    }

    fn rel2(&self) -> (r: &Option<RbumItemRelFilterReq>)
        ensures
            r == &self.rel,
    {
        &self.rel
    }
}

} // verus!
