//! Resource set service: the shaping of the resource tree
//!
//! 资源集服务：资源树的组装
use crate::rbum::dto::rbum_filer_dto::{RbumSetCateFilterReq, RbumSetItemFilterReq, RbumSetTreeFilterReq};
use crate::rbum::rbum_enumeration::{RbumScopeLevelKind, RbumSetCateLevelQueryKind};
use crate::rbum::dto::rbum_set_dto::{
    RbumSetCateSummaryResp, RbumSetPathResp, RbumSetTreeExtResp, RbumSetTreeNodeResp, RbumSetTreeResp,
};
use crate::rbum::dto::rbum_set_item_dto::{
    RbumSetItemDetailResp, RbumSetItemRelInfoResp, RbumSetItemSummaryResp,
};
use crate::error::BasicError;
use crate::text::{
    key_sorted, keyed, sort_by_text_key, chars_lt, chars_of, lemma_seq_lt_total, lemma_seq_lt_trans, seq_lt, starts_with_chars, utf8_of,
};
use tardis::TardisFuns;
use vstd::prelude::*;
use vstd::string::StringSliceAdditionalSpecFns;
use vstd::utf8::{decode_utf8, is_char_boundary};

verus! {

/// The order of the categories in the tree: by `sort`, then by `sys_code`.
pub open spec fn cate_le(a: RbumSetCateSummaryResp, b: RbumSetCateSummaryResp) -> bool {
    a.sort < b.sort || (a.sort == b.sort && !seq_lt(b.sys_code@, a.sys_code@))
}

/// Where a category goes in the sorted categories: after the last one that is not after it.
pub open spec fn insert_pos(t: Seq<RbumSetCateSummaryResp>, x: RbumSetCateSummaryResp) -> nat
    decreases t.len(),
{
    if t.len() == 0 {
        0
    } else if !cate_le(t.last(), x) {
        insert_pos(t.drop_last(), x)
    } else {
        t.len()
    }
}

/// The categories sorted by `sort`, then by `sys_code`, equal ones in their given order.
pub open spec fn sorted_cates(s: Seq<RbumSetCateSummaryResp>) -> Seq<RbumSetCateSummaryResp>
    decreases s.len(),
{
    if s.len() == 0 {
        s
    } else {
        let t = sorted_cates(s.drop_last());
        t.insert(insert_pos(t, s.last()) as int, s.last())
    }
}

/// Categories in the order of the tree.
pub open spec fn cates_sorted(s: Seq<RbumSetCateSummaryResp>) -> bool {
    forall|i: int, j: int| 0 <= i < j < s.len() ==> cate_le(#[trigger] s[i], #[trigger] s[j])
}

/// The order of the categories is total and transitive.
pub proof fn lemma_cate_le_order(a: RbumSetCateSummaryResp, b: RbumSetCateSummaryResp, c: RbumSetCateSummaryResp)
    ensures
        cate_le(a, b) || cate_le(b, a),
        cate_le(a, b) && cate_le(b, c) ==> cate_le(a, c),
{
    lemma_seq_lt_total(a.sys_code@, b.sys_code@);
    lemma_seq_lt_total(a.sys_code@, c.sys_code@);
    lemma_seq_lt_total(b.sys_code@, c.sys_code@);
    if seq_lt(c.sys_code@, a.sys_code@) && seq_lt(a.sys_code@, b.sys_code@) {
        lemma_seq_lt_trans(c.sys_code@, a.sys_code@, b.sys_code@);
    }
}

/// In sorted categories, those before the insertion point are not after the new one,
/// and those from it on are after it.
pub proof fn lemma_insert_pos(t: Seq<RbumSetCateSummaryResp>, x: RbumSetCateSummaryResp)
    requires
        cates_sorted(t),
    ensures
        insert_pos(t, x) <= t.len(),
        forall|k: int| 0 <= k < insert_pos(t, x) ==> cate_le(#[trigger] t[k], x),
        forall|k: int| insert_pos(t, x) <= k < t.len() ==> !cate_le(#[trigger] t[k], x),
    decreases t.len(),
{
    if t.len() > 0 {
        if !cate_le(t.last(), x) {
            let u = t.drop_last();
            assert(cates_sorted(u)) by {
                assert forall|i: int, j: int| 0 <= i < j < u.len() implies cate_le(
                    #[trigger] u[i],
                    #[trigger] u[j],
                ) by {
                    assert(u[i] == t[i] && u[j] == t[j]);
                }
            }
            lemma_insert_pos(u, x);
            assert forall|k: int| 0 <= k < insert_pos(t, x) implies cate_le(#[trigger] t[k], x) by {
                assert(u[k] == t[k]);
            }
            assert forall|k: int| insert_pos(t, x) <= k < t.len() implies !cate_le(
                #[trigger] t[k],
                x,
            ) by {
                if k < u.len() {
                    assert(u[k] == t[k]);
                }
            }
        } else {
            assert forall|k: int| 0 <= k < t.len() implies cate_le(#[trigger] t[k], x) by {
                lemma_cate_le_order(t[k], t.last(), x);
            }
        }
    }
}

/// The sorted categories are in the order of the tree and hold the given categories,
/// each as many times.
pub proof fn lemma_sorted_cates(s: Seq<RbumSetCateSummaryResp>)
    ensures
        cates_sorted(sorted_cates(s)),
        sorted_cates(s).to_multiset() == s.to_multiset(),
    decreases s.len(),
{
    broadcast use vstd::seq_lib::to_multiset_insert, vstd::seq_lib::to_multiset_build;

    if s.len() > 0 {
        let t = sorted_cates(s.drop_last());
        let x = s.last();
        lemma_sorted_cates(s.drop_last());
        lemma_insert_pos(t, x);
        let p = insert_pos(t, x) as int;
        let r = t.insert(p, x);
        assert forall|i: int, j: int| 0 <= i < j < r.len() implies cate_le(
            #[trigger] r[i],
            #[trigger] r[j],
        ) by {
            if j < p {
            } else if j == p {
            } else if i < p {
                lemma_cate_le_order(r[i], x, r[j]);
                lemma_cate_le_order(x, r[j], x);
            } else if i == p {
                lemma_cate_le_order(r[j], x, x);
            } else {
            }
        }
        assert(s =~= s.drop_last().push(x));
    }
}

/// Whether category `a` may stand before category `b`.
fn cate_le_exec(a: &RbumSetCateSummaryResp, b: &RbumSetCateSummaryResp) -> (r: bool)
    ensures
        r == cate_le(*a, *b),
{
    if a.sort != b.sort {
        return a.sort < b.sort;
    }
    let ac = chars_of(a.sys_code.as_str());
    let bc = chars_of(b.sys_code.as_str());
    !chars_lt(&bc, &ac)
}

/// Sort the categories by `sort`, then by `sys_code`, keeping the given order of equal ones
///
/// 按 `sort` 再按 `sys_code` 排序，相等者保持原顺序
pub fn sort_set_cates(cates: Vec<RbumSetCateSummaryResp>) -> (r: Vec<RbumSetCateSummaryResp>)
    ensures
        r@ == sorted_cates(cates@),
        cates_sorted(r@),
        r@.to_multiset() == cates@.to_multiset(),
{
    let mut rest = cates;
    let ghost all = rest@;
    let mut out: Vec<RbumSetCateSummaryResp> = Vec::new();
    let mut n: usize = 0;
    let total = rest.len();
    while rest.len() > 0
        invariant
            n + rest@.len() == total,
            total == all.len(),
            rest@ == all.skip(n as int),
            out@ == sorted_cates(all.take(n as int)),
        decreases rest@.len(),
    {
        let x = rest.remove(0);
        let mut p: usize = out.len();
        proof {
            assert(out@.take(p as int) =~= out@);
        }
        while p > 0 && !cate_le_exec(&out[p - 1], &x)
            invariant
                p <= out@.len(),
                insert_pos(out@, x) == insert_pos(out@.take(p as int), x),
            decreases p,
        {
            proof {
                assert(out@.take(p as int).drop_last() =~= out@.take(p - 1));
            }
            p = p - 1;
        }
        proof {
            assert(all.take(n + 1).drop_last() =~= all.take(n as int));
            assert(all.take(n + 1).last() == x);
            assert(out@.take(p as int) =~= out@.take(p as int));
            if p == 0 {
                assert(out@.take(0) =~= Seq::<RbumSetCateSummaryResp>::empty());
            }
        }
        out.insert(p, x);
        n = n + 1;
        proof {
            assert(rest@ =~= all.skip(n as int));
        }
    }
    proof {
        assert(all.take(n as int) =~= all);
        lemma_sorted_cates(all);
    }
    out
}

/// The system code of a category, as bytes.
pub open spec fn code_bytes(c: RbumSetCateSummaryResp) -> Seq<u8> {
    utf8_of(c.sys_code@)
}

/// The system code of the parent of a category: its own less the last node.
pub open spec fn parent_code_bytes(c: RbumSetCateSummaryResp, node_len: nat) -> Seq<u8> {
    code_bytes(c).take(code_bytes(c).len() - node_len)
}

/// Each system code holds at least one node and can be cut before its last node.
pub open spec fn codes_cuttable(cates: Seq<RbumSetCateSummaryResp>, node_len: nat) -> bool {
    forall|i: int|
        0 <= i < cates.len() ==> node_len <= code_bytes(#[trigger] cates[i]).len()
            && is_char_boundary(code_bytes(cates[i]), code_bytes(cates[i]).len() - node_len)
}

/// Category `j` holds the system code of the parent of category `i`.
pub open spec fn is_parent_at(cates: Seq<RbumSetCateSummaryResp>, j: int, i: int, node_len: nat) -> bool {
    code_bytes(cates[j]) == parent_code_bytes(cates[i], node_len)
}

/// The parent of category `i`: the first category that holds the system code of its parent.
#[verifier::opaque]
pub open spec fn parent_index(cates: Seq<RbumSetCateSummaryResp>, i: int, node_len: nat) -> Option<int> {
    if exists|j: int| 0 <= j < cates.len() && #[trigger] is_parent_at(cates, j, i, node_len) {
        Some(
            choose|j: int|
                0 <= j < cates.len() && #[trigger] is_parent_at(cates, j, i, node_len) && forall|k: int|
                    0 <= k < j ==> !is_parent_at(cates, k, i, node_len),
        )
    } else {
        None
    }
}

/// The id of the parent of category `i`.
pub open spec fn parent_id(cates: Seq<RbumSetCateSummaryResp>, i: int, node_len: nat) -> Option<String> {
    match parent_index(cates, i, node_len) {
        Some(j) => Some(cates[j].id),
        None => None,
    }
}

/// The tree node of a category with its parent id.
pub open spec fn tree_node_of(c: RbumSetCateSummaryResp, pid: Option<String>) -> RbumSetTreeNodeResp {
    RbumSetTreeNodeResp {
        id: c.id,
        sys_code: c.sys_code,
        bus_code: c.bus_code,
        name: c.name,
        icon: c.icon,
        sort: c.sort,
        ext: c.ext,
        pid,
        rel: None,
        own_paths: c.own_paths,
        owner: c.owner,
        scope_level: c.scope_level,
        create_time: c.create_time,
        update_time: c.update_time,
    }
}

/// The tree nodes of categories that are in the order of the tree.
pub open spec fn tree_nodes_of(cates: Seq<RbumSetCateSummaryResp>, node_len: nat) -> Seq<RbumSetTreeNodeResp> {
    Seq::new(cates.len(), |i: int| tree_node_of(cates[i], parent_id(cates, i, node_len)))
}

/// The main part of the tree: the categories in the order of the tree, each with the id of
/// its parent.
pub open spec fn tree_main_of(cates: Seq<RbumSetCateSummaryResp>, node_len: nat) -> Seq<RbumSetTreeNodeResp> {
    tree_nodes_of(sorted_cates(cates), node_len)
}

/// The first `n` bytes of `b` are `a`.
fn bytes_are_prefix(a: &[u8], b: &[u8], n: usize) -> (r: bool)
    requires
        n <= b@.len(),
    ensures
        r == (a@ == b@.take(n as int)),
{
    if a.len() != n {
        return false;
    }
    let mut i: usize = 0;
    while i < n
        invariant
            i <= n,
            n == a@.len(),
            n <= b@.len(),
            a@.take(i as int) == b@.take(i as int),
        decreases n - i,
    {
        if a[i] != b[i] {
            proof {
                assert(a@.take(n as int)[i as int] != b@.take(n as int)[i as int]);
                assert(a@.take(n as int) =~= a@);
            }
            return false;
        }
        proof {
            assert(a@.take(i + 1) =~= a@.take(i as int).push(a@[i as int]));
            assert(b@.take(i + 1) =~= b@.take(i as int).push(b@[i as int]));
        }
        i = i + 1;
    }
    proof {
        assert(a@.take(n as int) =~= a@);
    }
    true
}

/// Find the parent of category `i`.
fn find_parent(cates: &Vec<RbumSetCateSummaryResp>, i: usize, node_len: usize) -> (r: Option<usize>)
    requires
        i < cates@.len(),
        codes_cuttable(cates@, node_len as nat),
    ensures
        r matches Some(j) ==> j < cates@.len() && parent_index(cates@, i as int, node_len as nat) == Some(
            j as int,
        ),
        r is None ==> parent_index(cates@, i as int, node_len as nat) is None,
{
    reveal(parent_index);
    let own = cates[i].sys_code.as_str().as_bytes();
    assert(own@ == code_bytes(cates@[i as int]));
    let cut = own.len() - node_len;
    let mut j: usize = 0;
    while j < cates.len()
        invariant
            j <= cates@.len(),
            i < cates@.len(),
            own@ == code_bytes(cates@[i as int]),
            cut == own@.len() - node_len,
            forall|k: int| 0 <= k < j ==> !is_parent_at(cates@, k, i as int, node_len as nat),
        decreases cates@.len() - j,
    {
        let other = cates[j].sys_code.as_str().as_bytes();
        assert(other@ == code_bytes(cates@[j as int]));
        if bytes_are_prefix(other, own, cut) {
            proof {
                reveal(parent_index);
                assert(code_bytes(cates@[j as int]) == parent_code_bytes(cates@[i as int], node_len as nat));
                assert(is_parent_at(cates@, j as int, i as int, node_len as nat));
                let w = choose|w: int|
                    0 <= w < cates@.len() && #[trigger] is_parent_at(cates@, w, i as int, node_len as nat)
                        && forall|k: int| 0 <= k < w ==> !is_parent_at(cates@, k, i as int, node_len as nat);
                assert(0 <= w < cates@.len() && is_parent_at(cates@, w, i as int, node_len as nat)
                    && forall|k: int| 0 <= k < w ==> !is_parent_at(cates@, k, i as int, node_len as nat));
                if w < j {
                    assert(!is_parent_at(cates@, w, i as int, node_len as nat));
                } else if w > j {
                    assert(!is_parent_at(cates@, j as int, i as int, node_len as nat));
                }
                assert(w == j);
                assert(parent_index(cates@, i as int, node_len as nat) == Some(w));
            }
            return Some(j);
        }
        j = j + 1;
    }
    None
}

/// The id of the parent of category `i`.
fn find_parent_id(cates: &Vec<RbumSetCateSummaryResp>, i: usize, node_len: usize) -> (r: Option<String>)
    requires
        i < cates@.len(),
        codes_cuttable(cates@, node_len as nat),
    ensures
        r == parent_id(cates@, i as int, node_len as nat),
{
    match find_parent(cates, i, node_len) {
        Some(j) => Some(cates[j].id.clone()),
        None => None,
    }
}

/// Build the tree nodes of categories that are in the order of the tree
///
/// 构建树节点，每个节点带有其父节点 id
pub fn package_tree_nodes(cates: Vec<RbumSetCateSummaryResp>, node_len: usize) -> (r: Vec<RbumSetTreeNodeResp>)
    requires
        codes_cuttable(cates@, node_len as nat),
    ensures
        r@ == tree_nodes_of(cates@, node_len as nat),
{
    let n = cates.len();
    let mut pids: Vec<Option<String>> = Vec::new();
    let mut i: usize = 0;
    while i < n
        invariant
            i <= n,
            n == cates@.len(),
            codes_cuttable(cates@, node_len as nat),
            pids@.len() == i,
            forall|k: int| 0 <= k < i ==> #[trigger] pids@[k] == parent_id(cates@, k, node_len as nat),
        decreases n - i,
    {
        let ghost old_pids = pids@;
        let pid = find_parent_id(&cates, i, node_len);
        pids.push(pid);
        proof {
            assert forall|k: int| 0 <= k < i + 1 implies #[trigger] pids@[k] == parent_id(
                cates@,
                k,
                node_len as nat,
            ) by {
                if k < i {
                    assert(pids@[k] == old_pids[k]);
                }
            }
        }
        i = i + 1;
    }
    let ghost all = cates@;
    let mut rest = cates;
    let mut out: Vec<RbumSetTreeNodeResp> = Vec::new();
    let mut k: usize = 0;
    while k < n
        invariant
            k <= n,
            n == all.len(),
            pids@.len() == n,
            rest@ == all.skip(k as int),
            forall|m: int| 0 <= m < n ==> #[trigger] pids@[m] == parent_id(all, m, node_len as nat),
            out@ == tree_nodes_of(all, node_len as nat).take(k as int),
        decreases n - k,
    {
        let c = rest.remove(0);
        let pid = pids[k].clone();
        let node = RbumSetTreeNodeResp {
            id: c.id,
            sys_code: c.sys_code,
            bus_code: c.bus_code,
            name: c.name,
            icon: c.icon,
            sort: c.sort,
            ext: c.ext,
            pid,
            rel: None,
            own_paths: c.own_paths,
            owner: c.owner,
            scope_level: c.scope_level,
            create_time: c.create_time,
            update_time: c.update_time,
        };
        out.push(node);
        proof {
            assert(out@ =~= tree_nodes_of(all, node_len as nat).take(k + 1));
        }
        k = k + 1;
        proof {
            assert(rest@ =~= all.skip(k as int));
        }
    }
    proof {
        assert(out@ =~= tree_nodes_of(all, node_len as nat));
    }
    out
}

/// The category id of an item, empty when it has none.
pub open spec fn item_cate_id(item: RbumSetItemDetailResp) -> Seq<char> {
    match item.rel_rbum_set_cate_id {
        Some(c) => c@,
        None => Seq::empty(),
    }
}

/// Some item belongs to the category with this id.
pub open spec fn has_items(items: Seq<RbumSetItemDetailResp>, id: Seq<char>) -> bool {
    exists|k: int| 0 <= k < items.len() && item_cate_id(#[trigger] items[k]) == id
}

/// Node `j` has the id that node `i` names as its parent.
pub open spec fn is_parent_node_at(tree: Seq<RbumSetTreeNodeResp>, j: int, i: int) -> bool {
    tree[i].pid matches Some(p) && tree[j].id@ == p@
}

/// The parent of node `i`: the first node with the id that it names as its parent.
#[verifier::opaque]
pub open spec fn parent_node(tree: Seq<RbumSetTreeNodeResp>, i: int) -> Option<int> {
    if exists|j: int| 0 <= j < tree.len() && #[trigger] is_parent_node_at(tree, j, i) {
        Some(
            choose|j: int|
                0 <= j < tree.len() && #[trigger] is_parent_node_at(tree, j, i) && forall|k: int|
                    0 <= k < j ==> !is_parent_node_at(tree, k, i),
        )
    } else {
        None
    }
}

/// The nodes from node `j` up to a root (a node without parent id), when the way there
/// takes at most `fuel` steps and does not break off.
pub open spec fn path_to_root(tree: Seq<RbumSetTreeNodeResp>, j: int, fuel: nat) -> Option<Seq<int>>
    decreases fuel,
{
    if tree[j].pid is None {
        Some(seq![j])
    } else if fuel == 0 {
        None
    } else {
        match parent_node(tree, j) {
            None => None,
            Some(p) => match path_to_root(tree, p, (fuel - 1) as nat) {
                Some(rest) => Some(seq![j] + rest),
                None => None,
            },
        }
    }
}

/// A node with this id lies on the way from a node that holds items up to a root.
pub open spec fn id_leads_to_items(
    tree: Seq<RbumSetTreeNodeResp>,
    items: Seq<RbumSetItemDetailResp>,
    id: Seq<char>,
) -> bool {
    exists|j: int, m: int| #[trigger] passes_on_path(tree, items, j, m, id)
}

/// Node `j` holds items, and the `m`-th node on its way up to a root has this id.
pub open spec fn passes_on_path(
    tree: Seq<RbumSetTreeNodeResp>,
    items: Seq<RbumSetItemDetailResp>,
    j: int,
    m: int,
    id: Seq<char>,
) -> bool {
    &&& 0 <= j < tree.len()
    &&& has_items(items, tree[j].id@)
    &&& path_to_root(tree, j, tree.len()) matches Some(p)
    &&& 0 <= m < p.len()
    &&& tree[p[m]].id@ == id
}

/// Node `j` lies in the sub tree of a node with this id (the node itself included): its way
/// up to a root passes a node with that id.
pub open spec fn in_subtree_of(tree: Seq<RbumSetTreeNodeResp>, j: int, id: Seq<char>) -> bool {
    &&& path_to_root(tree, j, tree.len()) matches Some(p)
    &&& exists|m: int| 0 <= m < p.len() && tree[#[trigger] p[m]].id@ == id
}

/// A node with an id is kept by the filter of empty categories exactly when some node of
/// its sub tree holds items.
pub proof fn lemma_leads_to_items_iff_subtree_holds_items(
    tree: Seq<RbumSetTreeNodeResp>,
    items: Seq<RbumSetItemDetailResp>,
    id: Seq<char>,
)
    ensures
        id_leads_to_items(tree, items, id) <==> exists|j: int|
            0 <= j < tree.len() && has_items(items, tree[j].id@) && #[trigger] in_subtree_of(tree, j, id),
{
    if id_leads_to_items(tree, items, id) {
        let (j, m) = choose|j: int, m: int| #[trigger] passes_on_path(tree, items, j, m, id);
        let p = path_to_root(tree, j, tree.len())->0;
        assert(tree[p[m]].id@ == id);
        assert(in_subtree_of(tree, j, id));
    }
    if exists|j: int| 0 <= j < tree.len() && has_items(items, tree[j].id@) && #[trigger] in_subtree_of(tree, j, id) {
        let j = choose|j: int| 0 <= j < tree.len() && has_items(items, tree[j].id@) && #[trigger] in_subtree_of(tree, j, id);
        let p = path_to_root(tree, j, tree.len())->0;
        let m = choose|m: int| 0 <= m < p.len() && tree[#[trigger] p[m]].id@ == id;
        assert(passes_on_path(tree, items, j, m, id));
    }
}

/// The nodes of the tree that lie on the way from a node that holds items up to a root,
/// in the order of the tree.
pub open spec fn nodes_with_items(tree: Seq<RbumSetTreeNodeResp>, items: Seq<RbumSetItemDetailResp>) -> Seq<RbumSetTreeNodeResp> {
    tree.filter(leads_to_items(tree, items))
}

/// Whether a node's id lies on the way from a node that holds items up to a root.
pub open spec fn leads_to_items(tree: Seq<RbumSetTreeNodeResp>, items: Seq<RbumSetItemDetailResp>) -> spec_fn(RbumSetTreeNodeResp) -> bool {
    |n: RbumSetTreeNodeResp| id_leads_to_items(tree, items, n.id@)
}

/// Whether some item belongs to the category with this id.
fn has_items_exec(items: &Vec<RbumSetItemDetailResp>, id: &String) -> (r: bool)
    ensures
        r == has_items(items@, id@),
{
    let id_chars = chars_of(id.as_str());
    let mut k: usize = 0;
    while k < items.len()
        invariant
            k <= items@.len(),
            id_chars@ == id@,
            forall|m: int| 0 <= m < k ==> item_cate_id(#[trigger] items@[m]) != id@,
        decreases items@.len() - k,
    {
        let found = match &items[k].rel_rbum_set_cate_id {
            Some(c) => *c == *id,
            None => id_chars.len() == 0,
        };
        if found {
            assert(item_cate_id(items@[k as int]) == id@);
            return true;
        }
        k = k + 1;
    }
    false
}

/// The parent of node `i`.
fn find_parent_node(tree: &Vec<RbumSetTreeNodeResp>, i: usize) -> (r: Option<usize>)
    requires
        i < tree@.len(),
    ensures
        r matches Some(j) ==> j < tree@.len() && parent_node(tree@, i as int) == Some(j as int),
        r is None ==> parent_node(tree@, i as int) is None,
{
    reveal(parent_node);
    let pid = match &tree[i].pid {
        Some(p) => p,
        None => {
            return None;
        },
    };
    let mut j: usize = 0;
    while j < tree.len()
        invariant
            j <= tree@.len(),
            i < tree@.len(),
            tree@[i as int].pid == Some(*pid),
            forall|k: int| 0 <= k < j ==> !is_parent_node_at(tree@, k, i as int),
        decreases tree@.len() - j,
    {
        if tree[j].id == *pid {
            proof {
                reveal(parent_node);
                assert(is_parent_node_at(tree@, j as int, i as int));
                let w = choose|w: int|
                    0 <= w < tree@.len() && #[trigger] is_parent_node_at(tree@, w, i as int) && forall|k: int|
                        0 <= k < w ==> !is_parent_node_at(tree@, k, i as int);
                if w < j {
                    assert(!is_parent_node_at(tree@, w, i as int));
                } else if w > j {
                    assert(!is_parent_node_at(tree@, j as int, i as int));
                }
            }
            return Some(j);
        }
        j = j + 1;
    }
    None
}

/// The nodes from node `j` up to a root, in at most as many steps as the tree has nodes.
fn find_path_to_root(tree: &Vec<RbumSetTreeNodeResp>, j: usize) -> (r: Option<Vec<usize>>)
    requires
        j < tree@.len(),
    ensures
        match path_to_root(tree@, j as int, tree@.len()) {
            Some(p) => r matches Some(v) && v@.len() == p.len() && forall|m: int|
                0 <= m < p.len() ==> v@[m] == p[m] && v@[m] < tree@.len(),
            None => r is None,
        },
{
    let n = tree.len();
    let mut acc: Vec<usize> = Vec::new();
    let mut cur: usize = j;
    let mut fuel: usize = n;
    loop
        invariant
            cur < n,
            n == tree@.len(),
            fuel <= n,
            forall|m: int| 0 <= m < acc@.len() ==> #[trigger] acc@[m] < n,
            path_to_root(tree@, j as int, n as nat) == match path_to_root(tree@, cur as int, fuel as nat) {
                Some(rest) => Some(acc@.map_values(|x: usize| x as int) + rest),
                None => None::<Seq<int>>,
            },
        decreases fuel,
    {
        acc.push(cur);
        if tree[cur].pid.is_none() {
            let ghost a = acc@.map_values(|x: usize| x as int);
            assert(a =~= acc@.drop_last().map_values(|x: usize| x as int) + seq![cur as int]);
            return Some(acc);
        }
        if fuel == 0 {
            return None;
        }
        match find_parent_node(tree, cur) {
            None => {
                return None;
            },
            Some(p) => {
                proof {
                    let a = acc@.drop_last().map_values(|x: usize| x as int);
                    let b = acc@.map_values(|x: usize| x as int);
                    assert(b =~= a + seq![cur as int]);
                    match path_to_root(tree@, p as int, (fuel - 1) as nat) {
                        Some(rest) => {
                            assert(a + (seq![cur as int] + rest) =~= b + rest);
                        },
                        None => {},
                    }
                }
                cur = p;
                fuel = fuel - 1;
            },
        }
    }
}

/// Some of the texts is `id`.
pub open spec fn ids_contain(ids: Seq<String>, id: Seq<char>) -> bool {
    exists|k: int| 0 <= k < ids.len() && (#[trigger] ids[k])@ == id
}

/// Whether some of the texts is `id`.
fn ids_contain_exec(ids: &Vec<String>, id: &String) -> (r: bool)
    ensures
        r == ids_contain(ids@, id@),
{
    let mut k: usize = 0;
    while k < ids.len()
        invariant
            k <= ids@.len(),
            forall|m: int| 0 <= m < k ==> (#[trigger] ids@[m])@ != id@,
        decreases ids@.len() - k,
    {
        if ids[k] == *id {
            return true;
        }
        k = k + 1;
    }
    false
}

/// The ids of the nodes that lie on the way from a node that holds items up to a root.
fn ids_leading_to_items(tree: &Vec<RbumSetTreeNodeResp>, items: &Vec<RbumSetItemDetailResp>) -> (r: Vec<String>)
    ensures
        forall|id: Seq<char>| ids_contain(r@, id) <==> id_leads_to_items(tree@, items@, id),
{
    let n = tree.len();
    let mut kept: Vec<String> = Vec::new();
    let mut j: usize = 0;
    while j < n
        invariant
            j <= n,
            n == tree@.len(),
            forall|id: Seq<char>|
                ids_contain(kept@, id) <==> exists|jj: int, m: int|
                    0 <= jj < j && #[trigger] passes_on_path(tree@, items@, jj, m, id),
        decreases n - j,
    {
        let holds = has_items_exec(items, &tree[j].id);
        let path = if holds {
            find_path_to_root(tree, j)
        } else {
            None
        };
        match path {
            None => {
                assert forall|id: Seq<char>|
                    ids_contain(kept@, id) <==> exists|jj: int, m: int|
                        0 <= jj < j + 1 && #[trigger] passes_on_path(tree@, items@, jj, m, id) by {
                    assert forall|m: int| !passes_on_path(tree@, items@, j as int, m, id) by {}
                    if exists|jj: int, m: int| 0 <= jj < j + 1 && #[trigger] passes_on_path(tree@, items@, jj, m, id) {
                        let (jj, m) = choose|jj: int, m: int|
                            0 <= jj < j + 1 && #[trigger] passes_on_path(tree@, items@, jj, m, id);
                        assert(jj != j);
                        assert(0 <= jj < j && passes_on_path(tree@, items@, jj, m, id));
                    }
                }
            },
            Some(pv) => {
                let ghost p = path_to_root(tree@, j as int, n as nat)->0;
                let ghost before = kept@;
                let mut m: usize = 0;
                while m < pv.len()
                    invariant
                        m <= pv@.len(),
                        n == tree@.len(),
                        j < n,
                        pv@.len() == p.len(),
                        forall|x: int| 0 <= x < p.len() ==> pv@[x] == p[x],
                        forall|x: int| 0 <= x < p.len() ==> 0 <= #[trigger] p[x] < n,
                        kept@.len() == before.len() + m,
                        forall|x: int| 0 <= x < before.len() ==> kept@[x] == before[x],
                        forall|x: int| 0 <= x < m ==> #[trigger] kept@[before.len() + x] == tree@[p[x]].id,
                    decreases pv@.len() - m,
                {
                    assert(pv@[m as int] == p[m as int] && p[m as int] < n);
                    let id = tree[pv[m]].id.clone();
                    kept.push(id);
                    m = m + 1;
                }
                assert forall|id: Seq<char>|
                    ids_contain(kept@, id) <==> exists|jj: int, mm: int|
                        0 <= jj < j + 1 && #[trigger] passes_on_path(tree@, items@, jj, mm, id) by {
                    if ids_contain(kept@, id) {
                        let k = choose|k: int| 0 <= k < kept@.len() && (#[trigger] kept@[k])@ == id;
                        if k < before.len() {
                            assert(before[k]@ == id);
                            assert(ids_contain(before, id));
                        } else {
                            let x = k - before.len();
                            assert(kept@[before.len() + x] == tree@[p[x]].id);
                            assert(passes_on_path(tree@, items@, j as int, x, id));
                        }
                    }
                    if exists|jj: int, mm: int| 0 <= jj < j + 1 && #[trigger] passes_on_path(tree@, items@, jj, mm, id) {
                        let (jj, mm) = choose|jj: int, mm: int|
                            0 <= jj < j + 1 && #[trigger] passes_on_path(tree@, items@, jj, mm, id);
                        if jj < j {
                            assert(ids_contain(before, id));
                            let k = choose|k: int| 0 <= k < before.len() && (#[trigger] before[k])@ == id;
                            assert(kept@[k]@ == id);
                        } else {
                            assert(kept@[before.len() + mm]@ == id);
                        }
                    }
                }
            },
        }
        j = j + 1;
    }
    proof {
        assert forall|id: Seq<char>| ids_contain(kept@, id) <==> id_leads_to_items(tree@, items@, id) by {
            if id_leads_to_items(tree@, items@, id) {
                let (jj, m) = choose|jj: int, m: int| #[trigger] passes_on_path(tree@, items@, jj, m, id);
                assert(0 <= jj < n && passes_on_path(tree@, items@, jj, m, id));
            }
        }
    }
    kept
}

/// Filter out the nodes without associated resource items: keep the nodes that lie on the
/// way from a node that holds items up to a root, in their order
///
/// 过滤掉没有关联资源项的节点
pub fn filter_cates_with_items(tree: Vec<RbumSetTreeNodeResp>, items: &Vec<RbumSetItemDetailResp>) -> (r: Vec<RbumSetTreeNodeResp>)
    ensures
        r@ == nodes_with_items(tree@, items@),
{
    let kept = ids_leading_to_items(&tree, items);
    let ghost all = tree@;
    let n = tree.len();
    let mut rest = tree;
    let mut out: Vec<RbumSetTreeNodeResp> = Vec::new();
    let mut k: usize = 0;
    while k < n
        invariant
            k <= n,
            n == all.len(),
            rest@ == all.skip(k as int),
            forall|id: Seq<char>| ids_contain(kept@, id) <==> id_leads_to_items(all, items@, id),
            out@ == all.take(k as int).filter(leads_to_items(all, items@)),
        decreases n - k,
    {
        let node = rest.remove(0);
        let keep = ids_contain_exec(&kept, &node.id);
        let ghost pred = leads_to_items(all, items@);
        proof {
            reveal(Seq::filter);
            assert(all.take(k + 1).drop_last() =~= all.take(k as int));
            assert(all.take(k + 1).last() == node);
            assert(keep == pred(node));
            let t = all.take(k + 1);
            assert(t.filter(pred) == if pred(t.last()) {
                t.drop_last().filter(pred).push(t.last())
            } else {
                t.drop_last().filter(pred)
            });
        }
        if keep {
            out.push(node);
        }
        k = k + 1;
        proof {
            assert(rest@ =~= all.skip(k as int));
        }
    }
    proof {
        assert(all.take(n as int) =~= all);
    }
    out
}

/// An item as a tree node holds it.
pub open spec fn rel_info_of(i: RbumSetItemDetailResp) -> RbumSetItemRelInfoResp {
    RbumSetItemRelInfoResp {
        id: i.id,
        sort: i.sort,
        rel_rbum_item_id: i.rel_rbum_item_id,
        rel_rbum_item_code: i.rel_rbum_item_code,
        rel_rbum_item_name: i.rel_rbum_item_name,
        rel_rbum_item_kind_id: i.rel_rbum_item_kind_id,
        rel_rbum_item_domain_id: i.rel_rbum_item_domain_id,
        rel_rbum_item_owner: i.rel_rbum_item_owner,
        rel_rbum_item_create_time: i.rel_rbum_item_create_time,
        rel_rbum_item_update_time: i.rel_rbum_item_update_time,
        rel_rbum_item_disabled: i.rel_rbum_item_disabled,
        rel_rbum_item_scope_level: i.rel_rbum_item_scope_level,
        own_paths: i.own_paths,
        owner: i.owner,
    }
}

/// The items that belong to the category with this id.
pub open spec fn belongs_to(id: Seq<char>) -> spec_fn(RbumSetItemDetailResp) -> bool {
    |i: RbumSetItemDetailResp| item_cate_id(i) == id
}

/// The items without a category.
pub open spec fn without_cate() -> spec_fn(RbumSetItemDetailResp) -> bool {
    |i: RbumSetItemDetailResp| i.rel_rbum_set_cate_id is None
}

/// The items that a filter keeps, as tree nodes hold them.
pub open spec fn rel_infos(items: Seq<RbumSetItemDetailResp>, pred: spec_fn(RbumSetItemDetailResp) -> bool) -> Seq<RbumSetItemRelInfoResp> {
    items.filter(pred).map_values(|i: RbumSetItemDetailResp| rel_info_of(i))
}

/// The items that the tree lists under a key: those without category under the empty key,
/// else those of the category with that id.
pub open spec fn items_under(items: Seq<RbumSetItemDetailResp>, key: Seq<char>) -> Seq<RbumSetItemRelInfoResp> {
    if key.len() == 0 {
        rel_infos(items, without_cate())
    } else {
        rel_infos(items, belongs_to(key))
    }
}

/// The keys under which the tree lists items: the ids of the nodes (less an empty one),
/// then the empty key.
pub open spec fn item_keys(tree: Seq<RbumSetTreeNodeResp>) -> Seq<Seq<char>> {
    tree.map_values(|n: RbumSetTreeNodeResp| n.id@).filter(|k: Seq<char>| k.len() > 0).push(Seq::empty())
}

/// A copy of an item as a tree node holds it.
fn rel_info_exec(i: &RbumSetItemDetailResp) -> (r: RbumSetItemRelInfoResp)
    ensures
        r == rel_info_of(*i),
{
    RbumSetItemRelInfoResp {
        id: i.id.clone(),
        sort: i.sort,
        rel_rbum_item_id: i.rel_rbum_item_id.clone(),
        rel_rbum_item_code: i.rel_rbum_item_code.clone(),
        rel_rbum_item_name: i.rel_rbum_item_name.clone(),
        rel_rbum_item_kind_id: i.rel_rbum_item_kind_id.clone(),
        rel_rbum_item_domain_id: i.rel_rbum_item_domain_id.clone(),
        rel_rbum_item_owner: i.rel_rbum_item_owner.clone(),
        rel_rbum_item_create_time: i.rel_rbum_item_create_time,
        rel_rbum_item_update_time: i.rel_rbum_item_update_time,
        rel_rbum_item_disabled: i.rel_rbum_item_disabled,
        rel_rbum_item_scope_level: i.rel_rbum_item_scope_level,
        own_paths: i.own_paths.clone(),
        owner: i.owner.clone(),
    }
}

/// The items listed under a key.
fn items_under_exec(items: &Vec<RbumSetItemDetailResp>, key: &String) -> (r: Vec<RbumSetItemRelInfoResp>)
    ensures
        r@ == items_under(items@, key@),
{
    let key_chars = chars_of(key.as_str());
    let no_cate = key_chars.len() == 0;
    let ghost pred = if key@.len() == 0 {
        without_cate()
    } else {
        belongs_to(key@)
    };
    let mut out: Vec<RbumSetItemRelInfoResp> = Vec::new();
    let mut k: usize = 0;
    while k < items.len()
        invariant
            k <= items@.len(),
            no_cate == (key@.len() == 0),
            pred == (if key@.len() == 0 {
                without_cate()
            } else {
                belongs_to(key@)
            }),
            out@ == items@.take(k as int).filter(pred).map_values(|i: RbumSetItemDetailResp| rel_info_of(i)),
        decreases items@.len() - k,
    {
        let item = &items[k];
        let take = if no_cate {
            item.rel_rbum_set_cate_id.is_none()
        } else {
            match &item.rel_rbum_set_cate_id {
                Some(c) => *c == *key,
                None => false,
            }
        };
        proof {
            reveal(Seq::filter);
            let t = items@.take(k + 1);
            assert(t.drop_last() =~= items@.take(k as int));
            assert(t.last() == *item);
            assert(take == pred(*item));
        }
        if take {
            let info = rel_info_exec(item);
            out.push(info);
            proof {
                let f = |i: RbumSetItemDetailResp| rel_info_of(i);
                let a = items@.take(k as int).filter(pred);
                assert(a.push(*item).map_values(f) =~= a.map_values(f).push(f(*item)));
            }
        }
        k = k + 1;
    }
    proof {
        assert(items@.take(k as int) =~= items@);
    }
    out
}

/// The entries list, under each key in turn, the items of that key.
pub open spec fn lists_items_under(
    entries: Seq<(String, Vec<RbumSetItemRelInfoResp>)>,
    keys: Seq<Seq<char>>,
    items: Seq<RbumSetItemDetailResp>,
) -> bool {
    &&& entries.len() == keys.len()
    &&& forall|k: int|
        0 <= k < keys.len() ==> (#[trigger] entries[k]).0@ == keys[k] && entries[k].1@ == items_under(
            items,
            keys[k],
        )
}

/// The items of the tree by category id, and those without category under the empty id
///
/// 按分类 id 列出资源项，无分类者列在空 id 下
pub fn package_tree_items(tree: &Vec<RbumSetTreeNodeResp>, items: &Vec<RbumSetItemDetailResp>) -> (r: Vec<(String, Vec<RbumSetItemRelInfoResp>)>)
    ensures
        lists_items_under(r@, item_keys(tree@), items@),
{
    let ghost ids = tree@.map_values(|n: RbumSetTreeNodeResp| n.id@);
    let ghost nonempty = |k: Seq<char>| k.len() > 0;
    let mut out: Vec<(String, Vec<RbumSetItemRelInfoResp>)> = Vec::new();
    let mut k: usize = 0;
    while k < tree.len()
        invariant
            k <= tree@.len(),
            ids == tree@.map_values(|n: RbumSetTreeNodeResp| n.id@),
            nonempty == (|k: Seq<char>| k.len() > 0),
            lists_items_under(out@, ids.take(k as int).filter(nonempty), items@),
        decreases tree@.len() - k,
    {
        let id = tree[k].id.clone();
        let id_chars = chars_of(id.as_str());
        let ghost before = out@;
        proof {
            reveal(Seq::filter);
            let t = ids.take(k + 1);
            assert(t.drop_last() =~= ids.take(k as int));
            assert(t.last() == id@);
        }
        if id_chars.len() > 0 {
            let under = items_under_exec(items, &id);
            out.push((id, under));
            proof {
                let keys = ids.take(k + 1).filter(nonempty);
                assert forall|m: int| 0 <= m < keys.len() implies (#[trigger] out@[m]).0@ == keys[m]
                    && out@[m].1@ == items_under(items@, keys[m]) by {
                    if m < before.len() {
                        assert(out@[m] == before[m]);
                    }
                }
            }
        }
        k = k + 1;
    }
    proof {
        assert(ids.take(k as int) =~= ids);
    }
    let ghost before = out@;
    let empty = String::new();
    let under = items_under_exec(items, &empty);
    out.push((empty, under));
    proof {
        let keys = item_keys(tree@);
        assert(keys == ids.filter(nonempty).push(Seq::empty()));
        assert forall|m: int| 0 <= m < keys.len() implies (#[trigger] out@[m]).0@ == keys[m]
            && out@[m].1@ == items_under(items@, keys[m]) by {
            if m < before.len() {
                assert(out@[m] == before[m]);
            }
        }
    }
    out
}

/// The kinds of the items, each once, in the order of their first items.
pub open spec fn first_kinds(s: Seq<RbumSetItemRelInfoResp>) -> Seq<Seq<char>>
    decreases s.len(),
{
    if s.len() == 0 {
        Seq::empty()
    } else {
        let c = first_kinds(s.drop_last());
        let k = s.last().rel_rbum_item_kind_id@;
        if c.contains(k) {
            c
        } else {
            c.push(k)
        }
    }
}

/// The item ids of the items of a kind, in their order.
pub open spec fn ids_of_kind(s: Seq<RbumSetItemRelInfoResp>, kind: Seq<char>) -> Seq<Seq<char>>
    decreases s.len(),
{
    if s.len() == 0 {
        Seq::empty()
    } else {
        let c = ids_of_kind(s.drop_last(), kind);
        if s.last().rel_rbum_item_kind_id@ == kind {
            c.push(s.last().rel_rbum_item_id@)
        } else {
            c
        }
    }
}

/// The number of distinct items of each kind of a list of items, the kinds in the order of
/// their first items.
pub open spec fn kind_counts(s: Seq<RbumSetItemRelInfoResp>) -> Seq<(Seq<char>, nat)> {
    first_kinds(s).map_values(|k: Seq<char>| (k, ids_of_kind(s, k).to_set().len()))
}

/// The counts held by the executable counts.
pub open spec fn counts_view(m: Seq<(String, u64)>) -> Seq<(Seq<char>, nat)> {
    m.map_values(|e: (String, u64)| (e.0@, e.1 as nat))
}

/// The number of distinct texts.
fn distinct_count(ids: &Vec<String>) -> (r: u64)
    ensures
        r == ids@.map_values(|x: String| x@).to_set().len(),
{
    let ghost v = ids@.map_values(|x: String| x@);
    let mut count: u64 = 0;
    let mut k: usize = 0;
    proof {
        assert(v.take(0).to_set() =~= Set::<Seq<char>>::empty());
    }
    while k < ids.len()
        invariant
            k <= ids@.len(),
            v == ids@.map_values(|x: String| x@),
            count == v.take(k as int).to_set().len(),
            count <= k,
        decreases ids@.len() - k,
    {
        let mut seen = false;
        let mut m: usize = 0;
        while m < k
            invariant
                m <= k,
                k < ids@.len(),
                v == ids@.map_values(|x: String| x@),
                seen == exists|x: int| 0 <= x < m && v[x] == v[k as int],
            decreases k - m,
        {
            proof {
                assert(v[m as int] == ids@[m as int]@ && v[k as int] == ids@[k as int]@);
            }
            if ids[m] == ids[k] {
                seen = true;
            }
            m = m + 1;
        }
        proof {
            let t = v.take(k as int);
            assert(v.take(k + 1) =~= t.push(v[k as int]));
            assert(t.push(v[k as int]).to_set() =~= t.to_set().insert(v[k as int])) by {
                assert forall|e: Seq<char>| t.push(v[k as int]).to_set().contains(e) <==> t.to_set().insert(v[k as int]).contains(e) by {
                    if t.push(v[k as int]).to_set().contains(e) {
                        let w = choose|w: int| 0 <= w < t.len() + 1 && t.push(v[k as int])[w] == e;
                        if w < t.len() {
                            assert(t.contains(e));
                        }
                    }
                    if t.to_set().contains(e) && e != v[k as int] {
                        let w = choose|w: int| 0 <= w < t.len() && t[w] == e;
                        assert(t.push(v[k as int])[w] == e);
                    }
                    if e == v[k as int] {
                        assert(t.push(v[k as int])[t.len() as int] == e);
                    }
                }
            }
            vstd::seq_lib::seq_to_set_is_finite(t);
            if seen {
                let x = choose|x: int| 0 <= x < k && v[x] == v[k as int];
                assert(t[x] == v[k as int]);
                assert(t.to_set().contains(v[k as int]));
                assert(t.to_set().insert(v[k as int]) =~= t.to_set());
            } else {
                assert(!t.to_set().contains(v[k as int]));
            }
        }
        if !seen {
            count = count + 1;
        }
        k = k + 1;
    }
    proof {
        assert(v.take(k as int) =~= v);
    }
    count
}

/// The views of some texts.
pub open spec fn text_views(v: Seq<String>) -> Seq<Seq<char>> {
    v.map_values(|x: String| x@)
}

/// Some text of `v` has the view `t` exactly when the views of `v` contain `t`.
proof fn lemma_ids_contain_views(v: Seq<String>, t: Seq<char>)
    ensures
        ids_contain(v, t) == text_views(v).contains(t),
{
    if ids_contain(v, t) {
        let k = choose|k: int| 0 <= k < v.len() && (#[trigger] v[k])@ == t;
        assert(text_views(v)[k] == t);
    }
    if text_views(v).contains(t) {
        let k = choose|k: int| 0 <= k < text_views(v).len() && text_views(v)[k] == t;
        assert(v[k]@ == t);
    }
}

/// The kinds of the items, each once, in the order of their first items.
fn first_kinds_exec(s: &Vec<RbumSetItemRelInfoResp>) -> (r: Vec<String>)
    ensures
        text_views(r@) == first_kinds(s@),
{
    let mut kinds: Vec<String> = Vec::new();
    let mut k: usize = 0;
    proof {
        assert(text_views(kinds@) =~= first_kinds(s@.take(0)));
    }
    while k < s.len()
        invariant
            k <= s@.len(),
            text_views(kinds@) == first_kinds(s@.take(k as int)),
        decreases s@.len() - k,
    {
        proof {
            assert(s@.take(k + 1).drop_last() =~= s@.take(k as int));
            assert(s@.take(k + 1).last() == s@[k as int]);
            lemma_ids_contain_views(kinds@, s@[k as int].rel_rbum_item_kind_id@);
        }
        let seen = ids_contain_exec(&kinds, &s[k].rel_rbum_item_kind_id);
        if !seen {
            let ghost before = kinds@;
            kinds.push(s[k].rel_rbum_item_kind_id.clone());
            proof {
                assert(text_views(kinds@) =~= text_views(before).push(s@[k as int].rel_rbum_item_kind_id@));
            }
        }
        k = k + 1;
    }
    proof {
        assert(s@.take(k as int) =~= s@);
    }
    kinds
}

/// The item ids of the items of a kind, in their order.
fn ids_of_kind_exec(s: &Vec<RbumSetItemRelInfoResp>, kind: &String) -> (r: Vec<String>)
    ensures
        text_views(r@) == ids_of_kind(s@, kind@),
{
    let mut ids: Vec<String> = Vec::new();
    let mut k: usize = 0;
    proof {
        assert(text_views(ids@) =~= ids_of_kind(s@.take(0), kind@));
    }
    while k < s.len()
        invariant
            k <= s@.len(),
            text_views(ids@) == ids_of_kind(s@.take(k as int), kind@),
        decreases s@.len() - k,
    {
        proof {
            assert(s@.take(k + 1).drop_last() =~= s@.take(k as int));
            assert(s@.take(k + 1).last() == s@[k as int]);
        }
        if s[k].rel_rbum_item_kind_id == *kind {
            let ghost before = ids@;
            ids.push(s[k].rel_rbum_item_id.clone());
            proof {
                assert(text_views(ids@) =~= text_views(before).push(s@[k as int].rel_rbum_item_id@));
            }
        }
        k = k + 1;
    }
    proof {
        assert(s@.take(k as int) =~= s@);
    }
    ids
}

/// The number of distinct items of each kind of a list of items.
fn kind_counts_exec(s: &Vec<RbumSetItemRelInfoResp>) -> (r: Vec<(String, u64)>)
    ensures
        counts_view(r@) == kind_counts(s@),
{
    let kinds = first_kinds_exec(s);
    let ghost f = |k: Seq<char>| (k, ids_of_kind(s@, k).to_set().len());
    let mut m: Vec<(String, u64)> = Vec::new();
    let mut i: usize = 0;
    proof {
        assert(counts_view(m@) =~= text_views(kinds@).take(0).map_values(f));
    }
    while i < kinds.len()
        invariant
            i <= kinds@.len(),
            f == (|k: Seq<char>| (k, ids_of_kind(s@, k).to_set().len())),
            counts_view(m@) == text_views(kinds@).take(i as int).map_values(f),
        decreases kinds@.len() - i,
    {
        let ids = ids_of_kind_exec(s, &kinds[i]);
        let count = distinct_count(&ids);
        let ghost before = m@;
        m.push((kinds[i].clone(), count));
        proof {
            let kv = text_views(kinds@);
            assert(kv.take(i + 1) =~= kv.take(i as int).push(kinds@[i as int]@));
            assert(counts_view(m@) =~= counts_view(before).push((kinds@[i as int]@, count as nat)));
            assert(kv.take(i as int).push(kinds@[i as int]@).map_values(f) =~= kv.take(i as int).map_values(f).push(
                f(kinds@[i as int]@),
            ));
        }
        i = i + 1;
    }
    proof {
        assert(text_views(kinds@).take(i as int) =~= text_views(kinds@));
    }
    m
}

/// The items listed under the nodes whose system code starts with `code`, in the order
/// of the tree.
pub open spec fn items_under_code(
    tree: Seq<RbumSetTreeNodeResp>,
    items: Seq<RbumSetItemDetailResp>,
    code: Seq<char>,
) -> Seq<RbumSetItemRelInfoResp>
    decreases tree.len(),
{
    if tree.len() == 0 {
        Seq::empty()
    } else {
        items_under_code(tree.drop_last(), items, code) + if code.is_prefix_of(tree.last().sys_code@) {
            items_under(items, tree.last().id@)
        } else {
            Seq::empty()
        }
    }
}

/// The items listed under the keys, key by key.
pub open spec fn items_under_keys(keys: Seq<Seq<char>>, items: Seq<RbumSetItemDetailResp>) -> Seq<RbumSetItemRelInfoResp>
    decreases keys.len(),
{
    if keys.len() == 0 {
        Seq::empty()
    } else {
        items_under_keys(keys.drop_last(), items) + items_under(items, keys.last())
    }
}

/// The nodes that have an id.
pub open spec fn nodes_with_id(tree: Seq<RbumSetTreeNodeResp>) -> Seq<RbumSetTreeNodeResp> {
    tree.filter(|n: RbumSetTreeNodeResp| n.id@.len() > 0)
}

/// The entries count, per node that has an id, the items under its sub tree by kind, and
/// under the empty key all the items of the tree by kind.
pub open spec fn counts_items(
    entries: Seq<(String, Vec<(String, u64)>)>,
    tree: Seq<RbumSetTreeNodeResp>,
    items: Seq<RbumSetItemDetailResp>,
) -> bool {
    let nodes = nodes_with_id(tree);
    &&& entries.len() == nodes.len() + 1
    &&& forall|k: int|
        0 <= k < nodes.len() ==> (#[trigger] entries[k]).0@ == nodes[k].id@ && counts_view(entries[k].1@)
            == kind_counts(items_under_code(tree, items, nodes[k].sys_code@))
    &&& entries.last().0@ == Seq::<char>::empty()
    &&& counts_view(entries.last().1@) == kind_counts(items_under_keys(item_keys(tree), items))
}

/// The items listed under the nodes whose system code starts with `code`.
fn items_under_code_exec(tree: &Vec<RbumSetTreeNodeResp>, items: &Vec<RbumSetItemDetailResp>, code: &Vec<char>) -> (r: Vec<RbumSetItemRelInfoResp>)
    ensures
        r@ == items_under_code(tree@, items@, code@),
{
    let mut out: Vec<RbumSetItemRelInfoResp> = Vec::new();
    let mut k: usize = 0;
    while k < tree.len()
        invariant
            k <= tree@.len(),
            out@ == items_under_code(tree@.take(k as int), items@, code@),
        decreases tree@.len() - k,
    {
        proof {
            assert(tree@.take(k + 1).drop_last() =~= tree@.take(k as int));
            assert(tree@.take(k + 1).last() == tree@[k as int]);
        }
        let node_code = chars_of(tree[k].sys_code.as_str());
        if starts_with_chars(&node_code, code) {
            let mut under = items_under_exec(items, &tree[k].id);
            out.append(&mut under);
        } else {
            proof {
                assert(out@ + Seq::<RbumSetItemRelInfoResp>::empty() =~= out@);
            }
        }
        k = k + 1;
    }
    proof {
        assert(tree@.take(k as int) =~= tree@);
    }
    out
}

/// The number of the items per kind, per category and over the tree
///
/// 按分类及整棵树统计各类型资源项的数量
pub fn package_item_number_agg(tree: &Vec<RbumSetTreeNodeResp>, items: &Vec<RbumSetItemDetailResp>) -> (r: Vec<(String, Vec<(String, u64)>)>)
    ensures
        counts_items(r@, tree@, items@),
{
    let ghost nonempty = |n: RbumSetTreeNodeResp| n.id@.len() > 0;
    let mut out: Vec<(String, Vec<(String, u64)>)> = Vec::new();
    let mut k: usize = 0;
    while k < tree.len()
        invariant
            k <= tree@.len(),
            nonempty == (|n: RbumSetTreeNodeResp| n.id@.len() > 0),
            out@.len() == tree@.take(k as int).filter(nonempty).len(),
            forall|m: int|
                0 <= m < out@.len() ==> (#[trigger] out@[m]).0@ == tree@.take(k as int).filter(nonempty)[m].id@
                    && counts_view(out@[m].1@) == kind_counts(
                    items_under_code(tree@, items@, tree@.take(k as int).filter(nonempty)[m].sys_code@),
                ),
        decreases tree@.len() - k,
    {
        let ghost before = out@;
        let ghost f0 = tree@.take(k as int).filter(nonempty);
        proof {
            reveal(Seq::filter);
            assert(tree@.take(k + 1).drop_last() =~= tree@.take(k as int));
            assert(tree@.take(k + 1).last() == tree@[k as int]);
        }
        let id_chars = chars_of(tree[k].id.as_str());
        if id_chars.len() > 0 {
            let code = chars_of(tree[k].sys_code.as_str());
            let under = items_under_code_exec(tree, items, &code);
            let counts = kind_counts_exec(&under);
            out.push((tree[k].id.clone(), counts));
            proof {
                let f1 = tree@.take(k + 1).filter(nonempty);
                assert(f1 == f0.push(tree@[k as int]));
                assert forall|m: int| 0 <= m < out@.len() implies (#[trigger] out@[m]).0@ == f1[m].id@
                    && counts_view(out@[m].1@) == kind_counts(items_under_code(tree@, items@, f1[m].sys_code@)) by {
                    if m < before.len() {
                        assert(out@[m] == before[m]);
                        assert(f1[m] == f0[m]);
                    }
                }
            }
        }
        k = k + 1;
    }
    proof {
        assert(tree@.take(k as int) =~= tree@);
    }
    let keys = package_item_keys(tree);
    let mut all: Vec<RbumSetItemRelInfoResp> = Vec::new();
    let mut j: usize = 0;
    while j < keys.len()
        invariant
            j <= keys@.len(),
            keys@.map_values(|x: String| x@) == item_keys(tree@),
            all@ == items_under_keys(keys@.map_values(|x: String| x@).take(j as int), items@),
        decreases keys@.len() - j,
    {
        let ghost kv = keys@.map_values(|x: String| x@);
        proof {
            assert(kv.take(j + 1).drop_last() =~= kv.take(j as int));
            assert(kv.take(j + 1).last() == keys@[j as int]@);
        }
        let mut under = items_under_exec(items, &keys[j]);
        all.append(&mut under);
        j = j + 1;
    }
    proof {
        assert(keys@.map_values(|x: String| x@).take(j as int) =~= item_keys(tree@));
    }
    let ghost before = out@;
    let counts = kind_counts_exec(&all);
    out.push((String::new(), counts));
    proof {
        assert forall|m: int| 0 <= m < nodes_with_id(tree@).len() implies (#[trigger] out@[m]).0@
            == nodes_with_id(tree@)[m].id@ && counts_view(out@[m].1@) == kind_counts(
            items_under_code(tree@, items@, nodes_with_id(tree@)[m].sys_code@),
        ) by {
            assert(out@[m] == before[m]);
        }
    }
    out
}

/// The keys under which the tree lists items.
fn package_item_keys(tree: &Vec<RbumSetTreeNodeResp>) -> (r: Vec<String>)
    ensures
        r@.map_values(|x: String| x@) == item_keys(tree@),
{
    let ghost ids = tree@.map_values(|n: RbumSetTreeNodeResp| n.id@);
    let ghost nonempty = |k: Seq<char>| k.len() > 0;
    let mut out: Vec<String> = Vec::new();
    let mut k: usize = 0;
    while k < tree.len()
        invariant
            k <= tree@.len(),
            ids == tree@.map_values(|n: RbumSetTreeNodeResp| n.id@),
            nonempty == (|k: Seq<char>| k.len() > 0),
            out@.map_values(|x: String| x@) == ids.take(k as int).filter(nonempty),
        decreases tree@.len() - k,
    {
        proof {
            reveal(Seq::filter);
            assert(ids.take(k + 1).drop_last() =~= ids.take(k as int));
            assert(ids.take(k + 1).last() == tree@[k as int].id@);
        }
        let id_chars = chars_of(tree[k].id.as_str());
        if id_chars.len() > 0 {
            let ghost before = out@;
            out.push(tree[k].id.clone());
            proof {
                assert(out@.map_values(|x: String| x@) =~= before.map_values(|x: String| x@).push(tree@[k as int].id@));
            }
        }
        k = k + 1;
    }
    proof {
        assert(ids.take(k as int) =~= ids);
    }
    let ghost before = out@;
    out.push(String::new());
    proof {
        assert(out@.map_values(|x: String| x@) =~= before.map_values(|x: String| x@).push(Seq::<char>::empty()));
    }
    out
}

/// Sorting keeps each system code cuttable.
pub proof fn lemma_sorted_codes_cuttable(cates: Seq<RbumSetCateSummaryResp>, node_len: nat)
    requires
        codes_cuttable(cates, node_len),
    ensures
        codes_cuttable(sorted_cates(cates), node_len),
{
    broadcast use vstd::seq_lib::to_multiset_contains;

    let t = sorted_cates(cates);
    lemma_sorted_cates(cates);
    assert forall|i: int| 0 <= i < t.len() implies node_len <= code_bytes(#[trigger] t[i]).len()
        && is_char_boundary(code_bytes(t[i]), code_bytes(t[i]).len() - node_len) by {
        assert(t.contains(t[i]));
        assert(t.to_multiset().count(t[i]) > 0);
        assert(cates.contains(t[i]));
        let j = choose|j: int| 0 <= j < cates.len() && cates[j] == t[i];
        assert(cates[j] == t[i]);
    }
}

/// The tree nodes that the tree shows: all of them, or, when the categories without
/// items are to be hidden, those on the way from a node with items up to a root.
pub open spec fn shown_nodes(
    cates: Seq<RbumSetCateSummaryResp>,
    items: Seq<RbumSetItemDetailResp>,
    hide_cate_with_empty_item: bool,
    node_len: nat,
) -> Seq<RbumSetTreeNodeResp> {
    if hide_cate_with_empty_item {
        nodes_with_items(tree_main_of(cates, node_len), items)
    } else {
        tree_main_of(cates, node_len)
    }
}

/// The texts, each once, in the order of their first occurrence.
pub open spec fn distinct_texts(s: Seq<Seq<char>>) -> Seq<Seq<char>>
    decreases s.len(),
{
    if s.len() == 0 {
        Seq::empty()
    } else {
        let c = distinct_texts(s.drop_last());
        if c.contains(s.last()) {
            c
        } else {
            c.push(s.last())
        }
    }
}

/// The kind (or the domain) of an item of the tree.
pub open spec fn item_field(i: RbumSetItemRelInfoResp, kind: bool) -> Seq<char> {
    if kind {
        i.rel_rbum_item_kind_id@
    } else {
        i.rel_rbum_item_domain_id@
    }
}

/// The kinds (or the domains) of the listed items, key by key.
pub open spec fn listed_field(entries: Seq<(String, Vec<RbumSetItemRelInfoResp>)>, kind: bool) -> Seq<Seq<char>>
    decreases entries.len(),
{
    if entries.len() == 0 {
        Seq::empty()
    } else {
        listed_field(entries.drop_last(), kind) + entries.last().1@.map_values(|i: RbumSetItemRelInfoResp| item_field(i, kind))
    }
}

/// The kinds (or the domains) of the listed items, each once.
fn listed_ids(entries: &Vec<(String, Vec<RbumSetItemRelInfoResp>)>, kind: bool) -> (r: Vec<String>)
    ensures
        text_views(r@) == distinct_texts(listed_field(entries@, kind)),
{
    let mut out: Vec<String> = Vec::new();
    let ghost seen: Seq<Seq<char>> = Seq::empty();
    let mut e: usize = 0;
    while e < entries.len()
        invariant
            e <= entries@.len(),
            seen == listed_field(entries@.take(e as int), kind),
            text_views(out@) == distinct_texts(seen),
        decreases entries@.len() - e,
    {
        let infos = &entries[e].1;
        let ghost base = seen;
        let mut k: usize = 0;
        while k < infos.len()
            invariant
                k <= infos@.len(),
                *infos == entries@[e as int].1,
                seen == base + infos@.take(k as int).map_values(|i: RbumSetItemRelInfoResp| item_field(i, kind)),
                text_views(out@) == distinct_texts(seen),
            decreases infos@.len() - k,
        {
            let id = if kind {
                &infos[k].rel_rbum_item_kind_id
            } else {
                &infos[k].rel_rbum_item_domain_id
            };
            proof {
                lemma_ids_contain_views(out@, id@);
            }
            let known = ids_contain_exec(&out, id);
            let ghost prev = seen;
            proof {
                seen = seen.push(id@);
                assert(seen.drop_last() =~= prev);
                assert(infos@.take(k + 1).map_values(|i: RbumSetItemRelInfoResp| item_field(i, kind)) =~= infos@.take(
                    k as int,
                ).map_values(|i: RbumSetItemRelInfoResp| item_field(i, kind)).push(id@));
            }
            if !known {
                let ghost before = out@;
                out.push(id.clone());
                proof {
                    assert(text_views(out@) =~= text_views(before).push(id@));
                }
            }
            k = k + 1;
        }
        proof {
            assert(infos@.take(k as int) =~= infos@);
            assert(entries@.take(e + 1).drop_last() =~= entries@.take(e as int));
            assert(entries@.take(e + 1).last() == entries@[e as int]);
        }
        e = e + 1;
    }
    proof {
        assert(entries@.take(e as int) =~= entries@);
    }
    out
}

/// Resource set service
pub struct RbumSetServ;

impl RbumSetServ {
    /// Build the resource tree from the categories of the set and, when they are fetched,
    /// the items of the set
    ///
    /// 由资源集的分类（及资源项）构建资源树
    ///
    /// The categories come in the order of `sort`, then of `sys_code`; each names as its
    /// parent the first category whose system code is its own less the last node.
    pub fn get_tree(
        cates: Vec<RbumSetCateSummaryResp>,
        items: Vec<RbumSetItemDetailResp>,
        filter: &RbumSetTreeFilterReq,
        node_len: usize,
    ) -> (r: RbumSetTreeResp)
        requires
            codes_cuttable(cates@, node_len as nat),
        ensures
            !filter.fetch_cate_item ==> r.main@ == tree_main_of(cates@, node_len as nat) && r.ext is None,
            filter.fetch_cate_item ==> ({
                let main = shown_nodes(cates@, items@, filter.hide_cate_with_empty_item, node_len as nat);
                &&& r.main@ == main
                &&& r.ext matches Some(e)
                &&& lists_items_under(e.items@, item_keys(main), items@)
                &&& counts_items(e.item_number_agg@, main, items@)
                &&& text_views(e.item_kind_ids@) == distinct_texts(listed_field(e.items@, true))
                &&& text_views(e.item_domain_ids@) == distinct_texts(listed_field(e.items@, false))
            }),
    {
        let sorted = sort_set_cates(cates);
        proof {
            lemma_sorted_codes_cuttable(cates@, node_len as nat);
        }
        let tree_main = package_tree_nodes(sorted, node_len);
        if !filter.fetch_cate_item {
            return RbumSetTreeResp { main: tree_main, ext: None };
        }
        let tree_main = if filter.hide_cate_with_empty_item {
            // Filter out nodes without associated resource items
            //
            // 过滤掉没有关联资源项的节点
            filter_cates_with_items(tree_main, &items)
        } else {
            tree_main
        };
        let tree_items = package_tree_items(&tree_main, &items);
        let item_number_agg = package_item_number_agg(&tree_main, &items);
        let item_kind_ids = listed_ids(&tree_items, true);
        let item_domain_ids = listed_ids(&tree_items, false);
        RbumSetTreeResp {
            main: tree_main,
            ext: Some(RbumSetTreeExtResp { items: tree_items, item_number_agg, item_kind_ids, item_domain_ids }),
        }
    }
}

/// The system code of the category of a set item, empty when it has none.
pub open spec fn item_sys_code(item: RbumSetItemSummaryResp) -> Seq<char> {
    match item.rel_rbum_set_cate_sys_code {
        Some(c) => c@,
        None => Seq::empty(),
    }
}

/// How the category codes `a` and `b` of two items must relate: `a` at or above `b` when
/// both the parent and the sibling relation are asked for, strictly above when only the
/// parent relation is, the same code when only the sibling relation is, and else neither.
pub open spec fn codes_relate(a: Seq<char>, b: Seq<char>, is_parent: bool, is_sibling: bool) -> bool {
    if is_parent && is_sibling {
        a.is_prefix_of(b)
    } else if is_parent {
        a.is_prefix_of(b) && a != b
    } else if is_sibling {
        a == b
    } else {
        a != b && !a.is_prefix_of(b)
    }
}

/// Some set item of `a` and some set item of `b` sit in categories that relate as asked.
pub open spec fn items_relate(
    set_items: Seq<RbumSetItemSummaryResp>,
    a: Seq<char>,
    b: Seq<char>,
    is_parent: bool,
    is_sibling: bool,
) -> bool {
    exists|x: int, y: int|
        0 <= x < set_items.len() && 0 <= y < set_items.len() && (#[trigger] set_items[x]).rel_rbum_item_id@
            == a && (#[trigger] set_items[y]).rel_rbum_item_id@ == b && codes_relate(
            item_sys_code(set_items[x]),
            item_sys_code(set_items[y]),
            is_parent,
            is_sibling,
        )
}

/// A category is at or above another exactly when it is strictly above it or the same one.
pub proof fn lemma_parent_or_sibling(
    set_items: Seq<RbumSetItemSummaryResp>,
    a: Seq<char>,
    b: Seq<char>,
)
    ensures
        items_relate(set_items, a, b, true, true) == (items_relate(set_items, a, b, true, false)
            || items_relate(set_items, a, b, false, true)),
{
    if items_relate(set_items, a, b, true, true) {
        let (x, y) = choose|x: int, y: int|
            0 <= x < set_items.len() && 0 <= y < set_items.len() && (#[trigger] set_items[x]).rel_rbum_item_id@
                == a && (#[trigger] set_items[y]).rel_rbum_item_id@ == b && codes_relate(
                item_sys_code(set_items[x]),
                item_sys_code(set_items[y]),
                true,
                true,
            );
        if item_sys_code(set_items[x]) == item_sys_code(set_items[y]) {
            assert(codes_relate(item_sys_code(set_items[x]), item_sys_code(set_items[y]), false, true));
        } else {
            assert(codes_relate(item_sys_code(set_items[x]), item_sys_code(set_items[y]), true, false));
        }
    }
    if items_relate(set_items, a, b, false, true) {
        let (x, y) = choose|x: int, y: int|
            0 <= x < set_items.len() && 0 <= y < set_items.len() && (#[trigger] set_items[x]).rel_rbum_item_id@
                == a && (#[trigger] set_items[y]).rel_rbum_item_id@ == b && codes_relate(
                item_sys_code(set_items[x]),
                item_sys_code(set_items[y]),
                false,
                true,
            );
        assert(item_sys_code(set_items[x]).is_prefix_of(item_sys_code(set_items[y])));
        assert(codes_relate(item_sys_code(set_items[x]), item_sys_code(set_items[y]), true, true));
    }
}

/// The category code of a set item.
fn item_sys_code_exec(item: &RbumSetItemSummaryResp) -> (r: Vec<char>)
    ensures
        r@ == item_sys_code(*item),
{
    match &item.rel_rbum_set_cate_sys_code {
        Some(c) => chars_of(c.as_str()),
        None => Vec::new(),
    }
}

/// Set item services
pub struct RbumSetItemServ;

impl RbumSetItemServ {
    /// Check whether the categories of resource items a and b relate as asked, given the
    /// set items of both in the resource set
    ///
    /// 检查资源项a与资源项b所在分类的关系
    pub fn check_a_and_b(
        set_items: &Vec<RbumSetItemSummaryResp>,
        rbum_item_a_id: &str,
        rbum_item_b_id: &str,
        is_parent: bool,
        is_sibling: bool,
    ) -> (r: bool)
        ensures
            r == items_relate(set_items@, rbum_item_a_id@, rbum_item_b_id@, is_parent, is_sibling),
    {
        let a_chars = chars_of(rbum_item_a_id);
        let b_chars = chars_of(rbum_item_b_id);
        let n = set_items.len();
        let mut x: usize = 0;
        while x < n
            invariant
                x <= n,
                n == set_items@.len(),
                a_chars@ == rbum_item_a_id@,
                b_chars@ == rbum_item_b_id@,
                forall|i: int, j: int|
                    0 <= i < x && 0 <= j < n ==> !((#[trigger] set_items@[i]).rel_rbum_item_id@
                        == rbum_item_a_id@ && (#[trigger] set_items@[j]).rel_rbum_item_id@
                        == rbum_item_b_id@ && codes_relate(
                        item_sys_code(set_items@[i]),
                        item_sys_code(set_items@[j]),
                        is_parent,
                        is_sibling,
                    )),
            decreases n - x,
        {
            let xa = chars_of(set_items[x].rel_rbum_item_id.as_str());
            if crate::text::eq_chars(&xa, &a_chars) {
                let code_a = item_sys_code_exec(&set_items[x]);
                let mut y: usize = 0;
                while y < n
                    invariant
                        y <= n,
                        x < n,
                        n == set_items@.len(),
                        b_chars@ == rbum_item_b_id@,
                        code_a@ == item_sys_code(set_items@[x as int]),
                        set_items@[x as int].rel_rbum_item_id@ == rbum_item_a_id@,
                        forall|j: int|
                            0 <= j < y ==> !((#[trigger] set_items@[j]).rel_rbum_item_id@
                                == rbum_item_b_id@ && codes_relate(
                                item_sys_code(set_items@[x as int]),
                                item_sys_code(set_items@[j]),
                                is_parent,
                                is_sibling,
                            )),
                    decreases n - y,
                {
                    let yb = chars_of(set_items[y].rel_rbum_item_id.as_str());
                    if crate::text::eq_chars(&yb, &b_chars) {
                        let code_b = item_sys_code_exec(&set_items[y]);
                        let prefix = starts_with_chars(&code_b, &code_a);
                        let same = crate::text::eq_chars(&code_a, &code_b);
                        let hit = if is_parent && is_sibling {
                            prefix
                        } else if is_parent {
                            prefix && !same
                        } else if is_sibling {
                            same
                        } else {
                            !same && !prefix
                        };
                        if hit {
                            assert(set_items@[x as int].rel_rbum_item_id@ == rbum_item_a_id@);
                            assert(set_items@[y as int].rel_rbum_item_id@ == rbum_item_b_id@);
                            return true;
                        }
                    }
                    y = y + 1;
                }
            }
            x = x + 1;
        }
        false
    }

    /// Check whether resource item a is the parent of resource item b
    ///
    /// 检查资源项a是否是资源项b的父级
    pub fn check_a_is_parent_of_b(set_items: &Vec<RbumSetItemSummaryResp>, rbum_item_a_id: &str, rbum_item_b_id: &str) -> (r: bool)
        ensures
            r == items_relate(set_items@, rbum_item_a_id@, rbum_item_b_id@, true, false),
    {
        Self::check_a_and_b(set_items, rbum_item_a_id, rbum_item_b_id, true, false)
    }

    /// Check whether resource item a is the sibling of resource item b
    ///
    /// 检查资源项a是否是资源项b的兄弟级
    pub fn check_a_is_sibling_of_b(set_items: &Vec<RbumSetItemSummaryResp>, rbum_item_a_id: &str, rbum_item_b_id: &str) -> (r: bool)
        ensures
            r == items_relate(set_items@, rbum_item_a_id@, rbum_item_b_id@, false, true),
    {
        Self::check_a_and_b(set_items, rbum_item_a_id, rbum_item_b_id, false, true)
    }

    /// Check whether resource item a is the parent or sibling of resource item b
    ///
    /// 检查资源项a是否是资源项b的父级或兄弟级
    pub fn check_a_is_parent_or_sibling_of_b(set_items: &Vec<RbumSetItemSummaryResp>, rbum_item_a_id: &str, rbum_item_b_id: &str) -> (r: bool)
        ensures
            r == items_relate(set_items@, rbum_item_a_id@, rbum_item_b_id@, true, true),
    {
        Self::check_a_and_b(set_items, rbum_item_a_id, rbum_item_b_id, true, true)
    }
}

/// A digit of the base-36 codes: `0`-`9`, then `a`-`z`.
pub open spec fn is_base36_digit(c: char) -> bool {
    ('0' <= c && c <= '9') || ('a' <= c && c <= 'z')
}

/// The base-36 digit after `c`.
pub open spec fn next_base36_digit(c: char) -> char {
    if c == '9' {
        'a'
    } else {
        ((c as u32) + 1) as char
    }
}

/// The code one above `s` in base 36 with as many digits, none when `s` is all `z`.
pub open spec fn base36_incr(s: Seq<char>) -> Option<Seq<char>>
    decreases s.len(),
{
    if s.len() == 0 {
        None
    } else if s.last() == 'z' {
        match base36_incr(s.drop_last()) {
            Some(p) => Some(p.push('0')),
            None => None,
        }
    } else {
        Some(s.drop_last().push(next_base36_digit(s.last())))
    }
}

/// The digits that incrementing reads, from the last one up to the first that is not `z`,
/// are base-36 digits.
pub open spec fn base36_incr_defined(s: Seq<char>) -> bool
    decreases s.len(),
{
    s.len() == 0 || (is_base36_digit(s.last()) && (s.last() == 'z' ==> base36_incr_defined(s.drop_last())))
}

/// A common prefix keeps the order of two texts.
proof fn lemma_seq_lt_prefix(p: Seq<char>, a: Seq<char>, b: Seq<char>)
    requires
        seq_lt(a, b),
    ensures
        seq_lt(p + a, p + b),
    decreases p.len(),
{
    if p.len() > 0 {
        lemma_seq_lt_prefix(p.drop_first(), a, b);
        assert((p + a).drop_first() =~= p.drop_first() + a);
        assert((p + b).drop_first() =~= p.drop_first() + b);
    } else {
        assert(p + a =~= a);
        assert(p + b =~= b);
    }
}

/// Appending a character to each of two texts of one length keeps their order.
proof fn lemma_seq_lt_push(a: Seq<char>, b: Seq<char>, x: char, y: char)
    requires
        a.len() == b.len(),
        seq_lt(a, b),
    ensures
        seq_lt(a.push(x), b.push(y)),
    decreases a.len(),
{
    if a.len() > 0 && a[0] == b[0] {
        lemma_seq_lt_push(a.drop_first(), b.drop_first(), x, y);
        assert(a.push(x).drop_first() =~= a.drop_first().push(x));
        assert(b.push(y).drop_first() =~= b.drop_first().push(y));
    }
}

/// Two texts that differ only in their last character are ordered by it.
proof fn lemma_seq_lt_last(d: Seq<char>, x: char, y: char)
    requires
        x < y,
    ensures
        seq_lt(d.push(x), d.push(y)),
    decreases d.len(),
{
    if d.len() > 0 {
        lemma_seq_lt_last(d.drop_first(), x, y);
        assert(d.push(x).drop_first() =~= d.drop_first().push(x));
        assert(d.push(y).drop_first() =~= d.drop_first().push(y));
    }
}

/// Incrementing a base-36 code keeps its length and gives a code after it.
pub proof fn lemma_base36_incr_grows(s: Seq<char>)
    requires
        base36_incr_defined(s),
    ensures
        base36_incr(s) matches Some(t) ==> t.len() == s.len() && seq_lt(s, t),
    decreases s.len(),
{
    if s.len() > 0 {
        let d = s.drop_last();
        assert(s =~= d.push(s.last()));
        if s.last() == 'z' {
            lemma_base36_incr_grows(d);
            if let Some(p) = base36_incr(d) {
                lemma_seq_lt_push(d, p, 'z', '0');
            }
        } else {
            let c = s.last();
            assert(c < next_base36_digit(c));
            lemma_seq_lt_last(d, c, next_base36_digit(c));
        }
    }
}

/// A text is its part before a character boundary followed by its part after it.
proof fn lemma_text_split(s: Seq<char>, n: int)
    requires
        0 <= n <= utf8_of(s).len(),
        is_char_boundary(utf8_of(s), n),
    ensures
        text_before(s, n) + text_after(s, n) == s,
{
    let b = utf8_of(s);
    vstd::utf8::encode_utf8_valid_utf8(s);
    vstd::utf8::encode_utf8_decode_utf8(s);
    vstd::utf8::decode_utf8_split(b, n);
    assert(b.take(n) =~= b.subrange(0, n));
    assert(b.skip(n) =~= b.subrange(n, b.len() as int));
}

/// ``TardisFuns::field.incr_by_base36``: the code one above in base 36 (`0`-`9a`-`z`) with
/// as many digits, none when every digit is `z` or the code is empty. The contract states
/// that result; the source panics on a digit it reads that is not base 36, which the
/// `requires` leaves out.
#[verifier::external_body]
fn incr_by_base36(code: &str) -> (r: Option<String>)
    requires
        base36_incr_defined(code@),
    ensures
        r matches Some(s) ==> base36_incr(code@) == Some(s@),
        r is None ==> base36_incr(code@) is None,
{
    TardisFuns::field.incr_by_base36(code)
}

/// `n` zeros.
fn zeros(n: usize) -> (r: String)
    ensures
        r@ == Seq::new(n as nat, |i: int| '0'),
{
    let mut v: Vec<char> = Vec::new();
    let mut i: usize = 0;
    while i < n
        invariant
            i <= n,
            v@ == Seq::new(i as nat, |k: int| '0'),
        decreases n - i,
    {
        v.push('0');
        i = i + 1;
        assert(v@ =~= Seq::new(i as nat, |k: int| '0'));
    }
    crate::text::string_of(&v)
}

/// The text of the first `n` bytes of a text, when `n` falls on a character boundary.
pub open spec fn text_before(s: Seq<char>, n: int) -> Seq<char> {
    decode_utf8(utf8_of(s).take(n))
}

/// The text after the first `n` bytes of a text, when `n` falls on a character boundary.
pub open spec fn text_after(s: Seq<char>, n: int) -> Seq<char> {
    decode_utf8(utf8_of(s).skip(n))
}

/// Split a text after its first `n` bytes.
fn split_text(s: &str, n: usize) -> (r: (String, String))
    requires
        is_char_boundary(utf8_of(s@), n as int),
        n <= utf8_of(s@).len(),
    ensures
        r.0@ == text_before(s@, n as int),
        r.1@ == text_after(s@, n as int),
        r.0@ + r.1@ == s@,
{
    let (a, b) = s.split_at(n);
    proof {
        vstd::utf8::encode_utf8_decode_utf8(a@);
        vstd::utf8::encode_utf8_decode_utf8(b@);
        vstd::utf8::encode_utf8_decode_utf8(s@);
        assert(utf8_of(s@).take(n as int) =~= a.spec_bytes());
        assert(utf8_of(s@).skip(n as int) =~= b.spec_bytes());
        crate::rbum::helper::secret_helper::lemma_encode_concat(a@, b@);
        assert(utf8_of(a@) + utf8_of(b@) =~= utf8_of(s@));
        vstd::utf8::encode_utf8_decode_utf8(a@ + b@);
    }
    (a.to_owned(), b.to_owned())
}

/// The next system code on a level, given the greatest code on it (or none when the level
/// is empty) and the code of the parent (none on the first level).
pub open spec fn next_sys_code(
    current_max: Option<Seq<char>>,
    parent_sys_code: Option<Seq<char>>,
    node_len: nat,
) -> Result<Seq<char>, BasicError> {
    match current_max {
        Some(c) => {
            let n = utf8_of(c).len();
            if n != node_len {
                match base36_incr(text_after(c, n - node_len)) {
                    Some(l) => Ok(text_before(c, n - node_len) + l),
                    None => Err(BasicError::SysCodeSaturated),
                }
            } else {
                match base36_incr(c) {
                    Some(l) => Ok(l),
                    None => Err(BasicError::SysCodeSaturated),
                }
            }
        },
        None => match parent_sys_code {
            Some(p) => Ok(p + Seq::new(node_len, |i: int| '0')),
            None => Ok(Seq::new(node_len, |i: int| '0')),
        },
    }
}

/// The greatest code can be cut before its last node, and the digits that incrementing
/// reads are base-36 digits.
pub open spec fn sys_code_incrementable(current_max: Seq<char>, node_len: nat) -> bool {
    let n = utf8_of(current_max).len();
    if n != node_len {
        node_len <= n && is_char_boundary(utf8_of(current_max), n - node_len)
            && base36_incr_defined(text_after(current_max, n - node_len))
    } else {
        base36_incr_defined(current_max)
    }
}

/// The system codes of the ancestors of a category, from the nearest one up: its code cut
/// after each whole number of nodes, longest first.
pub open spec fn parent_sys_codes(sys_code: Seq<char>, node_len: nat) -> Seq<Seq<char>>
    recommends
        node_len > 0,
{
    let levels = utf8_of(sys_code).len() / node_len - 1;
    Seq::new(levels as nat, |k: int| text_before(sys_code, node_len * (levels - k)))
}

/// The code of a new category comes after the greatest code of its level, with as many
/// characters and the same part above the level.
pub proof fn lemma_next_sys_code_after_max(current_max: Seq<char>, parent_sys_code: Option<Seq<char>>, node_len: nat)
    requires
        sys_code_incrementable(current_max, node_len),
    ensures
        next_sys_code(Some(current_max), parent_sys_code, node_len) matches Ok(t) ==> {
            let n = utf8_of(current_max).len();
            &&& seq_lt(current_max, t)
            &&& t.len() == current_max.len()
            &&& n != node_len ==> text_before(current_max, n - node_len).is_prefix_of(t)
        },
{
    let n = utf8_of(current_max).len();
    if n != node_len {
        let k = n - node_len;
        let before = text_before(current_max, k);
        let after = text_after(current_max, k);
        lemma_text_split(current_max, k);
        lemma_base36_incr_grows(after);
        if let Some(l) = base36_incr(after) {
            lemma_seq_lt_prefix(before, after, l);
            assert((before + l).subrange(0, before.len() as int) =~= before);
        }
    } else {
        lemma_base36_incr_grows(current_max);
    }
}

/// Set category services
pub struct RbumSetCateServ;

impl RbumSetCateServ {
    /// Fetch the sys_code of the parent nodes
    ///
    /// 获取父级节点的sys_code集合
    pub fn get_parent_sys_codes(sys_code: &str, node_len: usize) -> (r: Vec<String>)
        requires
            node_len > 0,
            node_len <= utf8_of(sys_code@).len(),
            forall|l: int|
                1 <= l < (utf8_of(sys_code@).len() as int) / (node_len as int) ==> is_char_boundary(
                    utf8_of(sys_code@),
                    #[trigger] (node_len * l),
                ),
        ensures
            r@.len() == parent_sys_codes(sys_code@, node_len as nat).len(),
            forall|k: int| 0 <= k < r@.len() ==> (#[trigger] r@[k])@ == parent_sys_codes(sys_code@, node_len as nat)[k],
    {
        let len = sys_code.as_bytes().len();
        proof {
            assert(len / node_len >= 1) by (nonlinear_arith)
                requires
                    node_len > 0,
                    node_len <= len,
            ;
        }
        let top = len / node_len - 1;
        let mut level = top;
        let mut out: Vec<String> = Vec::new();
        proof {
            assert(node_len * (len / node_len) <= len) by (nonlinear_arith)
                requires
                    node_len > 0,
            ;
        }
        while level != 0
            invariant
                level <= top,
                top == len / node_len - 1,
                len == utf8_of(sys_code@).len(),
                node_len > 0,
                node_len * (len / node_len) <= len,
                forall|l: int|
                    1 <= l < (len as int) / (node_len as int) ==> is_char_boundary(utf8_of(sys_code@), #[trigger] (node_len * l)),
                out@.len() == top - level,
                forall|k: int|
                    0 <= k < out@.len() ==> (#[trigger] out@[k])@ == text_before(sys_code@, node_len * (top - k)),
            decreases level,
        {
            proof {
                assert(node_len * level <= node_len * (len / node_len)) by (nonlinear_arith)
                    requires
                        level <= len / node_len,
                        node_len > 0,
                ;
            }
            let cut = node_len * level;
            let (before, _) = split_text(sys_code, cut);
            out.push(before);
            level = level - 1;
        }
        proof {
            let expected = parent_sys_codes(sys_code@, node_len as nat);
            assert forall|k: int| 0 <= k < out@.len() implies (#[trigger] out@[k])@ == expected[k] by {}
        }
        out
    }

    /// The code of a new category on a level, given the greatest code on that level (none
    /// when it is empty) and the code of the parent (none on the first level)
    ///
    /// 获取新节点的sys_code
    pub fn get_max_sys_code_by_level(
        current_max_sys_code: Option<String>,
        parent_sys_code: Option<&str>,
        node_len: usize,
    ) -> (r: Result<String, BasicError>)
        requires
            current_max_sys_code matches Some(c) ==> sys_code_incrementable(c@, node_len as nat),
        ensures
            match (r, next_sys_code(
                match current_max_sys_code {
                    Some(c) => Some(c@),
                    None => None,
                },
                match parent_sys_code {
                    Some(p) => Some(p@),
                    None => None,
                },
                node_len as nat,
            )) {
                (Ok(s), Ok(t)) => s@ == t,
                (Err(e), Err(f)) => e == f,
                _ => false,
            },
    {
        match current_max_sys_code {
            Some(current) => {
                let n = current.as_str().as_bytes().len();
                if n != node_len {
                    // if level N (N!=1) not empty
                    let (parent, level) = split_text(current.as_str(), n - node_len);
                    match incr_by_base36(level.as_str()) {
                        Some(next) => {
                            let mut out = chars_of(parent.as_str());
                            let next_chars = chars_of(next.as_str());
                            let ghost before = out@;
                            let mut k: usize = 0;
                            while k < next_chars.len()
                                invariant
                                    k <= next_chars@.len(),
                                    out@ == before + next_chars@.take(k as int),
                                decreases next_chars@.len() - k,
                            {
                                out.push(next_chars[k]);
                                proof {
                                    assert(before + next_chars@.take(k + 1) =~= (before + next_chars@.take(k as int)).push(next_chars@[k as int]));
                                }
                                k = k + 1;
                            }
                            proof {
                                assert(next_chars@.take(k as int) =~= next_chars@);
                            }
                            Ok(crate::text::string_of(&out))
                        },
                        None => Err(BasicError::SysCodeSaturated),
                    }
                } else {
                    // if level 1 not empty
                    match incr_by_base36(current.as_str()) {
                        Some(next) => Ok(next),
                        None => Err(BasicError::SysCodeSaturated),
                    }
                }
            },
            None => match parent_sys_code {
                // if level N (N!=1) is empty
                Some(parent) => {
                    let mut out = chars_of(parent);
                    let z = chars_of(zeros(node_len).as_str());
                    let ghost before = out@;
                    let mut k: usize = 0;
                    while k < z.len()
                        invariant
                            k <= z@.len(),
                            out@ == before + z@.take(k as int),
                        decreases z@.len() - k,
                    {
                        out.push(z[k]);
                        proof {
                            assert(before + z@.take(k + 1) =~= (before + z@.take(k as int)).push(z@[k as int]));
                        }
                        k = k + 1;
                    }
                    proof {
                        assert(z@.take(k as int) =~= z@);
                    }
                    Ok(crate::text::string_of(&out))
                },
                // if level 1 is empty
                None => Ok(zeros(node_len)),
            },
        }
    }
}

/// The codes of the ancestors of a queried code can be cut out of it: it holds at least one
/// node, and each whole number of nodes ends on a character boundary.
pub open spec fn parents_computable(q: Seq<char>, node_len: usize) -> bool {
    &&& node_len > 0
    &&& node_len <= utf8_of(q).len()
    &&& forall|l: int|
        1 <= l < (utf8_of(q).len() as int) / (node_len as int) ==> is_char_boundary(
            utf8_of(q),
            #[trigger] (node_len * l),
        )
}

/// A category code is at most `depth` levels longer than the queried code: the number of
/// characters of the category code is at most the bound that the query compares it with,
/// the byte length of the queried code plus `depth` nodes, computed in `usize` (a negative
/// depth wraps) and cut to an `i32`; no bound without a depth.
pub open spec fn within_depth(code: Seq<char>, q: Seq<char>, depth: Option<i16>, node_len: nat) -> bool {
    match depth {
        Some(d) => code.len() <= ((utf8_of(q).len() + node_len * (d as usize)) as i32),
        None => true,
    }
}
/// Whether a category code is selected by one queried code: under it (within the depth) or
/// it; strictly under it (within the depth); it or one of its ancestors; one of its
/// ancestors; or it.
pub open spec fn selected_by(
    code: Seq<char>,
    q: Seq<char>,
    kind: RbumSetCateLevelQueryKind,
    depth: Option<i16>,
    node_len: nat,
) -> bool {
    match kind {
        RbumSetCateLevelQueryKind::CurrentAndSub => q.is_prefix_of(code) && within_depth(code, q, depth, node_len),
        RbumSetCateLevelQueryKind::Sub => q.is_prefix_of(code) && code.len() > utf8_of(q).len() && within_depth(
            code,
            q,
            depth,
            node_len,
        ),
        RbumSetCateLevelQueryKind::CurrentAndParent => code == q || parent_sys_codes(q, node_len).contains(code),
        RbumSetCateLevelQueryKind::Parent => parent_sys_codes(q, node_len).contains(code),
        RbumSetCateLevelQueryKind::Current => code == q,
    }
}

/// Whether a category code passes a level query over system codes (the query kind defaults
/// to the current level): with no queried code, the current level means the first one and
/// the other kinds select every code; else some queried code selects it.
pub open spec fn level_selects(
    code: Seq<char>,
    qs: Seq<String>,
    kind: Option<RbumSetCateLevelQueryKind>,
    depth: Option<i16>,
    node_len: nat,
) -> bool {
    let k = match kind {
        Some(k) => k,
        None => RbumSetCateLevelQueryKind::Current,
    };
    if qs.len() == 0 {
        k == RbumSetCateLevelQueryKind::Current ==> code.len() == node_len
    } else {
        exists|i: int| 0 <= i < qs.len() && selected_by(code, (#[trigger] qs[i])@, k, depth, node_len)
    }
}

/// A queried code selects under "current and parent" exactly what it selects under
/// "current" or under "parent".
pub proof fn lemma_current_and_parent_splits(code: Seq<char>, q: Seq<char>, depth: Option<i16>, node_len: nat)
    ensures
        selected_by(code, q, RbumSetCateLevelQueryKind::CurrentAndParent, depth, node_len) == (selected_by(
            code,
            q,
            RbumSetCateLevelQueryKind::Current,
            depth,
            node_len,
        ) || selected_by(code, q, RbumSetCateLevelQueryKind::Parent, depth, node_len)),
{
}

/// A queried code of ASCII characters (as system codes are) selects under "current and
/// sub" exactly what it selects under "current" or under "sub", within the same depth.
pub proof fn lemma_current_and_sub_splits(code: Seq<char>, q: Seq<char>, depth: Option<i16>, node_len: nat)
    requires
        vstd::utf8::is_ascii_chars(q),
        depth matches Some(d) ==> d >= 0 && utf8_of(q).len() + node_len * d <= i32::MAX,
    ensures
        selected_by(code, q, RbumSetCateLevelQueryKind::CurrentAndSub, depth, node_len) == (selected_by(
            code,
            q,
            RbumSetCateLevelQueryKind::Current,
            depth,
            node_len,
        ) || selected_by(code, q, RbumSetCateLevelQueryKind::Sub, depth, node_len)),
{
    vstd::utf8::is_ascii_chars_encode_utf8(q);
    if code == q {
        assert(q.is_prefix_of(code));
        if let Some(d) = depth {
            assert(node_len * d >= 0) by (nonlinear_arith)
                requires
                    d >= 0,
            ;
        }
    }
    if q.is_prefix_of(code) && code.len() == q.len() {
        assert(code =~= q);
    }
}

/// What a level query needs of each queried code: its ancestors for the kinds that select
/// them, and a depth bound whose computation in `usize` does not overflow.
pub open spec fn level_query_valid(
    q: Seq<char>,
    kind: RbumSetCateLevelQueryKind,
    depth: Option<i16>,
    node_len: usize,
) -> bool {
    &&& (kind == RbumSetCateLevelQueryKind::CurrentAndParent || kind == RbumSetCateLevelQueryKind::Parent)
        ==> parents_computable(q, node_len)
    &&& depth matches Some(d) ==> utf8_of(q).len() + node_len * (d as usize) <= usize::MAX
}

/// Whether the code is one of the ancestors' codes of the queried code.
fn is_parent_code(code: &String, q: &String, node_len: usize) -> (r: bool)
    requires
        parents_computable(q@, node_len),
    ensures
        r == parent_sys_codes(q@, node_len as nat).contains(code@),
{
    let parents = RbumSetCateServ::get_parent_sys_codes(q.as_str(), node_len);
    let found = ids_contain_exec(&parents, code);
    proof {
        let ps = parent_sys_codes(q@, node_len as nat);
        if found {
            let k = choose|k: int| 0 <= k < parents@.len() && (#[trigger] parents@[k])@ == code@;
            assert(ps[k] == code@);
        }
        if ps.contains(code@) {
            let k = choose|k: int| 0 <= k < ps.len() && ps[k] == code@;
            assert((parents@[k])@ == code@);
        }
    }
    found
}

/// Whether one queried code selects the category code.
fn selected_by_exec(
    code: &String,
    q: &String,
    kind: RbumSetCateLevelQueryKind,
    depth: Option<i16>,
    node_len: usize,
) -> (r: bool)
    requires
        level_query_valid(q@, kind, depth, node_len),
    ensures
        r == selected_by(code@, q@, kind, depth, node_len as nat),
{
    let code_chars = chars_of(code.as_str());
    let q_chars = chars_of(q.as_str());
    let q_len = q.as_str().as_bytes().len();
    let in_depth = match depth {
        Some(d) => {
            let du = d as usize;
            let bound = (q_len + node_len * du) as i32;
            bound >= 0 && code_chars.len() <= bound as usize
        },
        None => true,
    };
    match kind {
        RbumSetCateLevelQueryKind::CurrentAndSub => starts_with_chars(&code_chars, &q_chars) && in_depth,
        RbumSetCateLevelQueryKind::Sub => starts_with_chars(&code_chars, &q_chars) && code_chars.len() > q_len && in_depth,
        RbumSetCateLevelQueryKind::CurrentAndParent => *code == *q || is_parent_code(code, q, node_len),
        RbumSetCateLevelQueryKind::Parent => is_parent_code(code, q, node_len),
        RbumSetCateLevelQueryKind::Current => *code == *q,
    }
}

/// Whether a category code passes a level query over system codes: the condition that the
/// queries of categories and of set items put on the system code of a category
///
/// 层级查询是否选中该系统编码
pub fn level_query_selects(
    code: &String,
    sys_codes: &Vec<String>,
    kind: Option<RbumSetCateLevelQueryKind>,
    depth: Option<i16>,
    node_len: usize,
) -> (r: bool)
    requires
        forall|i: int|
            0 <= i < sys_codes@.len() ==> level_query_valid(
                (#[trigger] sys_codes@[i])@,
                match kind {
                    Some(k) => k,
                    None => RbumSetCateLevelQueryKind::Current,
                },
                depth,
                node_len,
            ),
    ensures
        r == level_selects(code@, sys_codes@, kind, depth, node_len as nat),
{
    let k = match kind {
        Some(k) => k,
        None => RbumSetCateLevelQueryKind::Current,
    };
    if sys_codes.len() == 0 {
        return match k {
            RbumSetCateLevelQueryKind::Current => chars_of(code.as_str()).len() == node_len,
            _ => true,
        };
    }
    let mut i: usize = 0;
    while i < sys_codes.len()
        invariant
            i <= sys_codes@.len(),
            sys_codes@.len() > 0,
            k == (match kind {
                Some(k) => k,
                None => RbumSetCateLevelQueryKind::Current,
            }),
            forall|m: int| 0 <= m < sys_codes@.len() ==> level_query_valid((#[trigger] sys_codes@[m])@, k, depth, node_len),
            forall|m: int| 0 <= m < i ==> !selected_by(code@, (#[trigger] sys_codes@[m])@, k, depth, node_len as nat),
        decreases sys_codes@.len() - i,
    {
        if selected_by_exec(code, &sys_codes[i], k, depth, node_len) {
            return true;
        }
        i = i + 1;
    }
    false
}

/// A category as a node of a path, keyed by its system code.
pub open spec fn path_entry(c: RbumSetCateSummaryResp) -> (String, RbumSetPathResp) {
    (c.sys_code, RbumSetPathResp { id: c.id, name: c.name, own_paths: c.own_paths })
}

/// The categories on the path to a category code: it and its ancestors.
pub open spec fn on_path_of(code: Seq<char>, node_len: nat) -> spec_fn(RbumSetCateSummaryResp) -> bool {
    |c: RbumSetCateSummaryResp| selected_by(c.sys_code@, code, RbumSetCateLevelQueryKind::CurrentAndParent, None, node_len)
}

/// The nodes of the path to a category code, in the order of the categories.
pub open spec fn path_entries(code: Seq<char>, cates: Seq<RbumSetCateSummaryResp>, node_len: nat) -> Seq<(String, RbumSetPathResp)> {
    cates.filter(on_path_of(code, node_len)).map_values(|c: RbumSetCateSummaryResp| path_entry(c))
}

/// The nodes of keyed path entries.
pub open spec fn path_nodes(s: Seq<(String, RbumSetPathResp)>) -> Seq<RbumSetPathResp> {
    s.map_values(|e: (String, RbumSetPathResp)| e.1)
}

/// `p` is the path of an item mounted at the category code: empty at the root; else the
/// categories on the path to the code, in the order of their system codes (equal codes in
/// the order of the categories).
pub open spec fn is_set_path(p: Seq<RbumSetPathResp>, code: Seq<char>, cates: Seq<RbumSetCateSummaryResp>, node_len: nat) -> bool {
    if code.len() == 0 {
        p.len() == 0
    } else {
        exists|s: Seq<(String, RbumSetPathResp)>|
            key_sorted(s) && (forall|k: Seq<char>| #[trigger] s.filter(keyed(k)) == path_entries(code, cates, node_len).filter(keyed(k)))
                && p == #[trigger] path_nodes(s)
    }
}

/// The path of an item mounted at one category code.
fn set_path(code: &String, cates: &Vec<RbumSetCateSummaryResp>, node_len: usize) -> (r: Vec<RbumSetPathResp>)
    requires
        code@.len() > 0 ==> parents_computable(code@, node_len),
    ensures
        is_set_path(r@, code@, cates@, node_len as nat),
{
    if chars_of(code.as_str()).len() == 0 {
        return Vec::new();
    }
    let ghost pred = on_path_of(code@, node_len as nat);
    let ghost f = |c: RbumSetCateSummaryResp| path_entry(c);
    let mut entries: Vec<(String, RbumSetPathResp)> = Vec::new();
    let mut j: usize = 0;
    while j < cates.len()
        invariant
            j <= cates@.len(),
            code@.len() > 0,
            parents_computable(code@, node_len),
            pred == on_path_of(code@, node_len as nat),
            f == (|c: RbumSetCateSummaryResp| path_entry(c)),
            entries@ == cates@.take(j as int).filter(pred).map_values(f),
        decreases cates@.len() - j,
    {
        let c = &cates[j];
        let keep = selected_by_exec(&c.sys_code, code, RbumSetCateLevelQueryKind::CurrentAndParent, None, node_len);
        let ghost before = entries@;
        proof {
            reveal(Seq::filter);
            let t = cates@.take(j + 1);
            assert(t.drop_last() =~= cates@.take(j as int));
            assert(t.last() == *c);
            assert(t.filter(pred) == if pred(t.last()) {
                t.drop_last().filter(pred).push(t.last())
            } else {
                t.drop_last().filter(pred)
            });
        }
        if keep {
            entries.push((c.sys_code.clone(), RbumSetPathResp { id: c.id.clone(), name: c.name.clone(), own_paths: c.own_paths.clone() }));
            proof {
                let u = cates@.take(j as int).filter(pred);
                assert(u.push(*c).map_values(f) =~= u.map_values(f).push(f(*c)));
            }
        }
        j = j + 1;
    }
    proof {
        assert(cates@.take(j as int) =~= cates@);
    }
    let sorted = sort_by_text_key(entries);
    let mut out: Vec<RbumSetPathResp> = Vec::new();
    let mut k: usize = 0;
    while k < sorted.len()
        invariant
            k <= sorted@.len(),
            out@ == path_nodes(sorted@.take(k as int)),
        decreases sorted@.len() - k,
    {
        let node = &sorted[k].1;
        out.push(RbumSetPathResp { id: node.id.clone(), name: node.name.clone(), own_paths: node.own_paths.clone() });
        proof {
            assert(sorted@.take(k + 1) =~= sorted@.take(k as int).push(sorted@[k as int]));
            assert(path_nodes(sorted@.take(k as int).push(sorted@[k as int]))
                =~= path_nodes(sorted@.take(k as int)).push(sorted@[k as int].1));
        }
        k = k + 1;
    }
    proof {
        assert(sorted@.take(k as int) =~= sorted@);
    }
    out
}

impl RbumSetItemServ {
    /// Fetch all the paths of the resource item in the resource set, given the category codes
    /// at which it is mounted (empty at the root) and the categories of the set: one path per
    /// code, each the nodes from the root down to the code
    ///
    /// 获取资源项在某一资源集上的所有路径
    pub fn find_set_paths(
        cate_sys_codes: &Vec<String>,
        cates: &Vec<RbumSetCateSummaryResp>,
        node_len: usize,
    ) -> (r: Vec<Vec<RbumSetPathResp>>)
        requires
            forall|i: int|
                0 <= i < cate_sys_codes@.len() && (#[trigger] cate_sys_codes@[i])@.len() > 0 ==> parents_computable(
                    cate_sys_codes@[i]@,
                    node_len,
                ),
        ensures
            r@.len() == cate_sys_codes@.len(),
            forall|i: int| 0 <= i < r@.len() ==> is_set_path((#[trigger] r@[i])@, cate_sys_codes@[i]@, cates@, node_len as nat),
    {
        let mut out: Vec<Vec<RbumSetPathResp>> = Vec::new();
        let mut i: usize = 0;
        while i < cate_sys_codes.len()
            invariant
                i <= cate_sys_codes@.len(),
                out@.len() == i,
                forall|m: int|
                    0 <= m < cate_sys_codes@.len() && (#[trigger] cate_sys_codes@[m])@.len() > 0 ==> parents_computable(
                        cate_sys_codes@[m]@,
                        node_len,
                    ),
                forall|m: int| 0 <= m < i ==> is_set_path((#[trigger] out@[m])@, cate_sys_codes@[m]@, cates@, node_len as nat),
            decreases cate_sys_codes@.len() - i,
        {
            let p = set_path(&cate_sys_codes[i], cates, node_len);
            out.push(p);
            i = i + 1;
        }
        out
    }
}

/// The query kind, the current level when none is given.
pub open spec fn kind_or_current(kind: Option<RbumSetCateLevelQueryKind>) -> RbumSetCateLevelQueryKind {
    match kind {
        Some(k) => k,
        None => RbumSetCateLevelQueryKind::Current,
    }
}

/// A category passes the conditions of a category query: the set (when given), the
/// extension among the given ones (when given), and the level condition (none without
/// queried codes, else as the level query selects its code).
pub open spec fn cate_level_passes(filter: RbumSetCateFilterReq, node_len: nat) -> spec_fn(RbumSetCateSummaryResp) -> bool {
    |c: RbumSetCateSummaryResp|
        (filter.rel_rbum_set_id matches Some(sid) ==> c.rel_rbum_set_id@ == sid@) && (filter.cate_exts matches Some(
            exts,
        ) ==> ids_contain(exts@, c.ext@)) && match filter.sys_codes {
            Some(qs) => level_selects(c.sys_code@, qs@, filter.sys_code_query_kind, filter.sys_code_query_depth, node_len),
            None => true,
        }
}

/// The level queries of a filter can be evaluated, and the filter asks for no join with
/// relationships (which would need the stored relationships).
pub open spec fn cate_filter_valid(filter: RbumSetCateFilterReq, node_len: usize) -> bool {
    &&& filter.rel is None
    &&& filter.sys_codes matches Some(qs) ==> forall|i: int|
        0 <= i < qs@.len() ==> level_query_valid(
            (#[trigger] qs@[i])@,
            kind_or_current(filter.sys_code_query_kind),
            filter.sys_code_query_depth,
            node_len,
        )
}

impl RbumSetCateServ {
    /// The categories (under the basic filter) that a category query selects by its set, its
    /// extensions and its level condition over system codes, in the order of `sort` (equal
    /// ones by `sys_code`, then in their given order)
    ///
    /// 按层级条件选出分类，并按 sort 排序
    pub fn package_query(cates: Vec<RbumSetCateSummaryResp>, filter: &RbumSetCateFilterReq, node_len: usize) -> (r: Vec<
        RbumSetCateSummaryResp,
    >)
        requires
            cate_filter_valid(*filter, node_len),
        ensures
            r@ == sorted_cates(cates@.filter(cate_level_passes(*filter, node_len as nat))),
            cates_sorted(r@),
            r@.to_multiset() == cates@.filter(cate_level_passes(*filter, node_len as nat)).to_multiset(),
            forall|i: int, j: int| 0 <= i < j < r@.len() ==> (#[trigger] r@[i]).sort <= (#[trigger] r@[j]).sort,
    {
        let ghost all = cates@;
        let ghost pred = cate_level_passes(*filter, node_len as nat);
        let n = cates.len();
        let mut rest = cates;
        let mut out: Vec<RbumSetCateSummaryResp> = Vec::new();
        let mut k: usize = 0;
        while k < n
            invariant
                k <= n,
                n == all.len(),
                rest@ == all.skip(k as int),
                cate_filter_valid(*filter, node_len),
                pred == cate_level_passes(*filter, node_len as nat),
                out@ == all.take(k as int).filter(pred),
            decreases n - k,
        {
            let c = rest.remove(0);
            let in_set = match &filter.rel_rbum_set_id {
                Some(sid) => c.rel_rbum_set_id == *sid,
                None => true,
            };
            let ext_listed = match &filter.cate_exts {
                Some(exts) => ids_contain_exec(exts, &c.ext),
                None => true,
            };
            let at_level = match &filter.sys_codes {
                Some(qs) => level_query_selects(&c.sys_code, qs, filter.sys_code_query_kind, filter.sys_code_query_depth, node_len),
                None => true,
            };
            let keep = in_set && ext_listed && at_level;
            proof {
                reveal(Seq::filter);
                assert(all.take(k + 1).drop_last() =~= all.take(k as int));
                assert(all.take(k + 1).last() == c);
                assert(keep == pred(c));
                let t = all.take(k + 1);
                assert(t.filter(pred) == if pred(t.last()) {
                    t.drop_last().filter(pred).push(t.last())
                } else {
                    t.drop_last().filter(pred)
                });
            }
            if keep {
                out.push(c);
            }
            k = k + 1;
            proof {
                assert(rest@ =~= all.skip(k as int));
            }
        }
        proof {
            assert(all.take(n as int) =~= all);
        }
        let r = sort_set_cates(out);
        proof {
            assert forall|i: int, j: int| 0 <= i < j < r@.len() implies (#[trigger] r@[i]).sort <= (#[trigger] r@[j]).sort by {
                assert(cate_le(r@[i], r@[j]));
            }
        }
        r
    }
}

/// A set item row as the query of set items reads it: the item, the category joined by its
/// code (none when no category of the set has it), and the resource item joined by its id.
#[derive(Debug, Clone)]
pub struct SetItemRow {
    pub rel_rbum_set_id: String,
    /// The code of the category at which the item is mounted
    pub rel_rbum_set_cate_code: String,
    /// The id of the category joined by that code
    pub rel_rbum_set_cate_id: Option<String>,
    pub rel_rbum_item_id: String,
    pub rel_rbum_item_scope_level: RbumScopeLevelKind,
    pub rel_rbum_item_disabled: bool,
    pub rel_rbum_item_domain_id: String,
    pub rel_rbum_item_kind_id: String,
}

/// The query of set items: the join of categories (left, so that items without a category
/// stay, or inner), and the conditions on the set, the categories, the resource items and
/// the system codes.
#[derive(Debug, Clone)]
pub struct RbumSetItemQuery {
    pub cate_join_left: bool,
    pub rel_rbum_set_id: Option<String>,
    pub rel_rbum_set_cate_ids: Option<Vec<String>>,
    pub rel_rbum_item_ids: Option<Vec<String>>,
    pub rel_rbum_item_scope_level: Option<RbumScopeLevelKind>,
    pub rel_rbum_item_disabled: Option<bool>,
    pub rel_rbum_item_domain_ids: Option<Vec<String>>,
    pub rel_rbum_item_kind_ids: Option<Vec<String>>,
    pub sys_codes: Option<Vec<String>>,
    pub sys_code_query_kind: RbumSetCateLevelQueryKind,
    pub sys_code_query_depth: Option<i16>,
    pub node_len: usize,
    pub rel_rbum_set_item_cate_code: Option<String>,
    pub own_paths: String,
}

/// The text is in the list when a list is given.
pub open spec fn in_list(list: Option<Vec<String>>, t: Seq<char>) -> bool {
    list matches Some(l) ==> ids_contain(l@, t)
}

/// A row passes the query of set items.
pub open spec fn set_item_passes(q: RbumSetItemQuery, row: SetItemRow) -> bool {
    &&& (q.cate_join_left || row.rel_rbum_set_cate_id is Some)
    &&& q.rel_rbum_set_id matches Some(s) ==> s@ == row.rel_rbum_set_id@
    &&& q.rel_rbum_set_cate_ids matches Some(l) ==> (row.rel_rbum_set_cate_id matches Some(c) && ids_contain(l@, c@))
    &&& in_list(q.rel_rbum_item_ids, row.rel_rbum_item_id@)
    &&& q.rel_rbum_item_scope_level matches Some(l) ==> l == row.rel_rbum_item_scope_level
    &&& q.rel_rbum_item_disabled matches Some(d) ==> d == row.rel_rbum_item_disabled
    &&& in_list(q.rel_rbum_item_domain_ids, row.rel_rbum_item_domain_id@)
    &&& in_list(q.rel_rbum_item_kind_ids, row.rel_rbum_item_kind_id@)
    &&& q.sys_codes matches Some(qs) ==> level_selects(
        row.rel_rbum_set_cate_code@,
        qs@,
        Some(q.sys_code_query_kind),
        q.sys_code_query_depth,
        q.node_len as nat,
    )
    &&& q.rel_rbum_set_item_cate_code matches Some(c) ==> c@ == row.rel_rbum_set_cate_code@
}

/// The level queries of a query of set items can be evaluated.
pub open spec fn set_item_query_valid(q: RbumSetItemQuery) -> bool {
    q.sys_codes matches Some(qs) ==> forall|i: int|
        0 <= i < qs@.len() ==> level_query_valid((#[trigger] qs@[i])@, q.sys_code_query_kind, q.sys_code_query_depth, q.node_len)
}

/// Two optional lists of texts are both absent, or both given with the same texts.
pub open spec fn same_texts(a: Option<Vec<String>>, b: Option<Vec<String>>) -> bool {
    match (a, b) {
        (Some(x), Some(y)) => x@ == y@,
        (None, None) => true,
        _ => false,
    }
}

/// A copy of an optional list of texts.
fn clone_texts(v: &Option<Vec<String>>) -> (r: Option<Vec<String>>)
    ensures
        same_texts(r, *v),
{
    match v {
        Some(l) => {
            let c = l.clone();
            assert(c@ =~= l@);
            Some(c)
        },
        None => None,
    }
}

/// Whether the text is in the list when a list is given.
fn in_list_exec(list: &Option<Vec<String>>, t: &String) -> (r: bool)
    ensures
        r == in_list(*list, t@),
{
    match list {
        Some(l) => ids_contain_exec(l, t),
        None => true,
    }
}

impl RbumSetItemServ {
    /// The query of set items of a filter: the categories are joined left unless the filter
    /// says that the resource item must exist (``rel_rbum_item_can_not_exist`` defaults to
    /// true); the level query over the category codes defaults to the current level
    ///
    /// 资源集项的查询条件
    pub fn package_query(filter: &RbumSetItemFilterReq, node_len: usize, own_paths: &str) -> (q: RbumSetItemQuery)
        ensures
            q.cate_join_left == (filter.rel_rbum_item_can_not_exist != Some(false)),
            q.rel_rbum_set_id == filter.rel_rbum_set_id,
            same_texts(q.rel_rbum_set_cate_ids, filter.rel_rbum_set_cate_ids),
            same_texts(q.rel_rbum_item_ids, filter.rel_rbum_item_ids),
            q.rel_rbum_item_scope_level == filter.rel_rbum_item_scope_level,
            q.rel_rbum_item_disabled == filter.rel_rbum_item_disabled,
            same_texts(q.rel_rbum_item_domain_ids, filter.rel_rbum_item_domain_ids),
            same_texts(q.rel_rbum_item_kind_ids, filter.rel_rbum_item_kind_ids),
            same_texts(q.sys_codes, filter.rel_rbum_set_cate_sys_codes),
            q.sys_code_query_kind == kind_or_current(filter.sys_code_query_kind),
            q.sys_code_query_depth == filter.sys_code_query_depth,
            q.node_len == node_len,
            q.rel_rbum_set_item_cate_code == filter.rel_rbum_set_item_cate_code,
            q.own_paths@ == own_paths@,
    {
        RbumSetItemQuery {
            cate_join_left: match filter.rel_rbum_item_can_not_exist {
                Some(false) => false,
                _ => true,
            },
            rel_rbum_set_id: filter.rel_rbum_set_id.clone(),
            rel_rbum_set_cate_ids: clone_texts(&filter.rel_rbum_set_cate_ids),
            rel_rbum_item_ids: clone_texts(&filter.rel_rbum_item_ids),
            rel_rbum_item_scope_level: filter.rel_rbum_item_scope_level,
            rel_rbum_item_disabled: filter.rel_rbum_item_disabled,
            rel_rbum_item_domain_ids: clone_texts(&filter.rel_rbum_item_domain_ids),
            rel_rbum_item_kind_ids: clone_texts(&filter.rel_rbum_item_kind_ids),
            sys_codes: clone_texts(&filter.rel_rbum_set_cate_sys_codes),
            sys_code_query_kind: match filter.sys_code_query_kind {
                Some(k) => k,
                None => RbumSetCateLevelQueryKind::Current,
            },
            sys_code_query_depth: filter.sys_code_query_depth,
            node_len,
            rel_rbum_set_item_cate_code: filter.rel_rbum_set_item_cate_code.clone(),
            own_paths: crate::text::string_of(&chars_of(own_paths)),
        }
    }

    /// Whether a set item row passes the query of set items
    ///
    /// 资源集项是否满足查询条件
    pub fn set_item_passes(q: &RbumSetItemQuery, row: &SetItemRow) -> (r: bool)
        requires
            set_item_query_valid(*q),
        ensures
            r == set_item_passes(*q, *row),
    {
        if !q.cate_join_left && row.rel_rbum_set_cate_id.is_none() {
            return false;
        }
        if let Some(s) = &q.rel_rbum_set_id {
            if *s != row.rel_rbum_set_id {
                return false;
            }
        }
        if let Some(l) = &q.rel_rbum_set_cate_ids {
            match &row.rel_rbum_set_cate_id {
                Some(c) => {
                    if !ids_contain_exec(l, c) {
                        return false;
                    }
                },
                None => {
                    return false;
                },
            }
        }
        if !in_list_exec(&q.rel_rbum_item_ids, &row.rel_rbum_item_id) {
            return false;
        }
        if let Some(l) = q.rel_rbum_item_scope_level {
            if l != row.rel_rbum_item_scope_level {
                return false;
            }
        }
        if let Some(d) = q.rel_rbum_item_disabled {
            if d != row.rel_rbum_item_disabled {
                return false;
            }
        }
        if !in_list_exec(&q.rel_rbum_item_domain_ids, &row.rel_rbum_item_domain_id) {
            return false;
        }
        if !in_list_exec(&q.rel_rbum_item_kind_ids, &row.rel_rbum_item_kind_id) {
            return false;
        }
        if let Some(qs) = &q.sys_codes {
            if !level_query_selects(&row.rel_rbum_set_cate_code, qs, Some(q.sys_code_query_kind), q.sys_code_query_depth, q.node_len) {
                return false;
            }
        }
        if let Some(c) = &q.rel_rbum_set_item_cate_code {
            if *c != row.rel_rbum_set_cate_code {
                return false;
            }
        }
        true
    }
}

} // verus!
