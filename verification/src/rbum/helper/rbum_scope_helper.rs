//! Scope helper
//!
//! Scope matching rule, assuming item length is 4 :
//!
//! | own_paths        | scope_level | visit level 0  | visit level 1  | visit level 2  | visit level 3   |
//! | ---------------  | ----------- | -------------  | -------------  | -------------  | --------------   |
//! | ''               | -1          | ''             |                |                |                 |
//! | ''               | 0           | %              | %              | %              | %               |
//! | ''               | 1           | ''             | %              | %              | %               |
//! | 'AAAA'           | -1          |                | AAAA           |                |                 |
//! | 'AAAA'           | 0           | %              | %              | %              | %               |
//! | 'AAAA'           | 1           |                | AAAA%          | AAAA%          | AAAA%           |
//! | 'AAAA/BBBB'      | 2           |                |                | AAAA/BBBB%     | AAAA/BBBB%      |
//! | 'AAAA/BBBB/CCCC' | 3           |                |                |                | AAAA/BBBB/CCCC% |
//!
//! Own paths are texts such as ``a/b/c``: the path of a tenant, an app and so on,
//! one segment per level.
use crate::error::BasicError;
use crate::rbum::dto::rbum_filer_dto::RbumBasicFilterReq;
use crate::rbum::rbum_enumeration::{scope_level_of_int, RbumScopeLevelKind};
use crate::text::{
    chars_of, eq_chars, lemma_split_on_nonempty, split_chars, split_on, starts_with_chars, string_of,
    strip_suffix_char, strip_suffix_chars, sub_chars_all, join_chars, join_with, trim, trim_chars,
};
use vstd::prelude::*;

verus! {

/// The request context as the scope rules read it: own paths, access key, owner,
/// roles and groups.
#[derive(Debug, Clone)]
pub struct BasicContext {
    pub own_paths: String,
    pub ak: String,
    pub owner: String,
    pub roles: Vec<String>,
    pub groups: Vec<String>,
}

/// Own paths without surrounding white space and without one trailing ``/``.
pub open spec fn normalized_paths(own_paths: Seq<char>) -> Seq<char> {
    strip_suffix_char(trim(own_paths), '/')
}

/// The segments of normalized own paths; the empty path has none.
pub open spec fn path_segments(p: Seq<char>) -> Seq<Seq<char>> {
    if p.len() == 0 {
        Seq::<Seq<char>>::empty()
    } else {
        split_on(p, '/')
    }
}

/// The prefix of the own paths that covers the first ``scope_level`` levels.
pub open spec fn pre_paths_of(scope_level: int, own_paths: Seq<char>) -> Option<Seq<char>> {
    let segs = path_segments(normalized_paths(own_paths));
    if scope_level == 0 {
        Some(Seq::<char>::empty())
    } else if scope_level < 0 || segs.len() < scope_level {
        None
    } else {
        Some(join_with(segs.take(scope_level), "/"@))
    }
}

/// The segment of the own paths at level ``scope_level`` (levels count from 1).
pub open spec fn path_item_of(scope_level: int, own_paths: Seq<char>) -> Option<Seq<char>> {
    let p = normalized_paths(own_paths);
    if scope_level == 0 || p.len() == 0 {
        None
    } else {
        let segs = split_on(p, '/');
        if scope_level < 0 || segs.len() < scope_level {
            None
        } else {
            Some(segs[scope_level - 1])
        }
    }
}

/// The pieces of `v` as character vectors.
pub open spec fn views_of(v: Seq<Vec<char>>) -> Seq<Seq<char>> {
    v.map_values(|p: Vec<char>| p@)
}

/// The first `n` pieces of `items`.
fn take_pieces(items: &Vec<Vec<char>>, n: usize) -> (r: Vec<Vec<char>>)
    requires
        n <= items@.len(),
    ensures
        views_of(r@) == views_of(items@).take(n as int),
{
    let mut r: Vec<Vec<char>> = Vec::new();
    let mut i: usize = 0;
    while i < n
        invariant
            i <= n <= items@.len(),
            r@.len() == i,
            views_of(r@) == views_of(items@).take(i as int),
        decreases n - i,
    {
        let piece = sub_chars_all(&items[i]);
        let ghost old_r = r@;
        r.push(piece);
        assert forall|k: int| 0 <= k < i + 1 implies #[trigger] views_of(r@)[k] == views_of(
            items@,
        ).take(i + 1)[k] by {
            assert(r@.len() == old_r.len() + 1);
            assert(old_r.len() == i);
            if k < i {
                assert(r@[k] == old_r[k]);
                assert(views_of(old_r)[k] == old_r[k]@);
            } else {
                assert(r@[k] == piece);
            }
        }
        assert(views_of(r@) =~= views_of(items@).take(i + 1));
        i = i + 1;
    }
    r
}

/// The segments of normalized own paths, as character vectors.
fn segments_of(p: &Vec<char>) -> (r: Vec<Vec<char>>)
    ensures
        views_of(r@) == path_segments(p@),
{
    if p.len() == 0 {
        let r: Vec<Vec<char>> = Vec::new();
        assert(views_of(r@) =~= path_segments(p@));
        r
    } else {
        let r = split_chars(p, '/');
        assert(views_of(r@) =~= path_segments(p@));
        r
    }
}

/// Own paths normalized: trimmed and without one trailing ``/``.
fn normalize(own_paths: &str) -> (r: Vec<char>)
    ensures
        r@ == normalized_paths(own_paths@),
{
    let v = chars_of(own_paths);
    let t = trim_chars(&v);
    strip_suffix_chars(&t, '/')
}

/// Get the previous path at the specified level from the own paths.
///
/// ``get_pre_paths(0, "a/b/c") == Some("")``, ``get_pre_paths(2, "a/b/c") == Some("a/b")``,
/// ``get_pre_paths(4, "a/b/c") == None``.
pub fn get_pre_paths(scope_level: i16, own_paths: &str) -> (r: Option<String>)
    ensures
        r matches Some(s) ==> pre_paths_of(scope_level as int, own_paths@) == Some(s@),
        r is None ==> pre_paths_of(scope_level as int, own_paths@) is None,
{
    let p = normalize(own_paths);
    if scope_level == 0 {
        return Some(String::new());
    }
    let segs = segments_of(&p);
    if scope_level < 0 || segs.len() < scope_level as usize {
        return None;
    }
    let front = take_pieces(&segs, scope_level as usize);
    let sep: Vec<char> = vec!['/'];
    proof {
        assert(sep@ =~= "/"@) by {
            reveal_strlit("/");
        }
    }
    let joined = join_chars(&front, &sep);
    assert(front@.map_values(|p: Vec<char>| p@) == views_of(front@));
    Some(string_of(&joined))
}

/// Get the path entries at the specified level from the own paths.
///
/// ``get_path_item(0, "a/b/c") == None``, ``get_path_item(2, "a/b/c") == Some("b")``,
/// ``get_path_item(4, "a/b/c") == None``.
pub fn get_path_item(scope_level: i16, own_paths: &str) -> (r: Option<String>)
    ensures
        r matches Some(s) ==> path_item_of(scope_level as int, own_paths@) == Some(s@),
        r is None ==> path_item_of(scope_level as int, own_paths@) is None,
{
    let p = normalize(own_paths);
    if scope_level == 0 || p.len() == 0 {
        return None;
    }
    let segs = split_chars(&p, '/');
    if scope_level < 0 || segs.len() < scope_level as usize {
        return None;
    }
    let k = (scope_level - 1) as usize;
    Some(string_of(&segs[k]))
}

/// The scope level that own paths stand at: the root for the empty path, else the
/// number of segments (as an ``i16``) decoded as a scope level.
pub open spec fn scope_level_by_paths(own_paths: Seq<char>) -> Option<RbumScopeLevelKind> {
    let p = normalized_paths(own_paths);
    if p.len() == 0 {
        Some(RbumScopeLevelKind::Root)
    } else {
        scope_level_of_int(split_on(p, '/').len() as i16)
    }
}

/// Get the scope level from the own paths in context.
pub fn get_scope_level_by_context(ctx: &BasicContext) -> (r: Result<RbumScopeLevelKind, BasicError>)
    ensures
        scope_level_by_paths(ctx.own_paths@) matches Some(k) ==> r == Ok::<
            RbumScopeLevelKind,
            BasicError,
        >(k),
        scope_level_by_paths(ctx.own_paths@) is None ==> r == Err::<
            RbumScopeLevelKind,
            BasicError,
        >(BasicError::InvalidEnumValue),
{
    let p = normalize(ctx.own_paths.as_str());
    if p.len() == 0 {
        return Ok(RbumScopeLevelKind::Root);
    }
    let segs = split_chars(&p, '/');
    let n = segs.len();
    let level: i16 = truncate_to_i16(n);
    RbumScopeLevelKind::from_int(level)
}

/// `n` as an ``i16``, wrapping as ``as i16`` does.
fn truncate_to_i16(n: usize) -> (r: i16)
    ensures
        r == n as i16,
{
    n as i16
}

/// The id of the deepest level of the own paths.
pub open spec fn max_level_id_of(own_paths: Seq<char>) -> Option<Seq<char>> {
    let t = trim(own_paths);
    if t.len() == 0 {
        None
    } else {
        Some(split_on(strip_suffix_char(t, '/'), '/').last())
    }
}

/// Get the max level id from the own paths in the context.
///
/// ``""`` gives ``None``, ``"a/b/c"`` and ``"a/b/c/"`` give ``Some("c")``.
pub fn get_max_level_id_by_context(ctx: &BasicContext) -> (r: Option<String>)
    ensures
        r matches Some(s) ==> max_level_id_of(ctx.own_paths@) == Some(s@),
        r is None ==> max_level_id_of(ctx.own_paths@) is None,
{
    let v = chars_of(ctx.own_paths.as_str());
    let t = trim_chars(&v);
    if t.len() == 0 {
        return None;
    }
    let p = strip_suffix_chars(&t, '/');
    let segs = split_chars(&p, '/');
    proof {
        lemma_split_on_nonempty(p@, '/');
    }
    let last = segs.len() - 1;
    Some(string_of(&segs[last]))
}

/// Downgrade of own paths.
///
/// The new own paths must be a subpath of the own paths in the context.
pub fn degrade_own_paths(ctx: BasicContext, new_own_paths: &str) -> (r: Result<BasicContext, BasicError>)
    ensures
        ctx.own_paths@.is_prefix_of(new_own_paths@) ==> (r matches Ok(c) && c.own_paths@
            == new_own_paths@ && c.ak == ctx.ak && c.owner == ctx.owner && c.roles == ctx.roles
            && c.groups == ctx.groups),
        !ctx.own_paths@.is_prefix_of(new_own_paths@) ==> r == Err::<BasicContext, BasicError>(
            BasicError::DowngradeNotQualified,
        ),
{
    let cur = chars_of(ctx.own_paths.as_str());
    let new = chars_of(new_own_paths);
    if !starts_with_chars(&new, &cur) {
        return Err(BasicError::DowngradeNotQualified);
    }
    let mut ctx = ctx;
    ctx.own_paths = string_of(&new);
    Ok(ctx)
}

/// The UTF-8 bytes of a text.
pub open spec fn bytes_of(s: Seq<char>) -> Seq<u8> {
    vstd::utf8::encode_utf8(s)
}

/// The own paths that a check compares with: the filter's, else the context's.
pub open spec fn standard_paths_of(filter: RbumBasicFilterReq, ctx_own_paths: Seq<char>) -> Seq<
    char,
> {
    match filter.own_paths {
        Some(p) => p@,
        None => ctx_own_paths,
    }
}

/// The scope comparison slices the record's own paths at the byte length of the
/// standard prefix; this is where that slice would cut a character in two.
pub open spec fn check_scope_panics(
    record_own_paths: Seq<char>,
    record_scope_level: Option<i16>,
    filter: RbumBasicFilterReq,
    ctx_own_paths: Seq<char>,
) -> bool {
    let std = standard_paths_of(filter, ctx_own_paths);
    &&& !(record_own_paths == std || filter.with_sub_own_paths && bytes_of(std).is_prefix_of(
        bytes_of(record_own_paths),
    ))
    &&& !filter.ignore_scope
    &&& record_scope_level matches Some(l)
    &&& pre_paths_of(l as int, std) matches Some(sub)
    &&& bytes_of(record_own_paths).len() > bytes_of(sub).len()
    &&& !vstd::utf8::is_char_boundary(bytes_of(record_own_paths), bytes_of(sub).len() as int)
}

/// Whether a record with the given own paths and scope level is visible under the filter.
pub open spec fn scope_visible(
    record_own_paths: Seq<char>,
    record_scope_level: Option<i16>,
    filter: RbumBasicFilterReq,
    ctx_own_paths: Seq<char>,
) -> bool {
    let std = standard_paths_of(filter, ctx_own_paths);
    if record_own_paths == std || filter.with_sub_own_paths && bytes_of(std).is_prefix_of(
        bytes_of(record_own_paths),
    ) {
        true
    } else if filter.ignore_scope {
        false
    } else {
        match record_scope_level {
            Some(l) => match pre_paths_of(l as int, std) {
                Some(sub) => {
                    let rb = bytes_of(record_own_paths);
                    let sb = bytes_of(sub);
                    if rb.len() <= sb.len() {
                        rb.is_prefix_of(sb)
                    } else {
                        rb.take(sb.len() as int) == sb
                    }
                },
                None => false,
            },
            None => false,
        }
    }
}

/// `b` is a prefix of `a`.
fn bytes_start_with(a: &[u8], b: &[u8]) -> (r: bool)
    ensures
        r == b@.is_prefix_of(a@),
{
    if b.len() > a.len() {
        return false;
    }
    let mut i: usize = 0;
    while i < b.len()
        invariant
            i <= b@.len() <= a@.len(),
            forall|k: int| 0 <= k < i ==> b@[k] == a@[k],
        decreases b@.len() - i,
    {
        if a[i] != b[i] {
            return false;
        }
        i = i + 1;
    }
    true
}

/// Check scope Legality.
///
/// Legality Rules:
/// 1. Determine the ``standard_own_paths`` : When ``filter.own_paths`` is empty, use ``ctx_own_paths`` as the standard own paths, otherwise use ``filter.own_paths`` as the standard own paths.
/// 1. If ``record_own_paths`` is equal to the ``standard_own_paths`` or if ``filter.with_sub_own_paths`` is true and ``record_own_paths`` is a sub-path of the ``standard_own_paths``, then return true.
/// 1. If ``filter.ignore_scope`` is true, it means only ``own_paths`` comparison is required, so directly return false.
/// 1. If ``record_scope_level`` exists, then get the prefix path of the ``standard_own_paths`` based on the value of ``record_scope_level``, and this prefix path must be the same as or a sub-path of ``record_own_paths``.
pub fn check_scope(
    record_own_paths: &str,
    record_scope_level: Option<i16>,
    filter: &RbumBasicFilterReq,
    ctx_own_paths: &str,
) -> (r: bool)
    requires
        !check_scope_panics(record_own_paths@, record_scope_level, *filter, ctx_own_paths@),
    ensures
        r == scope_visible(record_own_paths@, record_scope_level, *filter, ctx_own_paths@),
{
    let standard_own_paths: &str = match &filter.own_paths {
        Some(p) => p.as_str(),
        None => ctx_own_paths,
    };
    let rec_chars = chars_of(record_own_paths);
    let std_chars = chars_of(standard_own_paths);
    let rec_bytes = record_own_paths.as_bytes();
    let std_bytes = standard_own_paths.as_bytes();
    if eq_chars(&rec_chars, &std_chars) || filter.with_sub_own_paths && bytes_start_with(
        rec_bytes,
        std_bytes,
    ) {
        return true;
    }
    if filter.ignore_scope {
        return false;
    }
    if let Some(level) = record_scope_level {
        if let Some(sub) = get_pre_paths(level, standard_own_paths) {
            let sub_bytes = sub.as_str().as_bytes();
            if rec_bytes.len() <= sub_bytes.len() {
                return bytes_start_with(sub_bytes, rec_bytes);
            } else {
                let r = bytes_start_with(rec_bytes, sub_bytes);
                proof {
                    let rb = bytes_of(record_own_paths@);
                    let sb = bytes_of(sub@);
                    assert(sb.is_prefix_of(rb) == (rb.take(sb.len() as int) =~= sb));
                }
                return r;
            }
        }
    }
    false
}

/// Which fields of the context the context of the request fills.
#[derive(Debug, Clone, Copy, PartialEq, Eq, Structural)]
pub enum CtxFillKind {
    /// Owner, roles (extended), groups and own paths.
    All,
    /// The owner only.
    OwnerOnly,
    /// The own paths only.
    OwnPathsOnly,
    /// The roles (extended) only.
    RolesOnly,
    /// The groups only.
    GroupsOnly,
}

/// The texts of a list of texts.
pub open spec fn texts_of(v: Seq<String>) -> Seq<Seq<char>> {
    v.map_values(|s: String| s@)
}

/// The roles, then, for each role that holds a `:`, the part before its first `:`.
pub open spec fn extended_roles(roles: Seq<Seq<char>>) -> Seq<Seq<char>> {
    roles + roles.filter(|r: Seq<char>| r.contains(':')).map_values(|r: Seq<char>| split_on(r, ':')[0])
}

/// A context without owner, access key, own paths, roles and groups.
pub open spec fn ctx_is_empty(ctx: BasicContext) -> bool {
    ctx.owner@.len() == 0 && ctx.ak@.len() == 0 && ctx.own_paths@.len() == 0 && ctx.roles@.len() == 0
        && ctx.groups@.len() == 0
}

/// `new` is `old` with the given fields taken from the context of the request `req`.
pub open spec fn filled(old: BasicContext, new: BasicContext, req: BasicContext, kind: CtxFillKind) -> bool {
    match kind {
        CtxFillKind::All => new.owner == req.owner && texts_of(new.roles@) == extended_roles(texts_of(req.roles@))
            && new.groups == req.groups && new.own_paths == req.own_paths && new.ak == old.ak,
        CtxFillKind::OwnerOnly => new == BasicContext { owner: req.owner, ..old },
        CtxFillKind::OwnPathsOnly => new == BasicContext { own_paths: req.own_paths, ..old },
        CtxFillKind::RolesOnly => texts_of(new.roles@) == extended_roles(texts_of(req.roles@))
            && new == BasicContext { roles: new.roles, ..old },
        CtxFillKind::GroupsOnly => new == BasicContext { groups: req.groups, ..old },
    }
}

/// The roles extended with the part before the first `:` of each role that holds one.
pub fn extend_roles(roles: &Vec<String>) -> (r: Vec<String>)
    ensures
        texts_of(r@) == extended_roles(texts_of(roles@)),
{
    let ghost views = texts_of(roles@);
    let ghost has_colon = |r: Seq<char>| r.contains(':');
    let ghost head = |r: Seq<char>| split_on(r, ':')[0];
    let mut out: Vec<String> = Vec::new();
    let mut i: usize = 0;
    while i < roles.len()
        invariant
            i <= roles@.len(),
            views == texts_of(roles@),
            texts_of(out@) == views.take(i as int),
        decreases roles@.len() - i,
    {
        let ghost before = out@;
        let role = roles[i].clone();
        out.push(role);
        proof {
            assert(out@ == before.push(roles@[i as int]));
            assert(texts_of(out@) =~= texts_of(before).push(roles@[i as int]@));
            assert(views.take(i + 1) =~= views.take(i as int).push(roles@[i as int]@));
        }
        i = i + 1;
    }
    proof {
        assert(views.take(i as int) =~= views);
    }
    let ghost base = out@;
    let mut j: usize = 0;
    while j < roles.len()
        invariant
            j <= roles@.len(),
            views == texts_of(roles@),
            has_colon == (|r: Seq<char>| r.contains(':')),
            head == (|r: Seq<char>| split_on(r, ':')[0]),
            texts_of(out@) == views + views.take(j as int).filter(has_colon).map_values(head),
        decreases roles@.len() - j,
    {
        let role = chars_of(roles[j].as_str());
        let mut k: usize = 0;
        let mut found = false;
        while k < role.len() && !found
            invariant
                k <= role@.len(),
                found ==> role@.contains(':'),
                !found ==> forall|m: int| 0 <= m < k ==> role@[m] != ':',
            decreases role@.len() - k + if found {
                0int
            } else {
                1int
            },
        {
            if role[k] == ':' {
                found = true;
            } else {
                k = k + 1;
            }
        }
        let ghost before = out@;
        proof {
            reveal(Seq::filter);
            assert(views.take(j + 1).drop_last() =~= views.take(j as int));
            assert(views.take(j + 1).last() == roles@[j as int]@);
            assert(role@ == views[j as int]);
            if !found {
                assert(!role@.contains(':'));
            }
        }
        if found {
            let pieces = split_chars(&role, ':');
            proof {
                lemma_split_on_nonempty(role@, ':');
            }
            out.push(string_of(&pieces[0]));
            proof {
                let f = views.take(j as int).filter(has_colon);
                assert(views.take(j + 1).filter(has_colon) == f.push(role@));
                assert(f.push(role@).map_values(head) =~= f.map_values(head).push(head(role@)));
                assert(texts_of(out@) =~= texts_of(before).push(pieces@[0]@));
            }
        }
        j = j + 1;
    }
    proof {
        assert(views.take(j as int) =~= views);
    }
    out
}

/// What filling the context `old` from the context of the request gives: the result `r`
/// and the context `new`.
pub open spec fn fill_outcome(
    request_ctx: Option<BasicContext>,
    old: BasicContext,
    new: BasicContext,
    r: Result<(), BasicError>,
    kind: CtxFillKind,
) -> bool {
    match request_ctx {
        None => if ctx_is_empty(old) {
            r == Err::<(), BasicError>(BasicError::ContextMissing) && new == old
        } else {
            r is Ok && new == old
        },
        Some(b) => if old.own_paths@.is_prefix_of(b.own_paths@) {
            r is Ok && filled(old, new, b, kind)
        } else {
            r == Err::<(), BasicError>(BasicError::ContextPermissionDenied) && new == old
        },
    }
}

/// Fill the context from the context that the request carries (in the header, default:
/// ``Bios-Ctx``): without one, an empty context is refused and another one stays as it
/// is; one outside the current own paths is refused; else it fills the given fields
///
/// Warning: This operation is unsafe, and it should only be used in scenarios where there
/// is no security risk.
pub fn do_unsafe_fill_ctx(request_ctx: Option<BasicContext>, ctx: &mut BasicContext, kind: CtxFillKind) -> (r: Result<(), BasicError>)
    ensures
        fill_outcome(request_ctx, *old(ctx), *final(ctx), r, kind),
{
    let bios_ctx = match request_ctx {
        Some(b) => b,
        None => {
            let empty = chars_of(ctx.owner.as_str()).len() == 0 && chars_of(ctx.ak.as_str()).len() == 0
                && chars_of(ctx.own_paths.as_str()).len() == 0 && ctx.roles.len() == 0 && ctx.groups.len() == 0;
            if empty {
                return Err(BasicError::ContextMissing);
            } else {
                return Ok(());
            }
        },
    };
    let own = chars_of(bios_ctx.own_paths.as_str());
    let cur = chars_of(ctx.own_paths.as_str());
    if !starts_with_chars(&own, &cur) {
        return Err(BasicError::ContextPermissionDenied);
    }
    match kind {
        CtxFillKind::All => {
            let roles = extend_roles(&bios_ctx.roles);
            ctx.owner = bios_ctx.owner;
            ctx.roles = roles;
            ctx.groups = bios_ctx.groups;
            ctx.own_paths = bios_ctx.own_paths;
        },
        CtxFillKind::OwnerOnly => {
            ctx.owner = bios_ctx.owner;
        },
        CtxFillKind::OwnPathsOnly => {
            ctx.own_paths = bios_ctx.own_paths;
        },
        CtxFillKind::RolesOnly => {
            ctx.roles = extend_roles(&bios_ctx.roles);
        },
        CtxFillKind::GroupsOnly => {
            ctx.groups = bios_ctx.groups;
        },
    }
    Ok(())
}

/// Fill the owner, the roles, the groups and the own paths of the context from the
/// context of the request
pub fn unsafe_fill_ctx(request_ctx: Option<BasicContext>, ctx: &mut BasicContext) -> (r: Result<(), BasicError>)
    ensures
        fill_outcome(request_ctx, *old(ctx), *final(ctx), r, CtxFillKind::All),
{
    do_unsafe_fill_ctx(request_ctx, ctx, CtxFillKind::All)
}

/// Check that the context has no owner (an internal call, mostly of a ``ci`` interface),
/// then fill it from the context of the request
pub fn check_without_owner_and_unsafe_fill_ctx(request_ctx: Option<BasicContext>, ctx: &mut BasicContext) -> (r: Result<(), BasicError>)
    ensures
        old(ctx).owner@.len() != 0 ==> r == Err::<(), BasicError>(BasicError::ContextOwnerNotEmpty) && *final(ctx) == *old(ctx),
        old(ctx).owner@.len() == 0 ==> fill_outcome(request_ctx, *old(ctx), *final(ctx), r, CtxFillKind::All),
{
    if chars_of(ctx.owner.as_str()).len() != 0 {
        return Err(BasicError::ContextOwnerNotEmpty);
    }
    unsafe_fill_ctx(request_ctx, ctx)
}

/// Fill the ``owner`` field of the context from the context of the request
pub fn unsafe_fill_owner_only(request_ctx: Option<BasicContext>, ctx: &mut BasicContext) -> (r: Result<(), BasicError>)
    ensures
        fill_outcome(request_ctx, *old(ctx), *final(ctx), r, CtxFillKind::OwnerOnly),
{
    do_unsafe_fill_ctx(request_ctx, ctx, CtxFillKind::OwnerOnly)
}

/// Fill the ``own_paths`` field of the context from the context of the request
pub fn unsafe_fill_own_paths_only(request_ctx: Option<BasicContext>, ctx: &mut BasicContext) -> (r: Result<(), BasicError>)
    ensures
        fill_outcome(request_ctx, *old(ctx), *final(ctx), r, CtxFillKind::OwnPathsOnly),
{
    do_unsafe_fill_ctx(request_ctx, ctx, CtxFillKind::OwnPathsOnly)
}

/// Fill the ``roles`` field (extended) of the context from the context of the request
pub fn unsafe_fill_roles_only(request_ctx: Option<BasicContext>, ctx: &mut BasicContext) -> (r: Result<(), BasicError>)
    ensures
        fill_outcome(request_ctx, *old(ctx), *final(ctx), r, CtxFillKind::RolesOnly),
{
    do_unsafe_fill_ctx(request_ctx, ctx, CtxFillKind::RolesOnly)
}

/// Fill the ``groups`` field of the context from the context of the request
pub fn unsafe_fill_groups_only(request_ctx: Option<BasicContext>, ctx: &mut BasicContext) -> (r: Result<(), BasicError>)
    ensures
        fill_outcome(request_ctx, *old(ctx), *final(ctx), r, CtxFillKind::GroupsOnly),
{
    do_unsafe_fill_ctx(request_ctx, ctx, CtxFillKind::GroupsOnly)
}

/// A record of scope level 0 (global) is visible from any own paths, unless the filter
/// ignores the scope.
pub proof fn lemma_global_scope_visible(record_own_paths: Seq<char>, filter: RbumBasicFilterReq, ctx_own_paths: Seq<char>)
    requires
        !filter.ignore_scope,
    ensures
        scope_visible(record_own_paths, Some(0i16), filter, ctx_own_paths),
{
    let std = standard_paths_of(filter, ctx_own_paths);
    assert(pre_paths_of(0, std) == Some(Seq::<char>::empty()));
    let rb = bytes_of(record_own_paths);
    let sb = bytes_of(Seq::<char>::empty());
    assert(sb =~= Seq::<u8>::empty());
    if rb.len() <= sb.len() {
        assert(rb =~= Seq::<u8>::empty());
    } else {
        assert(rb.take(0) =~= sb);
    }
}

/// A record with the own paths of the filter (or of the context) is visible.
pub proof fn lemma_own_record_visible(record_scope_level: Option<i16>, filter: RbumBasicFilterReq, ctx_own_paths: Seq<char>)
    ensures
        scope_visible(standard_paths_of(filter, ctx_own_paths), record_scope_level, filter, ctx_own_paths),
{
}

} // verus!
