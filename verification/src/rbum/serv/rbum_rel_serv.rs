//! Relationship service: the conditions of a relationship check
//!
//! 关联关系服务：关联关系检查的条件
use crate::error::BasicError;
use crate::rbum::dto::rbum_filer_dto::RbumRelFilterReq;
use crate::rbum::dto::rbum_rel_dto::{RbumRelCheckReq, RbumRelEnvCheckReq};
use crate::rbum::dto::rbum_set_item_dto::RbumSetItemSummaryResp;
use crate::rbum::rbum_enumeration::{RbumRelEnvKind, RbumRelFromKind};
use crate::text::{chars_of, like_chars, like_match, string_of};
use vstd::prelude::*;

verus! {

/// The value of a digit character.
pub open spec fn digit_value(c: char) -> int {
    (c as int) - ('0' as int)
}

/// An ASCII digit.
pub open spec fn is_digit(c: char) -> bool {
    '0' <= c && c <= '9'
}

/// The value of a text of digits, in base ten.
pub open spec fn digits_value(s: Seq<char>) -> int
    decreases s.len(),
{
    if s.len() == 0 {
        0
    } else {
        digits_value(s.drop_last()) * 10 + digit_value(s.last())
    }
}

/// The text without its leading sign, if it has one.
pub open spec fn unsigned_part(s: Seq<char>) -> Seq<char> {
    if s.len() > 0 && (s[0] == '-' || s[0] == '+') {
        s.drop_first()
    } else {
        s
    }
}

/// Every character is an ASCII digit.
pub open spec fn all_digits(d: Seq<char>) -> bool {
    forall|i: int| 0 <= i < d.len() ==> is_digit(#[trigger] d[i])
}

/// The signed value of a decimal text.
pub open spec fn signed_value(s: Seq<char>) -> int {
    if s.len() > 0 && s[0] == '-' {
        -digits_value(unsigned_part(s))
    } else {
        digits_value(unsigned_part(s))
    }
}

/// The integer that a decimal text denotes: an optional sign, then at least one digit;
/// none when the text is no such text or its value does not fit an `i64` (as
/// `str::parse::<i64>` reads it).
pub open spec fn decimal_value(s: Seq<char>) -> Option<int> {
    if unsigned_part(s).len() > 0 && all_digits(unsigned_part(s)) && i64::MIN <= signed_value(s) <= i64::MAX {
        Some(signed_value(s))
    } else {
        None
    }
}

/// Read a decimal integer
pub fn parse_i64(s: &str) -> (r: Option<i64>)
    ensures
        match decimal_value(s@) {
            Some(v) => r == Some(v as i64),
            None => r is None,
        },
{
    let c = chars_of(s);
    let n = c.len();
    let negative = n > 0 && c[0] == '-';
    let start: usize = if n > 0 && (c[0] == '-' || c[0] == '+') {
        1
    } else {
        0
    };
    let ghost digits = unsigned_part(s@);
    proof {
        assert(digits =~= c@.skip(start as int));
    }
    if start == n {
        return None;
    }
    let mut acc: u64 = 0;
    let mut i: usize = start;
    while i < n
        invariant
            start <= i <= n,
            n == c@.len(),
            c@ == s@,
            digits =~= c@.skip(start as int),
            digits == unsigned_part(s@),
            negative == (s@.len() > 0 && s@[0] == '-'),
            forall|k: int| 0 <= k < i - start ==> is_digit(#[trigger] digits[k]),
            acc == digits_value(digits.take(i - start)),
            acc <= 9223372036854775808u64,
        decreases n - i,
    {
        let ch = c[i];
        if !('0' <= ch && ch <= '9') {
            proof {
                assert(digits[i - start] == c@[i as int]);
                assert(!is_digit(digits[i - start]));
                assert(!all_digits(digits));
            }
            return None;
        }
        let d = (ch as u32 - '0' as u32) as u64;
        proof {
            assert(digits.take(i + 1 - start).drop_last() =~= digits.take(i - start));
            assert(digits.take(i + 1 - start).last() == ch);
        }
        if acc > 922337203685477580u64 || (acc == 922337203685477580u64 && d > 8) {
            proof {
                assert(digits[i - start] == c@[i as int]);
                assert(digits_value(digits.take(i + 1 - start)) > 9223372036854775808);
                if all_digits(digits) {
                    lemma_digits_value_grows(digits, i + 1 - start);
                }
            }
            return None;
        }
        acc = acc * 10 + d;
        i = i + 1;
    }
    proof {
        assert(digits.take(n - start) =~= digits);
    }
    if negative {
        if acc == 9223372036854775808u64 {
            Some(-9223372036854775807i64 - 1)
        } else {
            Some(-(acc as i64))
        }
    } else {
        if acc > 9223372036854775807u64 {
            None
        } else {
            Some(acc as i64)
        }
    }
}

/// The value of digits only grows as digits follow.
pub proof fn lemma_digits_value_grows(s: Seq<char>, k: int)
    requires
        0 <= k <= s.len(),
        forall|i: int| 0 <= i < s.len() ==> is_digit(#[trigger] s[i]),
    ensures
        digits_value(s.take(k)) <= digits_value(s),
    decreases s.len() - k,
{
    if k < s.len() {
        lemma_digits_value_grows(s, k + 1);
        assert(s.take(k + 1).drop_last() =~= s.take(k));
        assert(digits_value(s.take(k)) >= 0) by {
            lemma_digits_value_nonneg(s.take(k));
        }
    } else {
        assert(s.take(k) =~= s);
    }
}

/// The value of digits is not negative.
pub proof fn lemma_digits_value_nonneg(s: Seq<char>)
    requires
        forall|i: int| 0 <= i < s.len() ==> is_digit(#[trigger] s[i]),
    ensures
        digits_value(s) >= 0,
    decreases s.len(),
{
    if s.len() > 0 {
        lemma_digits_value_nonneg(s.drop_last());
        assert(is_digit(s[s.len() - 1]));
    }
}

/// A condition on an attribute of a relationship: its name, its value, and whether it is
/// an attribute of the source.
#[derive(Debug, Clone)]
pub struct RelAttrCond {
    pub name: String,
    pub value: String,
    pub is_from: bool,
}

/// A condition on an environment of a relationship.
#[derive(Debug, Clone)]
pub enum RelEnvCond {
    /// An environment of the kind whose range (from its first value to its second) holds
    /// the number.
    InRange { kind: RbumRelEnvKind, num: i64 },
    /// An environment of the kind whose first value is at least the number.
    AtLeast { kind: RbumRelEnvKind, num: i64 },
    /// An environment of the kind whose first value contains the text.
    Contains { kind: RbumRelEnvKind, text: String },
}

/// What a relationship check asks of the stored relationships. A relationship passes when
/// it has the tag, one of the source kinds and source ids (when given), the target item
/// (when given), its own paths or the own paths of its target under the own paths of the
/// request; when each of its attributes (but those kept as records only) meets one of the
/// attribute conditions, and each of its environments meets one of the environment
/// conditions (so that none may be there when no conditions are given).
#[derive(Debug, Clone)]
pub struct RbumRelCheckQuery {
    pub tag: String,
    pub from_rbum_kinds: Option<Vec<RbumRelFromKind>>,
    pub from_rbum_ids: Option<Vec<String>>,
    pub to_rbum_item_id: Option<String>,
    pub own_paths: String,
    pub attr_conds: Vec<RelAttrCond>,
    pub env_conds: Vec<RelEnvCond>,
}

/// The kinds of environments that compare a number.
pub open spec fn is_numeric_env(kind: RbumRelEnvKind) -> bool {
    kind != RbumRelEnvKind::Ips
}

/// The condition that a checked environment asks for: a range for time ranges, a lower
/// bound for call frequencies and counts, a part of the list for IP lists.
pub open spec fn env_cond_matches(cond: RelEnvCond, env: RbumRelEnvCheckReq) -> bool {
    match env.kind {
        RbumRelEnvKind::DatetimeRange | RbumRelEnvKind::TimeRange => decimal_value(env.value@) matches Some(v)
            && cond == (RelEnvCond::InRange { kind: env.kind, num: v as i64 }),
        RbumRelEnvKind::CallFrequency | RbumRelEnvKind::CallCount => decimal_value(env.value@) matches Some(v)
            && cond == (RelEnvCond::AtLeast { kind: env.kind, num: v as i64 }),
        RbumRelEnvKind::Ips => cond matches RelEnvCond::Contains { kind, text } && kind == env.kind && text@
            == env.value@,
    }
}

/// The value of some environment of a numeric kind is no decimal number.
pub open spec fn env_value_not_number(envs: Seq<RbumRelEnvCheckReq>) -> bool {
    exists|i: int| 0 <= i < envs.len() && is_numeric_env((#[trigger] envs[i]).kind) && decimal_value(envs[i].value@) is None
}

/// The attribute conditions of the source attributes, then of the target attributes.
pub open spec fn attr_conds_match(conds: Seq<RelAttrCond>, from_attrs: Seq<(String, String)>, to_attrs: Seq<(String, String)>) -> bool {
    &&& conds.len() == from_attrs.len() + to_attrs.len()
    &&& forall|i: int|
        0 <= i < from_attrs.len() ==> (#[trigger] conds[i]).name@ == from_attrs[i].0@ && conds[i].value@
            == from_attrs[i].1@ && conds[i].is_from
    &&& forall|i: int|
        0 <= i < to_attrs.len() ==> (#[trigger] conds[from_attrs.len() + i]).name@ == to_attrs[i].0@
            && conds[from_attrs.len() + i].value@ == to_attrs[i].1@ && !conds[from_attrs.len() + i].is_from
}

/// The condition of an environment.
fn env_cond_of(env: &RbumRelEnvCheckReq) -> (r: Result<RelEnvCond, BasicError>)
    ensures
        is_numeric_env(env.kind) && decimal_value(env.value@) is None ==> r == Err::<RelEnvCond, BasicError>(
            BasicError::EnvValueNotNumber,
        ),
        !(is_numeric_env(env.kind) && decimal_value(env.value@) is None) ==> (r matches Ok(c) && env_cond_matches(c, *env)),
{
    match env.kind {
        RbumRelEnvKind::DatetimeRange | RbumRelEnvKind::TimeRange => match parse_i64(env.value.as_str()) {
            Some(num) => Ok(RelEnvCond::InRange { kind: env.kind, num }),
            None => Err(BasicError::EnvValueNotNumber),
        },
        RbumRelEnvKind::CallFrequency | RbumRelEnvKind::CallCount => match parse_i64(env.value.as_str()) {
            Some(num) => Ok(RelEnvCond::AtLeast { kind: env.kind, num }),
            None => Err(BasicError::EnvValueNotNumber),
        },
        RbumRelEnvKind::Ips => Ok(RelEnvCond::Contains { kind: env.kind, text: string_of(&chars_of(env.value.as_str())) }),
    }
}

/// A stored attribute of a relationship.
#[derive(Debug, Clone)]
pub struct StoredRelAttr {
    pub name: String,
    pub value: String,
    pub is_from: bool,
    /// Kept as a record only: checks do not look at it.
    pub record_only: bool,
}

/// A stored environment of a relationship: its kind and its two values.
#[derive(Debug, Clone)]
pub struct StoredRelEnv {
    pub kind: RbumRelEnvKind,
    pub value1: String,
    pub value2: String,
}

/// A stored relationship with its attributes and environments.
#[derive(Debug, Clone)]
pub struct StoredRel {
    pub tag: String,
    pub from_rbum_kind: RbumRelFromKind,
    pub from_rbum_id: String,
    pub to_rbum_item_id: String,
    pub own_paths: String,
    pub to_own_paths: String,
    pub attrs: Vec<StoredRelAttr>,
    pub envs: Vec<StoredRelEnv>,
}

/// An attribute meets a condition: same name, value and side.
pub open spec fn attr_met(cond: RelAttrCond, a: StoredRelAttr) -> bool {
    a.name@ == cond.name@ && a.value@ == cond.value@ && a.is_from == cond.is_from
}

/// The `LIKE` pattern of a text anywhere: ``%{text}%``.
pub open spec fn contains_pattern(text: Seq<char>) -> Seq<char> {
    seq!['%'] + text + seq!['%']
}

/// The `LIKE` pattern of texts that start with a text: ``{text}%``.
pub open spec fn prefix_pattern(text: Seq<char>) -> Seq<char> {
    text + seq!['%']
}

/// An environment meets a condition of its kind: its range (first value to second) holds
/// the number; its first value is at least the number; its first value matches the text
/// as the `LIKE` pattern ``%{text}%`` (so `_` and `%` in the text are wildcards).
/// The values are read as decimal integers; one that is none never meets a numeric
/// condition.
pub open spec fn env_met(cond: RelEnvCond, e: StoredRelEnv) -> bool {
    match cond {
        RelEnvCond::InRange { kind, num } => e.kind == kind && (decimal_value(e.value1@) matches Some(v1) && v1
            <= num) && (decimal_value(e.value2@) matches Some(v2) && num <= v2),
        RelEnvCond::AtLeast { kind, num } => e.kind == kind && (decimal_value(e.value1@) matches Some(v1) && num
            <= v1),
        RelEnvCond::Contains { kind, text } => e.kind == kind && like_match(contains_pattern(text@), e.value1@),
    }
}

/// Some text of the list is `id`.
pub open spec fn texts_contain(ids: Seq<String>, id: Seq<char>) -> bool {
    exists|k: int| 0 <= k < ids.len() && (#[trigger] ids[k])@ == id
}

/// A stored relationship passes a check query: it has the tag, one of the source kinds and
/// source ids (when given) and the target item (when given); its own paths or the own
/// paths of its target match the `LIKE` pattern ``{own_paths}%`` of the query; each of its attributes but
/// those kept as records only meets one of the attribute conditions; and each of its
/// environments meets one of the environment conditions.
pub open spec fn rel_passes(q: RbumRelCheckQuery, rel: StoredRel) -> bool {
    &&& rel_heading_passes(q, rel)
    &&& forall|i: int|
        0 <= i < rel.attrs@.len() && !(#[trigger] rel.attrs@[i]).record_only ==> meets_some_attr_cond(
            q.attr_conds@,
            rel.attrs@[i],
        )
    &&& forall|i: int| 0 <= i < rel.envs@.len() ==> meets_some_env_cond(q.env_conds@, #[trigger] rel.envs@[i])
}

/// The attribute meets one of the conditions.
pub open spec fn meets_some_attr_cond(conds: Seq<RelAttrCond>, a: StoredRelAttr) -> bool {
    exists|j: int| 0 <= j < conds.len() && attr_met(#[trigger] conds[j], a)
}

/// The environment meets one of the conditions.
pub open spec fn meets_some_env_cond(conds: Seq<RelEnvCond>, e: StoredRelEnv) -> bool {
    exists|j: int| 0 <= j < conds.len() && env_met(#[trigger] conds[j], e)
}

/// The relationship has the tag, source and target that the query asks for, and its own
/// paths or those of its target match the `LIKE` pattern ``{own_paths}%`` of the query.
pub open spec fn rel_heading_passes(q: RbumRelCheckQuery, rel: StoredRel) -> bool {
    &&& rel.tag@ == q.tag@
    &&& q.from_rbum_kinds matches Some(ks) ==> ks@.contains(rel.from_rbum_kind)
    &&& q.from_rbum_ids matches Some(ids) ==> texts_contain(ids@, rel.from_rbum_id@)
    &&& q.to_rbum_item_id matches Some(t) ==> t@ == rel.to_rbum_item_id@
    &&& (like_match(prefix_pattern(q.own_paths@), rel.own_paths@) || like_match(
        prefix_pattern(q.own_paths@),
        rel.to_own_paths@,
    ))
}

/// Whether the text is in the list.
fn texts_contain_exec(ids: &Vec<String>, id: &String) -> (r: bool)
    ensures
        r == texts_contain(ids@, id@),
{
    let mut k: usize = 0;
    while k < ids.len()
        invariant
            k <= ids@.len(),
            forall|m: int| 0 <= m < k ==> (#[trigger] ids@[m])@ != id@,
        decreases ids@.len() - k,
    {
        if ids[k] == *id {
            return true;
        }
        k = k + 1;
    }
    false
}

/// Whether the source kind is in the list.
fn kinds_contain(kinds: &Vec<RbumRelFromKind>, kind: RbumRelFromKind) -> (r: bool)
    ensures
        r == kinds@.contains(kind),
{
    let mut k: usize = 0;
    while k < kinds.len()
        invariant
            k <= kinds@.len(),
            forall|m: int| 0 <= m < k ==> kinds@[m] != kind,
        decreases kinds@.len() - k,
    {
        if kinds[k] == kind {
            assert(kinds@[k as int] == kind);
            return true;
        }
        k = k + 1;
    }
    false
}

/// Whether an attribute meets one of the conditions.
fn attr_meets_some(conds: &Vec<RelAttrCond>, a: &StoredRelAttr) -> (r: bool)
    ensures
        r == meets_some_attr_cond(conds@, *a),
{
    let mut j: usize = 0;
    while j < conds.len()
        invariant
            j <= conds@.len(),
            forall|m: int| 0 <= m < j ==> !attr_met(#[trigger] conds@[m], *a),
        decreases conds@.len() - j,
    {
        let c = &conds[j];
        if c.name == a.name && c.value == a.value && c.is_from == a.is_from {
            assert(attr_met(conds@[j as int], *a));
            return true;
        }
        j = j + 1;
    }
    false
}

/// Whether an environment meets a condition.
fn env_met_exec(cond: &RelEnvCond, e: &StoredRelEnv) -> (r: bool)
    ensures
        r == env_met(*cond, *e),
{
    match cond {
        RelEnvCond::InRange { kind, num } => {
            if e.kind != *kind {
                return false;
            }
            match (parse_i64(e.value1.as_str()), parse_i64(e.value2.as_str())) {
                (Some(v1), Some(v2)) => v1 <= *num && *num <= v2,
                _ => false,
            }
        },
        RelEnvCond::AtLeast { kind, num } => {
            if e.kind != *kind {
                return false;
            }
            match parse_i64(e.value1.as_str()) {
                Some(v1) => *num <= v1,
                None => false,
            }
        },
        RelEnvCond::Contains { kind, text } => {
            if e.kind != *kind {
                return false;
            }
            like_chars(&contains_pattern_exec(text), &chars_of(e.value1.as_str()))
        },
    }
}

/// Whether an environment meets one of the conditions.
fn env_meets_some(conds: &Vec<RelEnvCond>, e: &StoredRelEnv) -> (r: bool)
    ensures
        r == meets_some_env_cond(conds@, *e),
{
    let mut j: usize = 0;
    while j < conds.len()
        invariant
            j <= conds@.len(),
            forall|m: int| 0 <= m < j ==> !env_met(#[trigger] conds@[m], *e),
        decreases conds@.len() - j,
    {
        if env_met_exec(&conds[j], e) {
            return true;
        }
        j = j + 1;
    }
    false
}

/// A relationship row as the query of relationships reads it: the relationship, and the
/// scope levels of its source item and of its target item, none when the source is no
/// item or the item does not exist.
#[derive(Debug, Clone)]
pub struct RelRow {
    pub tag: String,
    pub from_rbum_kind: RbumRelFromKind,
    pub from_rbum_id: String,
    pub to_rbum_item_id: String,
    pub to_own_paths: String,
    pub ext: String,
    pub from_item_scope_level: Option<i16>,
    pub to_item_scope_level: Option<i16>,
}

/// A level is given and is one of the levels of the list (a missing level is in no list).
pub open spec fn level_listed(levels: Seq<i16>, level: Option<i16>) -> bool {
    level matches Some(l) && levels.contains(l)
}

/// A row passes the query of relationships: each condition that the filter gives holds,
/// the extension matching the `LIKE` pattern ``%{ext_like}%``.
pub open spec fn rel_row_passes(filter: RbumRelFilterReq, row: RelRow) -> bool {
    &&& filter.tag matches Some(t) ==> t@ == row.tag@
    &&& filter.from_rbum_kind matches Some(k) ==> k == row.from_rbum_kind
    &&& filter.from_rbum_id matches Some(f) ==> f@ == row.from_rbum_id@
    &&& filter.from_rbum_scope_levels matches Some(l) ==> level_listed(l@, row.from_item_scope_level)
    &&& filter.to_rbum_item_id matches Some(t) ==> t@ == row.to_rbum_item_id@
    &&& filter.to_rbum_item_scope_levels matches Some(l) ==> level_listed(l@, row.to_item_scope_level)
    &&& filter.to_own_paths matches Some(o) ==> o@ == row.to_own_paths@
    &&& filter.ext_eq matches Some(e) ==> e@ == row.ext@
    &&& filter.ext_like matches Some(e) ==> like_match(contains_pattern(e@), row.ext@)
}

/// Whether a level is given and listed.
fn level_listed_exec(levels: &Vec<i16>, level: Option<i16>) -> (r: bool)
    ensures
        r == level_listed(levels@, level),
{
    let l = match level {
        Some(l) => l,
        None => {
            return false;
        },
    };
    let mut k: usize = 0;
    while k < levels.len()
        invariant
            k <= levels@.len(),
            level == Some(l),
            forall|m: int| 0 <= m < k ==> levels@[m] != l,
        decreases levels@.len() - k,
    {
        if levels[k] == l {
            assert(levels@[k as int] == l);
            assert(levels@.contains(l));
            return true;
        }
        k = k + 1;
    }
    false
}

/// The `LIKE` pattern ``%{text}%`` as characters.
fn contains_pattern_exec(text: &String) -> (r: Vec<char>)
    ensures
        r@ == contains_pattern(text@),
{
    let mut pattern = vec!['%'];
    let tc = chars_of(text.as_str());
    let mut k: usize = 0;
    while k < tc.len()
        invariant
            k <= tc@.len(),
            tc@ == text@,
            pattern@ == seq!['%'] + tc@.take(k as int),
        decreases tc@.len() - k,
    {
        pattern.push(tc[k]);
        proof {
            assert(seq!['%'] + tc@.take(k + 1) =~= (seq!['%'] + tc@.take(k as int)).push(tc@[k as int]));
        }
        k = k + 1;
    }
    pattern.push('%');
    proof {
        assert(tc@.take(k as int) =~= tc@);
        assert(pattern@ =~= contains_pattern(text@));
    }
    pattern
}

/// Relationship services
pub struct RbumRelServ;

impl RbumRelServ {
    /// The query of a relationship check: its filters, its attribute conditions and its
    /// environment conditions; refused when the value of a time range, call frequency or
    /// call count is no number
    ///
    /// 执行关联关系检查的查询条件
    pub fn package_check_query(
        tag: &str,
        from_rbum_kinds: Option<Vec<RbumRelFromKind>>,
        from_rbum_ids: Option<Vec<String>>,
        to_rbum_item_id: Option<String>,
        from_attrs: &Vec<(String, String)>,
        to_attrs: &Vec<(String, String)>,
        envs: &Vec<RbumRelEnvCheckReq>,
        own_paths: &str,
    ) -> (r: Result<RbumRelCheckQuery, BasicError>)
        ensures
            env_value_not_number(envs@) ==> r == Err::<RbumRelCheckQuery, BasicError>(BasicError::EnvValueNotNumber),
            !env_value_not_number(envs@) ==> (r matches Ok(q) && {
                &&& q.tag@ == tag@
                &&& q.from_rbum_kinds == from_rbum_kinds
                &&& q.from_rbum_ids == from_rbum_ids
                &&& q.to_rbum_item_id == to_rbum_item_id
                &&& q.own_paths@ == own_paths@
                &&& attr_conds_match(q.attr_conds@, from_attrs@, to_attrs@)
                &&& q.env_conds@.len() == envs@.len()
                &&& forall|i: int| 0 <= i < envs@.len() ==> env_cond_matches(#[trigger] q.env_conds@[i], envs@[i])
            }),
    {
        let mut attr_conds: Vec<RelAttrCond> = Vec::new();
        let mut i: usize = 0;
        while i < from_attrs.len()
            invariant
                i <= from_attrs@.len(),
                attr_conds@.len() == i,
                forall|k: int|
                    0 <= k < i ==> (#[trigger] attr_conds@[k]).name@ == from_attrs@[k].0@ && attr_conds@[k].value@
                        == from_attrs@[k].1@ && attr_conds@[k].is_from,
            decreases from_attrs@.len() - i,
        {
            attr_conds.push(RelAttrCond { name: from_attrs[i].0.clone(), value: from_attrs[i].1.clone(), is_from: true });
            i = i + 1;
        }
        let mut j: usize = 0;
        while j < to_attrs.len()
            invariant
                j <= to_attrs@.len(),
                attr_conds@.len() == from_attrs@.len() + j,
                forall|k: int|
                    0 <= k < from_attrs@.len() ==> (#[trigger] attr_conds@[k]).name@ == from_attrs@[k].0@
                        && attr_conds@[k].value@ == from_attrs@[k].1@ && attr_conds@[k].is_from,
                forall|k: int|
                    0 <= k < j ==> (#[trigger] attr_conds@[from_attrs@.len() + k]).name@ == to_attrs@[k].0@
                        && attr_conds@[from_attrs@.len() + k].value@ == to_attrs@[k].1@
                        && !attr_conds@[from_attrs@.len() + k].is_from,
            decreases to_attrs@.len() - j,
        {
            let ghost before = attr_conds@;
            attr_conds.push(RelAttrCond { name: to_attrs[j].0.clone(), value: to_attrs[j].1.clone(), is_from: false });
            proof {
                assert forall|k: int| 0 <= k < from_attrs@.len() implies (#[trigger] attr_conds@[k]).name@
                    == from_attrs@[k].0@ && attr_conds@[k].value@ == from_attrs@[k].1@ && attr_conds@[k].is_from by {
                    assert(attr_conds@[k] == before[k]);
                }
                assert forall|k: int| 0 <= k < j + 1 implies (#[trigger] attr_conds@[from_attrs@.len() + k]).name@
                    == to_attrs@[k].0@ && attr_conds@[from_attrs@.len() + k].value@ == to_attrs@[k].1@
                    && !attr_conds@[from_attrs@.len() + k].is_from by {
                    if k < j {
                        assert(attr_conds@[from_attrs@.len() + k] == before[from_attrs@.len() + k]);
                    }
                }
            }
            j = j + 1;
        }
        let mut env_conds: Vec<RelEnvCond> = Vec::new();
        let mut k: usize = 0;
        while k < envs.len()
            invariant
                k <= envs@.len(),
                env_conds@.len() == k,
                forall|m: int| 0 <= m < k ==> env_cond_matches(#[trigger] env_conds@[m], envs@[m]),
                forall|m: int| 0 <= m < k ==> !(is_numeric_env((#[trigger] envs@[m]).kind) && decimal_value(envs@[m].value@) is None),
            decreases envs@.len() - k,
        {
            match env_cond_of(&envs[k]) {
                Ok(c) => {
                    env_conds.push(c);
                },
                Err(e) => {
                    assert(is_numeric_env(envs@[k as int].kind) && decimal_value(envs@[k as int].value@) is None);
                    return Err(e);
                },
            }
            k = k + 1;
        }
        Ok(RbumRelCheckQuery {
            tag: string_of(&chars_of(tag)),
            from_rbum_kinds,
            from_rbum_ids,
            to_rbum_item_id,
            own_paths: string_of(&chars_of(own_paths)),
            attr_conds,
            env_conds,
        })
    }

    /// Whether a relationship row passes the query of relationships that the filter makes
    /// (the basic filter aside)
    ///
    /// 关联关系是否满足查询条件
    pub fn package_query(filter: &RbumRelFilterReq, row: &RelRow) -> (r: bool)
        ensures
            r == rel_row_passes(*filter, *row),
    {
        if let Some(t) = &filter.tag {
            if *t != row.tag {
                return false;
            }
        }
        if let Some(k) = filter.from_rbum_kind {
            if k != row.from_rbum_kind {
                return false;
            }
        }
        if let Some(f) = &filter.from_rbum_id {
            if *f != row.from_rbum_id {
                return false;
            }
        }
        if let Some(l) = &filter.from_rbum_scope_levels {
            if !level_listed_exec(l, row.from_item_scope_level) {
                return false;
            }
        }
        if let Some(t) = &filter.to_rbum_item_id {
            if *t != row.to_rbum_item_id {
                return false;
            }
        }
        if let Some(l) = &filter.to_rbum_item_scope_levels {
            if !level_listed_exec(l, row.to_item_scope_level) {
                return false;
            }
        }
        if let Some(o) = &filter.to_own_paths {
            if *o != row.to_own_paths {
                return false;
            }
        }
        if let Some(e) = &filter.ext_eq {
            if *e != row.ext {
                return false;
            }
        }
        if let Some(e) = &filter.ext_like {
            if !like_chars(&contains_pattern_exec(e), &chars_of(row.ext.as_str())) {
                return false;
            }
        }
        true
    }

    /// Whether a stored relationship passes a check query
    ///
    /// 存储的关联关系是否满足检查条件
    pub fn rel_passes(q: &RbumRelCheckQuery, rel: &StoredRel) -> (r: bool)
        ensures
            r == rel_passes(*q, *rel),
    {
        if rel.tag != q.tag {
            return false;
        }
        if let Some(ks) = &q.from_rbum_kinds {
            if !kinds_contain(ks, rel.from_rbum_kind) {
                return false;
            }
        }
        if let Some(ids) = &q.from_rbum_ids {
            if !texts_contain_exec(ids, &rel.from_rbum_id) {
                return false;
            }
        }
        if let Some(t) = &q.to_rbum_item_id {
            if *t != rel.to_rbum_item_id {
                return false;
            }
        }
        let mut own = chars_of(q.own_paths.as_str());
        own.push('%');
        proof {
            assert(own@ =~= prefix_pattern(q.own_paths@));
        }
        if !(like_chars(&own, &chars_of(rel.own_paths.as_str())) || like_chars(&own, &chars_of(rel.to_own_paths.as_str()))) {
            return false;
        }
        assert(rel_heading_passes(*q, *rel));
        let mut i: usize = 0;
        while i < rel.attrs.len()
            invariant
                i <= rel.attrs@.len(),
                rel_heading_passes(*q, *rel),
                forall|m: int|
                    0 <= m < i && !(#[trigger] rel.attrs@[m]).record_only ==> meets_some_attr_cond(
                        q.attr_conds@,
                        rel.attrs@[m],
                    ),
            decreases rel.attrs@.len() - i,
        {
            if !rel.attrs[i].record_only && !attr_meets_some(&q.attr_conds, &rel.attrs[i]) {
                return false;
            }
            i = i + 1;
        }
        let mut k: usize = 0;
        while k < rel.envs.len()
            invariant
                k <= rel.envs@.len(),
                rel_heading_passes(*q, *rel),
                forall|m: int|
                    0 <= m < rel.attrs@.len() && !(#[trigger] rel.attrs@[m]).record_only ==> meets_some_attr_cond(
                        q.attr_conds@,
                        rel.attrs@[m],
                    ),
                forall|m: int| 0 <= m < k ==> meets_some_env_cond(q.env_conds@, #[trigger] rel.envs@[m]),
            decreases rel.envs@.len() - k,
        {
            if !env_meets_some(&q.env_conds, &rel.envs[k]) {
                return false;
            }
            k = k + 1;
        }
        true
    }

    /// Execute the relationship check over the stored relationships: whether one of them
    /// passes the query
    ///
    /// 执行关联关系检查
    pub fn do_check_rel(q: &RbumRelCheckQuery, rels: &Vec<StoredRel>) -> (r: bool)
        ensures
            r == exists|i: int| 0 <= i < rels@.len() && rel_passes(*q, #[trigger] rels@[i]),
    {
        let mut i: usize = 0;
        while i < rels.len()
            invariant
                i <= rels@.len(),
                forall|m: int| 0 <= m < i ==> !rel_passes(*q, #[trigger] rels@[m]),
            decreases rels@.len() - i,
        {
            if Self::rel_passes(q, &rels[i]) {
                return true;
            }
            i = i + 1;
        }
        false
    }

    /// Whether a relationship check goes on to the resource sets of its source: only for
    /// a source item or set category
    pub fn checks_sets_of(from_rbum_kind: RbumRelFromKind) -> (r: bool)
        ensures
            r == (from_rbum_kind == RbumRelFromKind::Item || from_rbum_kind == RbumRelFromKind::SetCate),
    {
        match from_rbum_kind {
            RbumRelFromKind::Item | RbumRelFromKind::SetCate => true,
            _ => false,
        }
    }

    /// The source ids that a check on a resource set asks for: the source item itself (for
    /// a source item), the parents of its categories, and the set
    pub fn set_check_from_ids(from_rbum_kind: RbumRelFromKind, from_rbum_id: &str, set_cate_parent_ids: Vec<String>, set_id: String) -> (r: Vec<String>)
        ensures
            from_rbum_kind == RbumRelFromKind::Item ==> r@.len() == set_cate_parent_ids@.len() + 2 && r@[0]@ == from_rbum_id@
                && r@.subrange(1, r@.len() - 1) == set_cate_parent_ids@ && r@.last() == set_id,
            from_rbum_kind != RbumRelFromKind::Item ==> r@ == set_cate_parent_ids@.push(set_id),
    {
        let mut ids = set_cate_parent_ids;
        let ghost parents = ids@;
        if from_rbum_kind == RbumRelFromKind::Item {
            // the source id is checked again, as the source kind changes
            ids.insert(0, string_of(&chars_of(from_rbum_id)));
        }
        ids.push(set_id);
        proof {
            if from_rbum_kind == RbumRelFromKind::Item {
                assert(ids@.subrange(1, ids@.len() - 1) =~= parents);
            }
        }
        ids
    }

    /// The source kinds that a check on a resource set asks for: set categories and sets
    pub fn set_check_from_kinds() -> (r: Vec<RbumRelFromKind>)
        ensures
            r@ == seq![RbumRelFromKind::SetCate, RbumRelFromKind::RbumSet],
    {
        let mut v = Vec::new();
        v.push(RbumRelFromKind::SetCate);
        v.push(RbumRelFromKind::RbumSet);
        v
    }
}

/// A relationship that targets another item than the one the query names never passes.
pub proof fn lemma_rel_other_target_fails(q: RbumRelCheckQuery, rel: StoredRel)
    ensures
        q.to_rbum_item_id matches Some(t) && t@ != rel.to_rbum_item_id@ ==> !rel_passes(q, rel),
{
}

/// A relationship passes only under the tag of the query, and, where the query names
/// source kinds or source ids, only with one of them as its source.
pub proof fn lemma_rel_tag_and_source_must_match(q: RbumRelCheckQuery, rel: StoredRel)
    ensures
        rel_passes(q, rel) ==> rel.tag@ == q.tag@,
        q.from_rbum_kinds matches Some(ks) && !ks@.contains(rel.from_rbum_kind) ==> !rel_passes(q, rel),
        q.from_rbum_ids matches Some(ids) && (forall|k: int| 0 <= k < ids@.len() ==> (#[trigger] ids@[k])@
            != rel.from_rbum_id@) ==> !rel_passes(q, rel),
{
}

/// An attribute that is checked (not kept as a record only) and that no attribute condition
/// of the query names with its name, value and side makes the relationship fail; so does an
/// environment that meets no environment condition.
pub proof fn lemma_rel_unmet_attr_or_env_fails(q: RbumRelCheckQuery, rel: StoredRel, i: int, k: int)
    ensures
        0 <= i < rel.attrs@.len() && !rel.attrs@[i].record_only && (forall|j: int|
            0 <= j < q.attr_conds@.len() ==> !(#[trigger] q.attr_conds@[j].name@ == rel.attrs@[i].name@
                && q.attr_conds@[j].value@ == rel.attrs@[i].value@ && q.attr_conds@[j].is_from
                == rel.attrs@[i].is_from)) ==> !rel_passes(q, rel),
        0 <= k < rel.envs@.len() && (forall|j: int| 0 <= j < q.env_conds@.len() ==> !env_met(
            #[trigger] q.env_conds@[j],
            rel.envs@[k],
        )) ==> !rel_passes(q, rel),
{
    if 0 <= i < rel.attrs@.len() && !rel.attrs@[i].record_only && (forall|j: int|
        0 <= j < q.attr_conds@.len() ==> !(#[trigger] q.attr_conds@[j].name@ == rel.attrs@[i].name@
            && q.attr_conds@[j].value@ == rel.attrs@[i].value@ && q.attr_conds@[j].is_from
            == rel.attrs@[i].is_from)) && rel_passes(q, rel) {
        assert(meets_some_attr_cond(q.attr_conds@, rel.attrs@[i]));
        let j = choose|j: int| 0 <= j < q.attr_conds@.len() && attr_met(#[trigger] q.attr_conds@[j], rel.attrs@[i]);
        assert(q.attr_conds@[j].name@ == rel.attrs@[i].name@);
    }
    if 0 <= k < rel.envs@.len() && (forall|j: int| 0 <= j < q.env_conds@.len() ==> !env_met(
        #[trigger] q.env_conds@[j],
        rel.envs@[k],
    )) && rel_passes(q, rel) {
        assert(meets_some_env_cond(q.env_conds@, rel.envs@[k]));
    }
}

/// The pattern ``%`` matches every text.
proof fn lemma_percent_matches_all(t: Seq<char>)
    ensures
        like_match(seq!['%'], t),
    decreases t.len(),
{
    let p = seq!['%'];
    assert(p.len() == 1 && p[0] == '%');
    assert(p.drop_first() =~= Seq::<char>::empty());
    if t.len() > 0 {
        lemma_percent_matches_all(t.drop_first());
        assert(like_match(p, t.drop_first()));
    } else {
        assert(like_match(p.drop_first(), t));
    }
}

/// The pattern ``{text}%`` matches every text that starts with `text`.
pub proof fn lemma_prefix_pattern_matches(text: Seq<char>, rest: Seq<char>)
    ensures
        like_match(prefix_pattern(text), text + rest),
    decreases text.len(),
{
    if text.len() == 0 {
        assert(prefix_pattern(text) =~= seq!['%']);
        assert(text + rest =~= rest);
        lemma_percent_matches_all(rest);
    } else {
        let p = prefix_pattern(text);
        let t = text + rest;
        lemma_prefix_pattern_matches(text.drop_first(), rest);
        assert(p.drop_first() =~= prefix_pattern(text.drop_first()));
        assert(t.drop_first() =~= text.drop_first() + rest);
        assert(p[0] == text[0]);
        assert(t[0] == text[0]);
        if text[0] == '%' {
            assert(like_match(p, t.drop_first()));
        }
    }
}

/// A relationship with the tag, source and target that the query asks for, whose own paths
/// start with the own paths of the query, and that has no attributes or environments to
/// check, passes.
pub proof fn lemma_rel_under_own_paths_passes(q: RbumRelCheckQuery, rel: StoredRel, rest: Seq<char>)
    requires
        rel.tag@ == q.tag@,
        q.from_rbum_kinds matches Some(ks) ==> ks@.contains(rel.from_rbum_kind),
        q.from_rbum_ids matches Some(ids) ==> texts_contain(ids@, rel.from_rbum_id@),
        q.to_rbum_item_id matches Some(t) ==> t@ == rel.to_rbum_item_id@,
        rel.own_paths@ == q.own_paths@ + rest,
        rel.attrs@.len() == 0,
        rel.envs@.len() == 0,
    ensures
        rel_passes(q, rel),
{
    lemma_prefix_pattern_matches(q.own_paths@, rest);
}

/// A check finds nothing among relationships that all target another item than the one the
/// query names.
pub proof fn lemma_check_finds_nothing_for_other_targets(q: RbumRelCheckQuery, rels: Seq<StoredRel>, t: String)
    requires
        q.to_rbum_item_id == Some(t),
        forall|i: int| 0 <= i < rels.len() ==> (#[trigger] rels[i]).to_rbum_item_id@ != t@,
    ensures
        !exists|i: int| 0 <= i < rels.len() && rel_passes(q, #[trigger] rels[i]),
{
}


} // verus!
