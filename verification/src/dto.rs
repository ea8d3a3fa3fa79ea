//! Basic DTOs
use crate::enumeration::BasicQueryOpKind;
use crate::text::{chars_of, contains_chars, contains_seq};
use vstd::prelude::*;

verus! {

/// A JSON value.
///
/// Numbers keep the kinds of JSON numbers: non-negative integers, negative integers and
/// floating-point numbers. A floating-point number is held by its order key: an integer
/// that orders, and compares equal, exactly as the (finite) number does.
#[derive(Debug)]
pub enum JsonValue {
    Null,
    Bool(bool),
    PosInt(u64),
    NegInt(i64),
    Float(u64),
    String(String),
    Array(Vec<JsonValue>),
    Object(Vec<(String, JsonValue)>),
}

/// JSON equality. An object holds its entries in the order of their keys, each key once
/// (as a JSON map does), so that equal objects hold equal entries in turn.
pub open spec fn json_equal(a: JsonValue, b: JsonValue) -> bool
    decreases a,
{
    match a {
        JsonValue::Null => b is Null,
        JsonValue::Bool(x) => b matches JsonValue::Bool(y) && x == y,
        JsonValue::PosInt(x) => b matches JsonValue::PosInt(y) && x == y,
        JsonValue::NegInt(x) => b matches JsonValue::NegInt(y) && x == y,
        JsonValue::Float(x) => b matches JsonValue::Float(y) && x == y,
        JsonValue::String(x) => b matches JsonValue::String(y) && x@ == y@,
        JsonValue::Array(x) => match b {
            JsonValue::Array(y) => x@.len() == y@.len() && forall|i: int|
                0 <= i < x@.len() ==> json_equal(#[trigger] x@[i], y@[i]),
            _ => false,
        },
        JsonValue::Object(x) => match b {
            JsonValue::Object(y) => x@.len() == y@.len() && forall|i: int|
                0 <= i < x@.len() ==> (#[trigger] x@[i]).0@ == y@[i].0@ && json_equal(x@[i].1, y@[i].1),
            _ => false,
        },
    }
}

/// Whether two JSON values are equal.
pub fn json_eq(a: &JsonValue, b: &JsonValue) -> (r: bool)
    ensures
        r == json_equal(*a, *b),
    decreases a,
{
    match a {
        JsonValue::Null => match b {
            JsonValue::Null => true,
            _ => false,
        },
        JsonValue::Bool(x) => match b {
            JsonValue::Bool(y) => *x == *y,
            _ => false,
        },
        JsonValue::PosInt(x) => match b {
            JsonValue::PosInt(y) => *x == *y,
            _ => false,
        },
        JsonValue::NegInt(x) => match b {
            JsonValue::NegInt(y) => *x == *y,
            _ => false,
        },
        JsonValue::Float(x) => match b {
            JsonValue::Float(y) => *x == *y,
            _ => false,
        },
        JsonValue::String(x) => match b {
            JsonValue::String(y) => *x == *y,
            _ => false,
        },
        JsonValue::Array(x) => match b {
            JsonValue::Array(y) => {
                if x.len() != y.len() {
                    return false;
                }
                let mut i: usize = 0;
                while i < x.len()
                    invariant
                        i <= x@.len(),
                        x@.len() == y@.len(),
                        *a == JsonValue::Array(*x),
                        *b == JsonValue::Array(*y),
                        forall|k: int| 0 <= k < i ==> json_equal(#[trigger] x@[k], y@[k]),
                    decreases x@.len() - i,
                {
                    proof {
                        assert(decreases_to!(*a => (*a)->Array_0));
                        assert(decreases_to!((*a)->Array_0 => (*a)->Array_0@));
                        assert(decreases_to!((*a)->Array_0@ => x@[i as int]));
                    }
                    if !json_eq(&x[i], &y[i]) {
                        return false;
                    }
                    i = i + 1;
                }
                assert(json_equal(*a, *b));
                true
            },
            _ => false,
        },
        JsonValue::Object(x) => match b {
            JsonValue::Object(y) => {
                if x.len() != y.len() {
                    return false;
                }
                let mut i: usize = 0;
                while i < x.len()
                    invariant
                        i <= x@.len(),
                        x@.len() == y@.len(),
                        *a == JsonValue::Object(*x),
                        *b == JsonValue::Object(*y),
                        forall|k: int|
                            0 <= k < i ==> (#[trigger] x@[k]).0@ == y@[k].0@ && json_equal(x@[k].1, y@[k].1),
                    decreases x@.len() - i,
                {
                    proof {
                        assert(decreases_to!(*a => (*a)->Object_0));
                        assert(decreases_to!((*a)->Object_0 => (*a)->Object_0@));
                        assert(decreases_to!((*a)->Object_0@ => x@[i as int]));
                        assert(decreases_to!(x@[i as int] => x@[i as int].1));
                    }
                    if x[i].0 != y[i].0 || !json_eq(&x[i].1, &y[i].1) {
                        return false;
                    }
                    i = i + 1;
                }
                true
            },
            _ => false,
        },
    }
}

/// Objects hold their entries in the order of their keys, each key once, at every depth.
pub open spec fn json_wf(v: JsonValue) -> bool
    decreases v,
{
    match v {
        JsonValue::Array(x) => forall|i: int| 0 <= i < x@.len() ==> json_wf(#[trigger] x@[i]),
        JsonValue::Object(x) => forall|i: int|
            0 <= i < x@.len() ==> json_wf((#[trigger] x@[i]).1) && (i + 1 < x@.len()
                ==> crate::text::seq_lt(x@[i].0@, x@[i + 1].0@)),
        _ => true,
    }
}

/// A number that fits an `i64`.
pub open spec fn is_i64_value(v: JsonValue) -> bool {
    (v matches JsonValue::PosInt(u) && u <= i64::MAX) || v is NegInt
}

/// The integer of an integer value.
pub open spec fn int_of(v: JsonValue) -> int {
    match v {
        JsonValue::PosInt(u) => u as int,
        JsonValue::NegInt(i) => i as int,
        _ => 0,
    }
}

/// Two numbers that compare, as integers: two floating-point numbers (by their order keys),
/// else two numbers that fit an `i64`, else two non-negative integers.
pub open spec fn number_pair(a: JsonValue, b: JsonValue) -> Option<(int, int)> {
    if a is Float && b is Float {
        Some((a->Float_0 as int, b->Float_0 as int))
    } else if is_i64_value(a) && is_i64_value(b) {
        Some((int_of(a), int_of(b)))
    } else if a is PosInt && b is PosInt {
        Some((int_of(a), int_of(b)))
    } else {
        None
    }
}

/// Basic query condition object
///
/// 基础的查询条件对象
#[derive(Debug)]
pub struct BasicQueryCondInfo {
    /// Query field
    pub field: String,
    /// Query operator
    pub op: BasicQueryOpKind,
    /// Query value
    pub value: JsonValue,
}

/// Some element of the array equals the value.
pub open spec fn in_array(arr: Seq<JsonValue>, v: JsonValue) -> bool {
    exists|i: int| 0 <= i < arr.len() && json_equal(#[trigger] arr[i], v)
}

/// Whether the value of the field meets the condition.
pub open spec fn cond_holds(cond: BasicQueryCondInfo, val: JsonValue) -> bool {
    match cond.op {
        BasicQueryOpKind::Eq => json_equal(cond.value, val),
        BasicQueryOpKind::Ne => !json_equal(cond.value, val),
        BasicQueryOpKind::Gt => number_pair(cond.value, val) matches Some(p) && p.0 < p.1,
        BasicQueryOpKind::Ge => number_pair(cond.value, val) matches Some(p) && p.0 <= p.1,
        BasicQueryOpKind::Lt => number_pair(cond.value, val) matches Some(p) && p.0 > p.1,
        BasicQueryOpKind::Le => number_pair(cond.value, val) matches Some(p) && p.0 >= p.1,
        BasicQueryOpKind::Like | BasicQueryOpKind::NotLike => val matches JsonValue::String(s)
            && cond.value matches JsonValue::String(t) && contains_seq(s@, t@),
        BasicQueryOpKind::In | BasicQueryOpKind::NotIn => val matches JsonValue::Array(arr) && in_array(
            arr@,
            cond.value,
        ),
        _ => false,
    }
}

/// The value of a field: that of the first entry with its name.
pub open spec fn var_of(vars: Seq<(String, JsonValue)>, field: Seq<char>) -> Option<JsonValue>
    decreases vars.len(),
{
    if vars.len() == 0 {
        None
    } else if vars[0].0@ == field {
        Some(vars[0].1)
    } else {
        var_of(vars.drop_first(), field)
    }
}

/// The field of the condition has a value that meets it.
pub open spec fn cond_met(cond: BasicQueryCondInfo, vars: Seq<(String, JsonValue)>) -> bool {
    var_of(vars, cond.field@) matches Some(v) && cond_holds(cond, v)
}

/// Every condition of the group is met.
pub open spec fn group_met(group: Seq<BasicQueryCondInfo>, vars: Seq<(String, JsonValue)>) -> bool {
    forall|j: int| 0 <= j < group.len() ==> #[trigger] cond_met(group[j], vars)
}

/// Some group of conditions is met as a whole.
pub open spec fn or_and_conds_met(conds: Seq<Vec<BasicQueryCondInfo>>, vars: Seq<(String, JsonValue)>) -> bool {
    exists|i: int| 0 <= i < conds.len() && #[trigger] group_met(conds[i]@, vars)
}

/// Compare two numbers: whether the first is below the second, and whether it is at most
/// the second, when they compare.
fn number_compare(a: &JsonValue, b: &JsonValue) -> (r: Option<(bool, bool)>)
    ensures
        match number_pair(*a, *b) {
            Some(p) => r == Some((p.0 < p.1, p.0 <= p.1)),
            None => r is None,
        },
{
    match (a, b) {
        (JsonValue::Float(x), JsonValue::Float(y)) => Some((*x < *y, *x <= *y)),
        (JsonValue::PosInt(x), JsonValue::PosInt(y)) => Some((*x < *y, *x <= *y)),
        (JsonValue::NegInt(x), JsonValue::NegInt(y)) => Some((*x < *y, *x <= *y)),
        (JsonValue::NegInt(x), JsonValue::PosInt(y)) => {
            if *y <= 9223372036854775807u64 {
                let yi = *y as i64;
                Some((*x < yi, *x <= yi))
            } else {
                None
            }
        },
        (JsonValue::PosInt(x), JsonValue::NegInt(y)) => {
            if *x <= 9223372036854775807u64 {
                let xi = *x as i64;
                Some((xi < *y, xi <= *y))
            } else {
                None
            }
        },
        _ => None,
    }
}

/// The value of a field.
fn var_of_exec<'a>(vars: &'a Vec<(String, JsonValue)>, field: &String) -> (r: Option<&'a JsonValue>)
    ensures
        match var_of(vars@, field@) {
            Some(v) => r == Some(&v),
            None => r is None,
        },
{
    let mut k: usize = 0;
    proof {
        assert(vars@.skip(0) =~= vars@);
    }
    while k < vars.len()
        invariant
            k <= vars@.len(),
            var_of(vars@, field@) == var_of(vars@.skip(k as int), field@),
        decreases vars@.len() - k,
    {
        proof {
            assert(vars@.skip(k as int).drop_first() =~= vars@.skip(k + 1));
        }
        if vars[k].0 == *field {
            return Some(&vars[k].1);
        }
        k = k + 1;
    }
    None
}

impl BasicQueryCondInfo {
    /// Whether the value of the field meets the condition.
    fn holds_for(&self, val: &JsonValue) -> (r: bool)
        ensures
            r == cond_holds(*self, *val),
    {
        match self.op {
            BasicQueryOpKind::Eq => json_eq(&self.value, val),
            BasicQueryOpKind::Ne => !json_eq(&self.value, val),
            BasicQueryOpKind::Gt => match number_compare(&self.value, val) {
                Some((lt, _)) => lt,
                None => false,
            },
            BasicQueryOpKind::Ge => match number_compare(&self.value, val) {
                Some((_, le)) => le,
                None => false,
            },
            BasicQueryOpKind::Lt => match number_compare(val, &self.value) {
                Some((lt, _)) => lt,
                None => false,
            },
            BasicQueryOpKind::Le => match number_compare(val, &self.value) {
                Some((_, le)) => le,
                None => false,
            },
            BasicQueryOpKind::Like | BasicQueryOpKind::NotLike => match (val, &self.value) {
                (JsonValue::String(s), JsonValue::String(t)) => {
                    let sc = chars_of(s.as_str());
                    let tc = chars_of(t.as_str());
                    contains_chars(&sc, &tc)
                },
                _ => false,
            },
            BasicQueryOpKind::In | BasicQueryOpKind::NotIn => match val {
                JsonValue::Array(arr) => {
                    let mut i: usize = 0;
                    while i < arr.len()
                        invariant
                            i <= arr@.len(),
                            *val == JsonValue::Array(*arr),
                            self.op is In || self.op is NotIn,
                            forall|k: int| 0 <= k < i ==> !json_equal(#[trigger] arr@[k], self.value),
                        decreases arr@.len() - i,
                    {
                        if json_eq(&arr[i], &self.value) {
                            assert(json_equal(arr@[i as int], self.value));
                            assert(in_array(arr@, self.value));
                            return true;
                        }
                        i = i + 1;
                    }
                    assert(!in_array(arr@, self.value));
                    false
                },
                _ => false,
            },
            _ => false,
        }
    }

    /// Check if the ``check_vars`` passed in meet the conditions in ``conds``
    ///
    /// 检查传入的 ``check_vars`` 是否满足 ``conds`` 中的条件
    ///
    /// The outer level is the `OR` relationship, the inner level is the `AND` relationship
    pub fn check_or_and_conds(conds: &Vec<Vec<BasicQueryCondInfo>>, check_vars: &Vec<(String, JsonValue)>) -> (r: bool)
        ensures
            r == or_and_conds_met(conds@, check_vars@),
    {
        let mut i: usize = 0;
        while i < conds.len()
            invariant
                i <= conds@.len(),
                forall|x: int| 0 <= x < i ==> !#[trigger] group_met(conds@[x]@, check_vars@),
            decreases conds@.len() - i,
        {
            let and_conds = &conds[i];
            let mut all = true;
            let mut j: usize = 0;
            while j < and_conds.len() && all
                invariant
                    j <= and_conds@.len(),
                    all ==> forall|y: int| 0 <= y < j ==> #[trigger] cond_met(and_conds@[y], check_vars@),
                    !all ==> exists|y: int| 0 <= y < and_conds@.len() && !#[trigger] cond_met(and_conds@[y], check_vars@),
                decreases and_conds@.len() - j + if all {
                    1int
                } else {
                    0int
                },
            {
                let cond = &and_conds[j];
                let met = match var_of_exec(check_vars, &cond.field) {
                    Some(v) => cond.holds_for(v),
                    None => false,
                };
                if !met {
                    all = false;
                    assert(!cond_met(and_conds@[j as int], check_vars@));
                } else {
                    j = j + 1;
                }
            }
            assert(and_conds@ == conds@[i as int]@);
            if !all {
                proof {
                    let y = choose|y: int| 0 <= y < and_conds@.len() && !#[trigger] cond_met(and_conds@[y], check_vars@);
                    assert(!cond_met(conds@[i as int]@[y], check_vars@));
                    assert(!group_met(conds@[i as int]@, check_vars@));
                }
            }
            if all {
                assert(group_met(conds@[i as int]@, check_vars@));
                return true;
            }
            i = i + 1;
        }
        false
    }
}

/// The groups of conditions are alternatives: the conditions of two lists of groups are
/// met exactly when those of one of them are.
pub proof fn lemma_or_of_groups(a: Seq<Vec<BasicQueryCondInfo>>, b: Seq<Vec<BasicQueryCondInfo>>, vars: Seq<(String, JsonValue)>)
    ensures
        or_and_conds_met(a + b, vars) == (or_and_conds_met(a, vars) || or_and_conds_met(b, vars)),
{
    let ab = a + b;
    if or_and_conds_met(ab, vars) {
        let i = choose|i: int| 0 <= i < ab.len() && #[trigger] group_met(ab[i]@, vars);
        if i < a.len() {
            assert(ab[i] == a[i]);
        } else {
            assert(ab[i] == b[i - a.len()]);
        }
    }
    if or_and_conds_met(a, vars) {
        let i = choose|i: int| 0 <= i < a.len() && #[trigger] group_met(a[i]@, vars);
        assert(ab[i] == a[i]);
    }
    if or_and_conds_met(b, vars) {
        let i = choose|i: int| 0 <= i < b.len() && #[trigger] group_met(b[i]@, vars);
        assert(ab[a.len() + i] == b[i]);
    }
}

/// Within a group, the conditions are all required: a group is met exactly when each of
/// its conditions is met as a group of its own.
pub proof fn lemma_and_of_conds(group: Seq<BasicQueryCondInfo>, vars: Seq<(String, JsonValue)>)
    ensures
        group_met(group, vars) == (forall|j: int| 0 <= j < group.len() ==> #[trigger] group_met(seq![group[j]], vars)),
{
    if group_met(group, vars) {
        assert forall|j: int| 0 <= j < group.len() implies #[trigger] group_met(seq![group[j]], vars) by {
            assert(seq![group[j]][0] == group[j]);
        }
    }
    if forall|j: int| 0 <= j < group.len() ==> #[trigger] group_met(seq![group[j]], vars) {
        assert forall|j: int| 0 <= j < group.len() implies #[trigger] cond_met(group[j], vars) by {
            assert(group_met(seq![group[j]], vars));
            assert(seq![group[j]][0] == group[j]);
        }
    }
}

/// ``NotLike`` checks as ``Like`` does, and ``NotIn`` as ``In`` does.
pub proof fn lemma_negated_ops_check_alike(field: String, value: JsonValue, val: JsonValue)
    ensures
        cond_holds(BasicQueryCondInfo { field, op: BasicQueryOpKind::NotLike, value }, val) == cond_holds(
            BasicQueryCondInfo { field, op: BasicQueryOpKind::Like, value },
            val,
        ),
        cond_holds(BasicQueryCondInfo { field, op: BasicQueryOpKind::NotIn, value }, val) == cond_holds(
            BasicQueryCondInfo { field, op: BasicQueryOpKind::In, value },
            val,
        ),
{
}

/// ``Ne`` holds exactly when ``Eq`` does not.
pub proof fn lemma_ne_is_not_eq(field: String, value: JsonValue, val: JsonValue)
    ensures
        cond_holds(BasicQueryCondInfo { field, op: BasicQueryOpKind::Ne, value }, val) == !cond_holds(
            BasicQueryCondInfo { field, op: BasicQueryOpKind::Eq, value },
            val,
        ),
{
}

/// ``In`` (and ``NotIn``) holds on an array value exactly when some element of the array,
/// at any index, is JSON-equal to the value of the condition, and never on a value that is
/// no array.
pub proof fn lemma_in_holds_iff_some_element(field: String, value: JsonValue, arr: Vec<JsonValue>, other: JsonValue)
    ensures
        cond_holds(BasicQueryCondInfo { field, op: BasicQueryOpKind::In, value }, JsonValue::Array(arr)) <==> exists|i: int|
            0 <= i < arr@.len() && json_equal(#[trigger] arr@[i], value),
        forall|i: int|
            0 <= i < arr@.len() && json_equal(#[trigger] arr@[i], value) ==> cond_holds(
                BasicQueryCondInfo { field, op: BasicQueryOpKind::In, value },
                JsonValue::Array(arr),
            ),
        !(other is Array) ==> !cond_holds(BasicQueryCondInfo { field, op: BasicQueryOpKind::In, value }, other),
{
}

/// ``Like`` holds exactly when both the value of the field and that of the condition are
/// texts and the text of the condition occurs, at some position, in the text of the field.
pub proof fn lemma_like_holds_iff_occurs(field: String, s: String, t: String, other: JsonValue)
    ensures
        cond_holds(BasicQueryCondInfo { field, op: BasicQueryOpKind::Like, value: JsonValue::String(t) }, JsonValue::String(s))
            <==> exists|k: int| 0 <= k && k + t@.len() <= s@.len() && #[trigger] s@.subrange(k, k + t@.len()) == t@,
        !(other is String) ==> !cond_holds(
            BasicQueryCondInfo { field, op: BasicQueryOpKind::Like, value: JsonValue::String(t) },
            other,
        ),
{
}

/// The comparisons put the value of the field on the left and that of the condition on the
/// right: for integers `a` (of the condition) and `b` (of the field), ``Gt`` holds exactly
/// when `b > a`, ``Ge`` when `b >= a`, ``Lt`` when `b < a`, ``Le`` when `b <= a`.
pub proof fn lemma_integer_comparisons(field: String, a: u64, b: u64, x: i64, y: i64)
    ensures
        cond_holds(BasicQueryCondInfo { field, op: BasicQueryOpKind::Gt, value: JsonValue::PosInt(a) }, JsonValue::PosInt(b)) <==> b > a,
        cond_holds(BasicQueryCondInfo { field, op: BasicQueryOpKind::Ge, value: JsonValue::PosInt(a) }, JsonValue::PosInt(b)) <==> b >= a,
        cond_holds(BasicQueryCondInfo { field, op: BasicQueryOpKind::Lt, value: JsonValue::PosInt(a) }, JsonValue::PosInt(b)) <==> b < a,
        cond_holds(BasicQueryCondInfo { field, op: BasicQueryOpKind::Le, value: JsonValue::PosInt(a) }, JsonValue::PosInt(b)) <==> b <= a,
        cond_holds(BasicQueryCondInfo { field, op: BasicQueryOpKind::Gt, value: JsonValue::NegInt(x) }, JsonValue::NegInt(y)) <==> y > x,
        cond_holds(BasicQueryCondInfo { field, op: BasicQueryOpKind::Lt, value: JsonValue::NegInt(x) }, JsonValue::NegInt(y)) <==> y < x,
        a <= i64::MAX ==> (cond_holds(
            BasicQueryCondInfo { field, op: BasicQueryOpKind::Gt, value: JsonValue::NegInt(x) },
            JsonValue::PosInt(a),
        ) <==> a > x),
        a <= i64::MAX ==> (cond_holds(
            BasicQueryCondInfo { field, op: BasicQueryOpKind::Lt, value: JsonValue::PosInt(a) },
            JsonValue::NegInt(x),
        ) <==> x < a),
{
}

/// One condition on one variable: the conditions are met exactly when the condition holds
/// on the value of its field, and never when the field has no value.
pub proof fn lemma_single_condition(cond: BasicQueryCondInfo, group: Vec<BasicQueryCondInfo>, name: String, val: JsonValue, other: String)
    requires
        group@ == seq![cond],
    ensures
        name@ == cond.field@ ==> (or_and_conds_met(seq![group], seq![(name, val)]) <==> cond_holds(cond, val)),
        other@ != cond.field@ ==> !or_and_conds_met(seq![group], seq![(other, val)]),
        !or_and_conds_met(Seq::<Vec<BasicQueryCondInfo>>::empty(), seq![(name, val)]),
{
    let vars = seq![(name, val)];
    assert(vars.drop_first() =~= Seq::<(String, JsonValue)>::empty());
    if name@ == cond.field@ {
        if cond_holds(cond, val) {
            assert(cond_met(group@[0], vars));
            assert(group_met(seq![group][0]@, vars));
        }
        if or_and_conds_met(seq![group], vars) {
            assert(group_met(seq![group][0]@, vars));
            assert(cond_met(group@[0], vars));
        }
    }
    let ovars = seq![(other, val)];
    assert(ovars.drop_first() =~= Seq::<(String, JsonValue)>::empty());
    if other@ != cond.field@ && or_and_conds_met(seq![group], ovars) {
        let i = choose|i: int| 0 <= i < seq![group].len() && #[trigger] group_met(seq![group][i]@, ovars);
        assert(i == 0);
        assert(cond_met(group@[0], ovars));
        assert(ovars[0].0@ != cond.field@);
        assert(var_of(ovars.drop_first(), cond.field@) is None);
        assert(var_of(ovars, cond.field@) is None);
        assert(false);
    }
}

} // verus!
