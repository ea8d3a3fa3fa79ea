//! Database value helper: the values that a JSON query value stands for
//!
//! 数据库值辅助操作
use crate::dto::JsonValue;
use crate::enumeration::BasicQueryOpKind;
use crate::text::{chars_of, string_of};
use tardis::chrono::DateTime;
use vstd::prelude::*;

verus! {

/// A database value. A floating-point number is held by its order key, as in [`JsonValue`];
/// an instant by its UNIX seconds and nanoseconds.
#[derive(Debug)]
pub enum DbValue {
    Bool(bool),
    BigInt(i64),
    BigUnsigned(u64),
    Double(u64),
    DateTimeUtc { secs: i64, nanos: u32 },
    String(String),
    Json(JsonValue),
}

/// A database value with its text as characters.
pub enum DbValueSpec {
    Bool(bool),
    BigInt(i64),
    BigUnsigned(u64),
    Double(u64),
    DateTimeUtc { secs: i64, nanos: u32 },
    Text(Seq<char>),
    Json(JsonValue),
}

/// The value with its text as characters.
pub open spec fn db_view(d: DbValue) -> DbValueSpec {
    match d {
        DbValue::Bool(b) => DbValueSpec::Bool(b),
        DbValue::BigInt(i) => DbValueSpec::BigInt(i),
        DbValue::BigUnsigned(u) => DbValueSpec::BigUnsigned(u),
        DbValue::Double(k) => DbValueSpec::Double(k),
        DbValue::DateTimeUtc { secs, nanos } => DbValueSpec::DateTimeUtc { secs, nanos },
        DbValue::String(s) => DbValueSpec::Text(s@),
        DbValue::Json(j) => DbValueSpec::Json(j),
    }
}

/// The values of an optional list of values.
pub open spec fn db_views(r: Option<Vec<DbValue>>) -> Option<Seq<DbValueSpec>> {
    match r {
        Some(v) => Some(v@.map_values(|d: DbValue| db_view(d))),
        None => None,
    }
}

/// The instant (UNIX seconds and nanoseconds) of an RFC 3339 date and time, when the text is one.
pub uninterp spec fn rfc3339_instant(s: Seq<char>) -> Option<(i64, u32)>;

/// ``chrono::DateTime::parse_from_rfc3339``, then the UNIX seconds and the nanoseconds of
/// the instant (its offset applied). The contract names the result, which depends on the
/// text alone.
#[verifier::external_body]
fn parse_rfc3339(s: &str) -> (r: Option<(i64, u32)>)
    ensures
        r == rfc3339_instant(s@),
{
    match DateTime::parse_from_rfc3339(s) {
        Ok(dt) => Some((dt.timestamp(), dt.timestamp_subsec_nanos())),
        Err(_) => None,
    }
}

/// Convert string to an instant in UTC: its UNIX seconds and nanoseconds, none when the
/// text is no RFC 3339 date and time
pub fn str_to_datetime(input: &str) -> (r: Option<(i64, u32)>)
    ensures
        r == rfc3339_instant(input@),
{
    parse_rfc3339(input)
}

/// The value of a text: its instant when it is a date and time; else, for `Like` and
/// `NotLike`, the pattern ``%{text}%``; else the text.
pub open spec fn text_db_value(s: Seq<char>, like_kind: BasicQueryOpKind) -> DbValueSpec {
    match rfc3339_instant(s) {
        Some((secs, nanos)) => DbValueSpec::DateTimeUtc { secs, nanos },
        None => if like_kind == BasicQueryOpKind::Like || like_kind == BasicQueryOpKind::NotLike {
            DbValueSpec::Text(seq!['%'] + s + seq!['%'])
        } else {
            DbValueSpec::Text(s)
        },
    }
}

/// The database values that a JSON value stands for: none for null and for an empty array
/// (or one with an element that has none); a number as a signed integer when it fits, else
/// as an unsigned one, else as a double; a text as [`text_db_value`]; an object as JSON; an
/// array as the values of its elements in turn.
pub open spec fn db_values_of(v: JsonValue, like_kind: BasicQueryOpKind) -> Option<Seq<DbValueSpec>>
    decreases v,
{
    match v {
        JsonValue::Null => None,
        JsonValue::Bool(b) => Some(seq![DbValueSpec::Bool(b)]),
        JsonValue::PosInt(u) => if u <= i64::MAX {
            Some(seq![DbValueSpec::BigInt(u as i64)])
        } else {
            Some(seq![DbValueSpec::BigUnsigned(u)])
        },
        JsonValue::NegInt(i) => Some(seq![DbValueSpec::BigInt(i)]),
        JsonValue::Float(k) => Some(seq![DbValueSpec::Double(k)]),
        JsonValue::String(s) => Some(seq![text_db_value(s@, like_kind)]),
        JsonValue::Object(_) => Some(seq![DbValueSpec::Json(v)]),
        JsonValue::Array(a) => if a@.len() == 0 {
            None
        } else {
            elems_db_values(a@, like_kind)
        },
    }
}

/// The values of the elements in turn, none when some element has none.
pub open spec fn elems_db_values(s: Seq<JsonValue>, like_kind: BasicQueryOpKind) -> Option<Seq<DbValueSpec>>
    decreases s,
{
    if s.len() == 0 {
        Some(Seq::empty())
    } else {
        match (elems_db_values(s.drop_last(), like_kind), db_values_of(s.last(), like_kind)) {
            (Some(x), Some(y)) => Some(x + y),
            _ => None,
        }
    }
}

/// Convert JSON value to database values: the string of a `Like` or `NotLike` condition is
/// wrapped in `%`
pub fn json_to_sea_orm_value(json_value: JsonValue, like_kind: BasicQueryOpKind) -> (r: Option<Vec<DbValue>>)
    ensures
        db_views(r) == db_values_of(json_value, like_kind),
    decreases json_value,
{
    let ghost orig = json_value;
    match json_value {
        JsonValue::Null => None,
        JsonValue::Bool(b) => {
            let r = Some(vec![DbValue::Bool(b)]);
            proof {
                assert(db_views(r) =~~= db_values_of(orig, like_kind));
            }
            r
        },
        JsonValue::PosInt(u) => {
            let r = if u <= 9223372036854775807u64 {
                Some(vec![DbValue::BigInt(u as i64)])
            } else {
                Some(vec![DbValue::BigUnsigned(u)])
            };
            proof {
                assert(db_views(r) =~~= db_values_of(orig, like_kind));
            }
            r
        },
        JsonValue::NegInt(i) => {
            let r = Some(vec![DbValue::BigInt(i)]);
            proof {
                assert(db_views(r) =~~= db_values_of(orig, like_kind));
            }
            r
        },
        JsonValue::Float(k) => {
            let r = Some(vec![DbValue::Double(k)]);
            proof {
                assert(db_views(r) =~~= db_values_of(orig, like_kind));
            }
            r
        },
        JsonValue::String(s) => {
            let d = match str_to_datetime(s.as_str()) {
                Some((secs, nanos)) => DbValue::DateTimeUtc { secs, nanos },
                None => {
                    if matches!(like_kind, BasicQueryOpKind::Like) || matches!(like_kind, BasicQueryOpKind::NotLike) {
                        let mut t = vec!['%'];
                        let sc = chars_of(s.as_str());
                        let mut k: usize = 0;
                        while k < sc.len()
                            invariant
                                k <= sc@.len(),
                                sc@ == s@,
                                t@ == seq!['%'] + sc@.take(k as int),
                            decreases sc@.len() - k,
                        {
                            t.push(sc[k]);
                            proof {
                                assert(seq!['%'] + sc@.take(k + 1) =~= (seq!['%'] + sc@.take(k as int)).push(sc@[k as int]));
                            }
                            k = k + 1;
                        }
                        t.push('%');
                        proof {
                            assert(sc@.take(k as int) =~= sc@);
                            assert(t@ =~= seq!['%'] + s@ + seq!['%']);
                        }
                        DbValue::String(string_of(&t))
                    } else {
                        DbValue::String(s)
                    }
                },
            };
            let r = Some(vec![d]);
            proof {
                assert(db_views(r) =~~= db_values_of(orig, like_kind));
            }
            r
        },
        JsonValue::Object(o) => {
            let r = Some(vec![DbValue::Json(JsonValue::Object(o))]);
            proof {
                assert(db_views(r) =~~= db_values_of(orig, like_kind));
            }
            r
        },
        JsonValue::Array(a) => {
            let n = a.len();
            if n == 0 {
                return None;
            }
            let ghost all = a@;
            let ghost av = a;
            let ghost all = a@;
            let mut rest = a;
            let mut out: Vec<DbValue> = Vec::new();
            let mut k: usize = 0;
            proof {
                assert(all.take(0) =~= Seq::<JsonValue>::empty());
                assert(out@.map_values(|d: DbValue| db_view(d)) =~= Seq::<DbValueSpec>::empty());
            }
            while k < n
                invariant
                    k <= n,
                    n == all.len(),
                    json_value == orig,
                    orig == JsonValue::Array(av),
                    all == av@,
                    rest@ == all.skip(k as int),
                    elems_db_values(all.take(k as int), like_kind) == Some(out@.map_values(|d: DbValue| db_view(d))),
                decreases n - k,
            {
                let e = rest.remove(0);
                proof {
                    assert(e == all[k as int]);
                    assert(rest@ =~= all.skip(k + 1));
                    assert(orig->Array_0 == av);
                    assert(decreases_to!(orig => orig->Array_0));
                    assert(decreases_to!(av => av@));
                    assert(decreases_to!(av@ => av@[k as int]));
                    assert(decreases_to!(json_value => e));
                }
                let sub = json_to_sea_orm_value(e, like_kind);
                proof {
                    assert(all.take(k + 1).drop_last() =~= all.take(k as int));
                    assert(all.take(k + 1).last() == all[k as int]);
                }
                match sub {
                    Some(vs) => {
                        let ghost before = out@;
                        let mut vs = vs;
                        let ghost vsv = vs@;
                        out.append(&mut vs);
                        proof {
                            assert(out@.map_values(|d: DbValue| db_view(d)) =~= before.map_values(|d: DbValue| db_view(d))
                                + vsv.map_values(|d: DbValue| db_view(d)));
                        }
                    },
                    None => {
                        proof {
                            lemma_elems_none(all, (k + 1) as int, like_kind);
                        }
                        return None;
                    },
                }
                k = k + 1;
            }
            proof {
                assert(all.take(n as int) =~= all);
            }
            Some(out)
        },
    }
}

/// When a prefix of the elements has no values, neither have all of them.
proof fn lemma_elems_none(s: Seq<JsonValue>, k: int, like_kind: BasicQueryOpKind)
    requires
        0 <= k <= s.len(),
        elems_db_values(s.take(k), like_kind) is None,
    ensures
        elems_db_values(s, like_kind) is None,
    decreases s.len(),
{
    if k < s.len() {
        assert(s.drop_last().take(k) =~= s.take(k));
        lemma_elems_none(s.drop_last(), k, like_kind);
    } else {
        assert(s.take(k) =~= s);
    }
}

} // verus!
