//! Basic enumerations
use vstd::prelude::*;
use vstd::string::StringExecFns;

verus! {

/// API classification
///
/// API分类
#[derive(Debug, Clone, Copy, PartialEq, Eq)]
pub enum ApiTag {
    /// Common Console, mostly starting with ``cc``, generally do not require authentication.
    Common,
    /// Tenant Console, mostly starting with ``ct``
    Tenant,
    /// App Console, mostly starting with ``ca``
    App,
    /// System Console, mostly starting with ``cs``
    System,
    /// Passport Console, mostly starting with ``cp``
    Passport,
    /// Interface Console, mostly starting with ``ci``, used for system-to-system calls,
    /// this type of interface generally uses ak/sk authentication
    Interface,
}

/// Basic query operator
///
/// 基础查询操作符
#[derive(Debug, Clone, Copy, PartialEq, Eq)]
pub enum BasicQueryOpKind {
    Eq,
    Ne,
    Gt,
    Ge,
    Lt,
    Le,
    Like,
    NotLike,
    In,
    NotIn,
    IsNull,
    IsNotNull,
    IsNullOrEmpty,
}

/// The SQL operator text of each query operator.
pub open spec fn sql_of(op: BasicQueryOpKind) -> Seq<char> {
    match op {
        BasicQueryOpKind::Eq => "="@,
        BasicQueryOpKind::Ne => "!="@,
        BasicQueryOpKind::Gt => ">"@,
        BasicQueryOpKind::Ge => ">="@,
        BasicQueryOpKind::Lt => "<"@,
        BasicQueryOpKind::Le => "<="@,
        BasicQueryOpKind::Like => "LIKE"@,
        BasicQueryOpKind::NotLike => "NOT LIKE"@,
        BasicQueryOpKind::In => "IN"@,
        BasicQueryOpKind::NotIn => "NOT IN"@,
        BasicQueryOpKind::IsNull => "IS NULL"@,
        BasicQueryOpKind::IsNotNull => "IS NOT NULL"@,
        BasicQueryOpKind::IsNullOrEmpty => "IS NULL"@,
    }
}

impl BasicQueryOpKind {
    /// The SQL operator for this query operator (``IsNullOrEmpty`` maps to ``IS NULL``).
    pub fn to_sql(&self) -> (r: String)
        ensures
            r@ == sql_of(*self),
    {
        match self {
            BasicQueryOpKind::Eq => String::from_str("="),
            BasicQueryOpKind::Ne => String::from_str("!="),
            BasicQueryOpKind::Gt => String::from_str(">"),
            BasicQueryOpKind::Ge => String::from_str(">="),
            BasicQueryOpKind::Lt => String::from_str("<"),
            BasicQueryOpKind::Le => String::from_str("<="),
            BasicQueryOpKind::Like => String::from_str("LIKE"),
            BasicQueryOpKind::NotLike => String::from_str("NOT LIKE"),
            BasicQueryOpKind::In => String::from_str("IN"),
            BasicQueryOpKind::NotIn => String::from_str("NOT IN"),
            BasicQueryOpKind::IsNull => String::from_str("IS NULL"),
            BasicQueryOpKind::IsNotNull => String::from_str("IS NOT NULL"),
            BasicQueryOpKind::IsNullOrEmpty => String::from_str("IS NULL"),
        }
    }
}

} // verus!
