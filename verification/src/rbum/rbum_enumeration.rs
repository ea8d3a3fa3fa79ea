//! RBUM enumerations and their integer encodings.
use crate::error::BasicError;
use vstd::prelude::*;

verus! {

/// Scope level kind
///
/// 作用域层级类型
#[derive(Debug, Clone, Copy, PartialEq, Eq, Structural)]
pub enum RbumScopeLevelKind {
    /// Private: only the current level is visible.
    Private,
    /// (Global) fully open.
    Root,
    /// The first level: the current level and its descendants are visible.
    L1,
    /// The second level: the current level and its descendants are visible.
    L2,
    /// The third level: the current level and its descendants are visible.
    L3,
}

/// The integer that encodes each value of [`RbumScopeLevelKind`].
pub open spec fn int_of_scope_level(k: RbumScopeLevelKind) -> i16 {
    match k {
        RbumScopeLevelKind::Private => -1i16,
        RbumScopeLevelKind::Root => 0,
        RbumScopeLevelKind::L1 => 1,
        RbumScopeLevelKind::L2 => 2,
        RbumScopeLevelKind::L3 => 3,
    }
}

/// The value of [`RbumScopeLevelKind`] that an integer encodes, if any.
pub open spec fn scope_level_of_int(s: i16) -> Option<RbumScopeLevelKind> {
    if s == -1i16 {
        Some(RbumScopeLevelKind::Private)
    } else if s == 0 {
        Some(RbumScopeLevelKind::Root)
    } else if s == 1 {
        Some(RbumScopeLevelKind::L1)
    } else if s == 2 {
        Some(RbumScopeLevelKind::L2)
    } else if s == 3 {
        Some(RbumScopeLevelKind::L3)
    } else {
        None
    }
}

impl RbumScopeLevelKind {
    /// Decode the integer stored for a [`RbumScopeLevelKind`].
    pub fn from_int(s: i16) -> (r: Result<RbumScopeLevelKind, BasicError>)
        ensures
            scope_level_of_int(s) matches Some(k) ==> r == Ok::<RbumScopeLevelKind, BasicError>(k),
            scope_level_of_int(s) is None ==> r == Err::<RbumScopeLevelKind, BasicError>(BasicError::InvalidEnumValue),
    {
        match s {
            -1i16 => Ok(RbumScopeLevelKind::Private),
            0 => Ok(RbumScopeLevelKind::Root),
            1 => Ok(RbumScopeLevelKind::L1),
            2 => Ok(RbumScopeLevelKind::L2),
            3 => Ok(RbumScopeLevelKind::L3),
            _ => Err(BasicError::InvalidEnumValue),
        }
    }

    /// The integer stored for this [`RbumScopeLevelKind`].
    pub fn to_int(&self) -> (r: i16)
        ensures
            r == int_of_scope_level(*self),
    {
        match self {
            RbumScopeLevelKind::Private => -1i16,
            RbumScopeLevelKind::Root => 0,
            RbumScopeLevelKind::L1 => 1,
            RbumScopeLevelKind::L2 => 2,
            RbumScopeLevelKind::L3 => 3,
        }
    }
}

/// Decoding the integer of a [`RbumScopeLevelKind`] gives the value back, and every integer that
/// decodes is the integer of the value it decodes to.
pub proof fn lemma_scope_level_int_round_trip(k: RbumScopeLevelKind, s: i16)
    ensures
        scope_level_of_int(int_of_scope_level(k)) == Some(k),
        scope_level_of_int(s) matches Some(j) ==> int_of_scope_level(j) == s,
{
}

/// Certificate relationship kind
///
/// 凭证关联的类型
#[derive(Debug, Clone, Copy, PartialEq, Eq, Structural)]
pub enum RbumCertRelKind {
    /// Resource item
    Item,
    /// Resource set
    RbumSet,
    /// Resource relation
    Rel,
}

/// The integer that encodes each value of [`RbumCertRelKind`].
pub open spec fn int_of_cert_rel(k: RbumCertRelKind) -> i16 {
    match k {
        RbumCertRelKind::Item => 0,
        RbumCertRelKind::RbumSet => 1,
        RbumCertRelKind::Rel => 2,
    }
}

/// The value of [`RbumCertRelKind`] that an integer encodes, if any.
pub open spec fn cert_rel_of_int(s: i16) -> Option<RbumCertRelKind> {
    if s == 0 {
        Some(RbumCertRelKind::Item)
    } else if s == 1 {
        Some(RbumCertRelKind::RbumSet)
    } else if s == 2 {
        Some(RbumCertRelKind::Rel)
    } else {
        None
    }
}

impl RbumCertRelKind {
    /// Decode the integer stored for a [`RbumCertRelKind`].
    pub fn from_int(s: i16) -> (r: Result<RbumCertRelKind, BasicError>)
        ensures
            cert_rel_of_int(s) matches Some(k) ==> r == Ok::<RbumCertRelKind, BasicError>(k),
            cert_rel_of_int(s) is None ==> r == Err::<RbumCertRelKind, BasicError>(BasicError::InvalidEnumValue),
    {
        match s {
            0 => Ok(RbumCertRelKind::Item),
            1 => Ok(RbumCertRelKind::RbumSet),
            2 => Ok(RbumCertRelKind::Rel),
            _ => Err(BasicError::InvalidEnumValue),
        }
    }

    /// The integer stored for this [`RbumCertRelKind`].
    pub fn to_int(&self) -> (r: i16)
        ensures
            r == int_of_cert_rel(*self),
    {
        match self {
            RbumCertRelKind::Item => 0,
            RbumCertRelKind::RbumSet => 1,
            RbumCertRelKind::Rel => 2,
        }
    }
}

/// Decoding the integer of a [`RbumCertRelKind`] gives the value back, and every integer that
/// decodes is the integer of the value it decodes to.
pub proof fn lemma_cert_rel_int_round_trip(k: RbumCertRelKind, s: i16)
    ensures
        cert_rel_of_int(int_of_cert_rel(k)) == Some(k),
        cert_rel_of_int(s) matches Some(j) ==> int_of_cert_rel(j) == s,
{
}

/// Resource certificate configuration status kind
///
/// 资源凭证配置状态类型
#[derive(Debug, Clone, Copy, PartialEq, Eq, Structural)]
pub enum RbumCertConfStatusKind {
    /// Disabled
    Disabled,
    /// Enabled
    Enabled,
}

/// The integer that encodes each value of [`RbumCertConfStatusKind`].
pub open spec fn int_of_cert_conf_status(k: RbumCertConfStatusKind) -> i16 {
    match k {
        RbumCertConfStatusKind::Disabled => 0,
        RbumCertConfStatusKind::Enabled => 1,
    }
}

/// The value of [`RbumCertConfStatusKind`] that an integer encodes, if any.
pub open spec fn cert_conf_status_of_int(s: i16) -> Option<RbumCertConfStatusKind> {
    if s == 0 {
        Some(RbumCertConfStatusKind::Disabled)
    } else if s == 1 {
        Some(RbumCertConfStatusKind::Enabled)
    } else {
        None
    }
}

impl RbumCertConfStatusKind {
    /// Decode the integer stored for a [`RbumCertConfStatusKind`].
    pub fn from_int(s: i16) -> (r: Result<RbumCertConfStatusKind, BasicError>)
        ensures
            cert_conf_status_of_int(s) matches Some(k) ==> r == Ok::<RbumCertConfStatusKind, BasicError>(k),
            cert_conf_status_of_int(s) is None ==> r == Err::<RbumCertConfStatusKind, BasicError>(BasicError::InvalidEnumValue),
    {
        match s {
            0 => Ok(RbumCertConfStatusKind::Disabled),
            1 => Ok(RbumCertConfStatusKind::Enabled),
            _ => Err(BasicError::InvalidEnumValue),
        }
    }

    /// The integer stored for this [`RbumCertConfStatusKind`].
    pub fn to_int(&self) -> (r: i16)
        ensures
            r == int_of_cert_conf_status(*self),
    {
        match self {
            RbumCertConfStatusKind::Disabled => 0,
            RbumCertConfStatusKind::Enabled => 1,
        }
    }
}

/// Decoding the integer of a [`RbumCertConfStatusKind`] gives the value back, and every integer that
/// decodes is the integer of the value it decodes to.
pub proof fn lemma_cert_conf_status_int_round_trip(k: RbumCertConfStatusKind, s: i16)
    ensures
        cert_conf_status_of_int(int_of_cert_conf_status(k)) == Some(k),
        cert_conf_status_of_int(s) matches Some(j) ==> int_of_cert_conf_status(j) == s,
{
}

/// Resource certificate status kind
///
/// 资源凭证状态类型
#[derive(Debug, Clone, Copy, PartialEq, Eq, Structural)]
pub enum RbumCertStatusKind {
    /// Disabled
    Disabled,
    /// Enabled
    Enabled,
    /// Pending
    Pending,
}

/// The integer that encodes each value of [`RbumCertStatusKind`].
pub open spec fn int_of_cert_status(k: RbumCertStatusKind) -> i16 {
    match k {
        RbumCertStatusKind::Disabled => 0,
        RbumCertStatusKind::Enabled => 1,
        RbumCertStatusKind::Pending => 2,
    }
}

/// The value of [`RbumCertStatusKind`] that an integer encodes, if any.
pub open spec fn cert_status_of_int(s: i16) -> Option<RbumCertStatusKind> {
    if s == 0 {
        Some(RbumCertStatusKind::Disabled)
    } else if s == 1 {
        Some(RbumCertStatusKind::Enabled)
    } else if s == 2 {
        Some(RbumCertStatusKind::Pending)
    } else {
        None
    }
}

impl RbumCertStatusKind {
    /// Decode the integer stored for a [`RbumCertStatusKind`].
    pub fn from_int(s: i16) -> (r: Result<RbumCertStatusKind, BasicError>)
        ensures
            cert_status_of_int(s) matches Some(k) ==> r == Ok::<RbumCertStatusKind, BasicError>(k),
            cert_status_of_int(s) is None ==> r == Err::<RbumCertStatusKind, BasicError>(BasicError::InvalidEnumValue),
    {
        match s {
            0 => Ok(RbumCertStatusKind::Disabled),
            1 => Ok(RbumCertStatusKind::Enabled),
            2 => Ok(RbumCertStatusKind::Pending),
            _ => Err(BasicError::InvalidEnumValue),
        }
    }

    /// The integer stored for this [`RbumCertStatusKind`].
    pub fn to_int(&self) -> (r: i16)
        ensures
            r == int_of_cert_status(*self),
    {
        match self {
            RbumCertStatusKind::Disabled => 0,
            RbumCertStatusKind::Enabled => 1,
            RbumCertStatusKind::Pending => 2,
        }
    }
}

/// Decoding the integer of a [`RbumCertStatusKind`] gives the value back, and every integer that
/// decodes is the integer of the value it decodes to.
pub proof fn lemma_cert_status_int_round_trip(k: RbumCertStatusKind, s: i16)
    ensures
        cert_status_of_int(int_of_cert_status(k)) == Some(k),
        cert_status_of_int(s) matches Some(j) ==> int_of_cert_status(j) == s,
{
}

/// Resource relation kind
///
/// 资源关联的类型
#[derive(Debug, Clone, Copy, PartialEq, Eq, Structural)]
pub enum RbumRelFromKind {
    /// Resource item
    Item,
    /// Resource set
    RbumSet,
    /// Resource set category (node)
    SetCate,
    /// Resource certificate
    Cert,
}

/// The integer that encodes each value of [`RbumRelFromKind`].
pub open spec fn int_of_rel_from(k: RbumRelFromKind) -> i16 {
    match k {
        RbumRelFromKind::Item => 0,
        RbumRelFromKind::RbumSet => 1,
        RbumRelFromKind::SetCate => 2,
        RbumRelFromKind::Cert => 3,
    }
}

/// The value of [`RbumRelFromKind`] that an integer encodes, if any.
pub open spec fn rel_from_of_int(s: i16) -> Option<RbumRelFromKind> {
    if s == 0 {
        Some(RbumRelFromKind::Item)
    } else if s == 1 {
        Some(RbumRelFromKind::RbumSet)
    } else if s == 2 {
        Some(RbumRelFromKind::SetCate)
    } else if s == 3 {
        Some(RbumRelFromKind::Cert)
    } else {
        None
    }
}

impl RbumRelFromKind {
    /// Decode the integer stored for a [`RbumRelFromKind`].
    pub fn from_int(s: i16) -> (r: Result<RbumRelFromKind, BasicError>)
        ensures
            rel_from_of_int(s) matches Some(k) ==> r == Ok::<RbumRelFromKind, BasicError>(k),
            rel_from_of_int(s) is None ==> r == Err::<RbumRelFromKind, BasicError>(BasicError::InvalidEnumValue),
    {
        match s {
            0 => Ok(RbumRelFromKind::Item),
            1 => Ok(RbumRelFromKind::RbumSet),
            2 => Ok(RbumRelFromKind::SetCate),
            3 => Ok(RbumRelFromKind::Cert),
            _ => Err(BasicError::InvalidEnumValue),
        }
    }

    /// The integer stored for this [`RbumRelFromKind`].
    pub fn to_int(&self) -> (r: i16)
        ensures
            r == int_of_rel_from(*self),
    {
        match self {
            RbumRelFromKind::Item => 0,
            RbumRelFromKind::RbumSet => 1,
            RbumRelFromKind::SetCate => 2,
            RbumRelFromKind::Cert => 3,
        }
    }
}

/// Decoding the integer of a [`RbumRelFromKind`] gives the value back, and every integer that
/// decodes is the integer of the value it decodes to.
pub proof fn lemma_rel_from_int_round_trip(k: RbumRelFromKind, s: i16)
    ensures
        rel_from_of_int(int_of_rel_from(k)) == Some(k),
        rel_from_of_int(s) matches Some(j) ==> int_of_rel_from(j) == s,
{
}

/// Resource relation environment kind, used to attach restrictions to a relation
///
/// 资源关联环境类型
#[derive(Debug, Clone, Copy, PartialEq, Eq, Structural)]
pub enum RbumRelEnvKind {
    /// Datetime range, as UNIX timestamps
    DatetimeRange,
    /// Time range, as ``hhmmss``
    TimeRange,
    /// IP list, as ``ip1,ip2,ip3``
    Ips,
    /// Call frequency: the request value must be at most the set value
    CallFrequency,
    /// Call count: the request value must be at most the set value
    CallCount,
}

/// The integer that encodes each value of [`RbumRelEnvKind`].
pub open spec fn int_of_rel_env(k: RbumRelEnvKind) -> i16 {
    match k {
        RbumRelEnvKind::DatetimeRange => 0,
        RbumRelEnvKind::TimeRange => 1,
        RbumRelEnvKind::Ips => 2,
        RbumRelEnvKind::CallFrequency => 3,
        RbumRelEnvKind::CallCount => 4,
    }
}

/// The value of [`RbumRelEnvKind`] that an integer encodes, if any.
pub open spec fn rel_env_of_int(s: i16) -> Option<RbumRelEnvKind> {
    if s == 0 {
        Some(RbumRelEnvKind::DatetimeRange)
    } else if s == 1 {
        Some(RbumRelEnvKind::TimeRange)
    } else if s == 2 {
        Some(RbumRelEnvKind::Ips)
    } else if s == 3 {
        Some(RbumRelEnvKind::CallFrequency)
    } else if s == 4 {
        Some(RbumRelEnvKind::CallCount)
    } else {
        None
    }
}

impl RbumRelEnvKind {
    /// Decode the integer stored for a [`RbumRelEnvKind`].
    pub fn from_int(s: i16) -> (r: Result<RbumRelEnvKind, BasicError>)
        ensures
            rel_env_of_int(s) matches Some(k) ==> r == Ok::<RbumRelEnvKind, BasicError>(k),
            rel_env_of_int(s) is None ==> r == Err::<RbumRelEnvKind, BasicError>(BasicError::InvalidEnumValue),
    {
        match s {
            0 => Ok(RbumRelEnvKind::DatetimeRange),
            1 => Ok(RbumRelEnvKind::TimeRange),
            2 => Ok(RbumRelEnvKind::Ips),
            3 => Ok(RbumRelEnvKind::CallFrequency),
            4 => Ok(RbumRelEnvKind::CallCount),
            _ => Err(BasicError::InvalidEnumValue),
        }
    }

    /// The integer stored for this [`RbumRelEnvKind`].
    pub fn to_int(&self) -> (r: i16)
        ensures
            r == int_of_rel_env(*self),
    {
        match self {
            RbumRelEnvKind::DatetimeRange => 0,
            RbumRelEnvKind::TimeRange => 1,
            RbumRelEnvKind::Ips => 2,
            RbumRelEnvKind::CallFrequency => 3,
            RbumRelEnvKind::CallCount => 4,
        }
    }
}

/// Decoding the integer of a [`RbumRelEnvKind`] gives the value back, and every integer that
/// decodes is the integer of the value it decodes to.
pub proof fn lemma_rel_env_int_round_trip(k: RbumRelEnvKind, s: i16)
    ensures
        rel_env_of_int(int_of_rel_env(k)) == Some(k),
        rel_env_of_int(s) matches Some(j) ==> int_of_rel_env(j) == s,
{
}

/// Resource set category (node) query kind
///
/// 资源集分类（节点）的查询类型
#[derive(Debug, Clone, Copy, PartialEq, Eq, Structural)]
pub enum RbumSetCateLevelQueryKind {
    /// Current layer and descendant layer
    CurrentAndSub,
    /// Current layer and grandfather layer
    CurrentAndParent,
    /// Descendant layer
    Sub,
    /// Grandfather layer
    Parent,
    /// Current layer only
    Current,
}

/// Data kind
///
/// 数据类型
#[derive(Debug, Clone, Copy, PartialEq, Eq, Structural)]
pub enum RbumDataTypeKind {
    String,
    Number,
    Boolean,
    Date,
    DateTime,
    Json,
    Strings,
    Numbers,
    Booleans,
    Dates,
    DateTimes,
    Array,
    Label,
}

/// Widget kind
///
/// （前端）控件类型
#[derive(Debug, Clone, Copy, PartialEq, Eq, Structural)]
pub enum RbumWidgetTypeKind {
    Input,
    InputTxt,
    InputNum,
    Textarea,
    Number,
    Date,
    DateTime,
    Upload,
    Radio,
    Button,
    Checkbox,
    Switch,
    Select,
    MultiSelect,
    Link,
    CodeEditor,
    /// Display group subtitles, ``datatype = String & value is empty``
    Container,
    /// Json fields : ``datatype = Json && all parent_attr_name = current attribute``
    Control,
    /// Sub fields :  ``datatype = Array && all parent_attr_name = current attribute``
    Group,
}

} // verus!
