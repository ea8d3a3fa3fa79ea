//! Rbum configuration
//!
//! Rbum 配置
use crate::text::{chars_of, contains_chars, contains_seq};
use vstd::prelude::*;
use vstd::string::StringExecFns;

verus! {

/// Rbum configuration
///
/// Rbum 配置
#[derive(Debug, Clone)]
pub struct RbumConfig {
    /// The length of the system code of the set category(node)
    pub set_cate_sys_code_node_len: usize,
    /// The topic of the message queue when the entity is deleted
    pub mq_topic_entity_deleted: String,
    /// The topic of the message queue when the event occurs
    pub mq_topic_event: String,
    pub mq_header_name_operator: String,
    pub task_mq_topic_event: String,
    /// Cache key prefix for resource set code (``set_code -> set_id``)
    pub cache_key_set_code_: String,
    /// Cache key expiration time for resource set code
    pub cache_key_set_code_expire_sec: usize,
    /// Cache key prefix for certificate verification code information (``own_paths:ak -> vcode``)
    pub cache_key_cert_vcode_info_: String,
    /// Cache key prefix for locked certificate (``rbum_item_id -> nil``)
    pub cache_key_cert_locked_: String,
    /// Cache key prefix for certificate error times (``rbum_item_id -> error times by cycle``)
    pub cache_key_cert_err_times_: String,
    /// Event domain configuration: ``table name (matched as a part of the name) -> <c><u><d>``
    pub event_domains: Vec<(String, String)>,
    /// Header name of BIOS context request
    pub head_key_bios_ctx: String,
    pub sm4_key: String,
    pub sm4_iv: String,
    /// The key of the storage encryption of the sensitive relation attributes
    pub secret_attr_key: String,
    /// Whether the sensitive relation attributes are stored encrypted
    pub secret_attr_encrypt: bool,
}

/// The values of the default configuration.
pub open spec fn is_default_config(c: RbumConfig) -> bool {
    &&& c.set_cate_sys_code_node_len == 4
    &&& c.mq_topic_entity_deleted@ == "rbum::entity_deleted"@
    &&& c.mq_topic_event@ == "rbum::event"@
    &&& c.mq_header_name_operator@ == "OP"@
    &&& c.task_mq_topic_event@ == "rbum::task::event"@
    &&& c.cache_key_cert_vcode_info_@ == "rbum:cache:cert:vcode:"@
    &&& c.cache_key_set_code_@ == "rbum:cache:set:code:"@
    &&& c.cache_key_set_code_expire_sec == 60 * 60 * 24
    &&& c.cache_key_cert_locked_@ == "rbum:cert:locked:"@
    &&& c.cache_key_cert_err_times_@ == "rbum:cert:err_times:"@
    &&& c.event_domains@.len() == 1
    &&& c.event_domains@[0].0@ == "rbum_"@
    &&& c.event_domains@[0].1@ == "cud"@
    &&& c.head_key_bios_ctx@ == "Bios-Ctx"@
    &&& c.sm4_key@ == "1234567890abcdef"@
    &&& c.sm4_iv@ == "1234567890abcdef"@
    &&& c.secret_attr_key@ == Seq::<char>::empty()
    &&& !c.secret_attr_encrypt
}

impl Default for RbumConfig {
    fn default() -> (r: Self)
        ensures
            is_default_config(r),
    {
        let mut event_domains: Vec<(String, String)> = Vec::new();
        event_domains.push((String::from_str("rbum_"), String::from_str("cud")));
        RbumConfig {
            set_cate_sys_code_node_len: 4,
            mq_topic_entity_deleted: String::from_str("rbum::entity_deleted"),
            mq_topic_event: String::from_str("rbum::event"),
            mq_header_name_operator: String::from_str("OP"),
            task_mq_topic_event: String::from_str("rbum::task::event"),
            cache_key_cert_vcode_info_: String::from_str("rbum:cache:cert:vcode:"),
            cache_key_set_code_: String::from_str("rbum:cache:set:code:"),
            cache_key_set_code_expire_sec: 60 * 60 * 24,
            cache_key_cert_locked_: String::from_str("rbum:cert:locked:"),
            cache_key_cert_err_times_: String::from_str("rbum:cert:err_times:"),
            event_domains,
            head_key_bios_ctx: String::from_str("Bios-Ctx"),
            sm4_key: String::from_str("1234567890abcdef"),
            sm4_iv: String::from_str("1234567890abcdef"),
            secret_attr_key: String::new(),
            secret_attr_encrypt: false,
        }
    }
}

/// Whether an operation on a table raises an event under the event domains: some
/// domain's table-name part occurs in the table name and its operations contain the
/// operation.
pub open spec fn event_matches(domains: Seq<(String, String)>, table_name: Seq<char>, operate: Seq<char>) -> bool {
    exists|i: int|
        0 <= i < domains.len() && contains_seq(table_name, (#[trigger] domains[i]).0@) && contains_seq(
            domains[i].1@,
            operate,
        )
}

/// The configuration registered for a module code: the first entry with that code.
pub open spec fn config_of(entries: Seq<(String, RbumConfig)>, code: Seq<char>) -> Option<RbumConfig>
    decreases entries.len(),
{
    if entries.len() == 0 {
        None
    } else if entries[0].0@ == code {
        Some(entries[0].1)
    } else {
        config_of(entries.drop_first(), code)
    }
}

/// `after` is `before` with the configuration of a module code registered (or replaced).
pub open spec fn added(before: RbumConfigManager, after: RbumConfigManager, code: Seq<char>, config: RbumConfig) -> bool {
    &&& after.config(code) == Some(config)
    &&& forall|other: Seq<char>| other != code ==> after.config(other) == before.config(other)
}

/// Reading after adding: once a configuration is added for a module, reading the module
/// gives that configuration, while the other modules read as before; so `get_config` after
/// `add` calls its function on the added configuration, and `match_event` reads its event
/// domains.
pub proof fn lemma_read_after_add(
    before: RbumConfigManager,
    after: RbumConfigManager,
    code: Seq<char>,
    config: RbumConfig,
    other: Seq<char>,
)
    requires
        added(before, after, code, config),
    ensures
        after.config(code) is Some,
        after.config(code)->0 == config,
        other != code ==> after.config(other) == before.config(other),
{
}

/// The configurations of the modules, by module code.
pub struct RbumConfigManager {
    entries: Vec<(String, RbumConfig)>,
}

impl RbumConfigManager {
    /// The configuration of each module code.
    pub closed spec fn config(&self, code: Seq<char>) -> Option<RbumConfig> {
        config_of(self.entries@, code)
    }

    /// A manager without configurations.
    pub fn new() -> (r: Self)
        ensures
            forall|code: Seq<char>| r.config(code) is None,
    {
        RbumConfigManager { entries: Vec::new() }
    }

    /// The index of the first entry with the code, if any.
    fn find(&self, code: &str) -> (r: Option<usize>)
        ensures
            r matches Some(i) ==> i < self.entries@.len() && self.entries@[i as int].0@ == code@
                && forall|j: int| 0 <= j < i ==> self.entries@[j].0@ != code@,
            r is None ==> forall|j: int|
                0 <= j < self.entries@.len() ==> self.entries@[j].0@ != code@,
    {
        let c = chars_of(code);
        let mut i: usize = 0;
        while i < self.entries.len()
            invariant
                i <= self.entries@.len(),
                c@ == code@,
                forall|j: int| 0 <= j < i ==> self.entries@[j].0@ != code@,
            decreases self.entries@.len() - i,
        {
            let k = chars_of(self.entries[i].0.as_str());
            if crate::text::eq_chars(&k, &c) {
                return Some(i);
            }
            i = i + 1;
        }
        None
    }

    /// Register (or replace) the configuration of a module.
    pub fn add(&mut self, code: &str, config: RbumConfig)
        ensures
            added(*old(self), *final(self), code@, config),
    {
        let ghost before = self.entries@;
        match self.find(code) {
            Some(i) => {
                self.entries.set(i, (String::from_str(code), config));
                proof {
                    lemma_config_of_update(before, i as int, code@, config);
                }
            },
            None => {
                self.entries.push((String::from_str(code), config));
                proof {
                    lemma_config_of_push(before, code@, config);
                }
            },
        }
    }

    /// Read the configuration of a module through a function.
    pub fn get_config<F, T>(&self, code: &str, fun: F) -> (r: T) where F: Fn(&RbumConfig) -> T
        requires
            self.config(code@) is Some,
            forall|c: &RbumConfig| #[trigger] fun.requires((c,)),
        ensures
            fun.ensures((&self.config(code@)->0,), r),
    {
        let found = self.find(code);
        proof {
            if found is None {
                lemma_config_of_absent(self.entries@, code@);
            }
        }
        let i = found.unwrap();
        proof {
            lemma_config_of_first(self.entries@, i as int, code@);
        }
        fun(&self.entries[i].1)
    }

    /// Read the configuration of a module through a function, when it is registered.
    pub fn try_get_config<F, T>(&self, code: &str, fun: F) -> (r: Option<T>) where
        F: Fn(&RbumConfig) -> T,
        requires
            forall|c: &RbumConfig| #[trigger] fun.requires((c,)),
        ensures
            self.config(code@) is None ==> r is None,
            self.config(code@) matches Some(c) ==> (r matches Some(t) && fun.ensures((&c,), t)),
    {
        match self.find(code) {
            Some(i) => {
                proof {
                    lemma_config_of_first(self.entries@, i as int, code@);
                }
                Some(fun(&self.entries[i].1))
            },
            None => {
                proof {
                    lemma_config_of_absent(self.entries@, code@);
                }
                None
            },
        }
    }

    /// Whether an operation on a table raises an event in a module.
    pub fn match_event(&self, code: &str, table_name: &str, operate: &str) -> (r: bool)
        requires
            self.config(code@) is Some,
        ensures
            r == event_matches(self.config(code@)->0.event_domains@, table_name@, operate@),
    {
        let found = self.find(code);
        proof {
            if found is None {
                lemma_config_of_absent(self.entries@, code@);
            }
        }
        let i = found.unwrap();
        proof {
            lemma_config_of_first(self.entries@, i as int, code@);
        }
        domains_match(&self.entries[i].1.event_domains, table_name, operate)
    }
}


/// Whether an operation on a table raises an event under the event domains.
fn domains_match(domains: &Vec<(String, String)>, table_name: &str, operate: &str) -> (r: bool)
    ensures
        r == event_matches(domains@, table_name@, operate@),
{
    let t = chars_of(table_name);
    let o = chars_of(operate);
    let mut j: usize = 0;
    while j < domains.len()
        invariant
            j <= domains@.len(),
            t@ == table_name@,
            o@ == operate@,
            forall|k: int|
                0 <= k < j ==> !(contains_seq(table_name@, (#[trigger] domains@[k]).0@)
                    && contains_seq(domains@[k].1@, operate@)),
        decreases domains@.len() - j,
    {
        let k = chars_of(domains[j].0.as_str());
        let v = chars_of(domains[j].1.as_str());
        if contains_chars(&t, &k) && contains_chars(&v, &o) {
            return true;
        }
        j = j + 1;
    }
    false
}

proof fn lemma_config_of_first(entries: Seq<(String, RbumConfig)>, i: int, code: Seq<char>)
    requires
        0 <= i < entries.len(),
        entries[i].0@ == code,
        forall|j: int| 0 <= j < i ==> entries[j].0@ != code,
    ensures
        config_of(entries, code) == Some(entries[i].1),
    decreases i,
{
    if i > 0 {
        let t = entries.drop_first();
        assert forall|j: int| 0 <= j < i - 1 implies t[j].0@ != code by {
            assert(t[j] == entries[j + 1]);
        }
        lemma_config_of_first(t, i - 1, code);
    }
}

proof fn lemma_config_of_absent(entries: Seq<(String, RbumConfig)>, code: Seq<char>)
    requires
        forall|j: int| 0 <= j < entries.len() ==> entries[j].0@ != code,
    ensures
        config_of(entries, code) is None,
    decreases entries.len(),
{
    if entries.len() > 0 {
        let t = entries.drop_first();
        assert forall|j: int| 0 <= j < t.len() implies t[j].0@ != code by {
            assert(t[j] == entries[j + 1]);
        }
        lemma_config_of_absent(t, code);
    }
}

proof fn lemma_config_of_update(
    entries: Seq<(String, RbumConfig)>,
    i: int,
    code: Seq<char>,
    config: RbumConfig,
)
    requires
        0 <= i < entries.len(),
        entries[i].0@ == code,
        forall|j: int| 0 <= j < i ==> entries[j].0@ != code,
    ensures
        forall|s: String| #![auto] s@ == code ==> config_of(entries.update(i, (s, config)), code)
            == Some(config),
        forall|s: String, other: Seq<char>|
            #![auto]
            s@ == code && other != code ==> config_of(entries.update(i, (s, config)), other)
                == config_of(entries, other),
    decreases entries.len(),
{
    assert forall|s: String| #![auto] s@ == code implies config_of(entries.update(i, (s, config)), code)
        == Some(config) by {
        let e = entries.update(i, (s, config));
        assert forall|j: int| 0 <= j < i implies e[j].0@ != code by {
            assert(e[j] == entries[j]);
        }
        lemma_config_of_first(e, i, code);
    }
    assert forall|s: String, other: Seq<char>|
        #![auto]
        s@ == code && other != code implies config_of(entries.update(i, (s, config)), other)
        == config_of(entries, other) by {
        lemma_config_of_update_other(entries, i, (s, config), other);
    }
}

proof fn lemma_config_of_update_other(
    entries: Seq<(String, RbumConfig)>,
    i: int,
    e: (String, RbumConfig),
    other: Seq<char>,
)
    requires
        0 <= i < entries.len(),
        entries[i].0@ == e.0@,
        e.0@ != other,
    ensures
        config_of(entries.update(i, e), other) == config_of(entries, other),
    decreases entries.len(),
{
    let u = entries.update(i, e);
    if i > 0 {
        assert(u.drop_first() =~= entries.drop_first().update(i - 1, e));
        assert(u[0] == entries[0]);
        lemma_config_of_update_other(entries.drop_first(), i - 1, e, other);
    } else {
        assert(u.drop_first() =~= entries.drop_first());
    }
}

proof fn lemma_config_of_push(entries: Seq<(String, RbumConfig)>, code: Seq<char>, config: RbumConfig)
    requires
        forall|j: int| 0 <= j < entries.len() ==> entries[j].0@ != code,
    ensures
        forall|s: String| #![auto] s@ == code ==> config_of(entries.push((s, config)), code) == Some(
            config,
        ),
        forall|s: String, other: Seq<char>|
            #![auto]
            s@ == code && other != code ==> config_of(entries.push((s, config)), other) == config_of(
                entries,
                other,
            ),
    decreases entries.len(),
{
    assert forall|s: String| #![auto] s@ == code implies config_of(entries.push((s, config)), code)
        == Some(config) by {
        let e = entries.push((s, config));
        assert forall|j: int| 0 <= j < entries.len() implies e[j].0@ != code by {
            assert(e[j] == entries[j]);
        }
        lemma_config_of_first(e, entries.len() as int, code);
    }
    assert forall|s: String, other: Seq<char>|
        #![auto]
        s@ == code && other != code implies config_of(entries.push((s, config)), other)
        == config_of(entries, other) by {
        lemma_config_of_push_other(entries, (s, config), other);
    }
}

proof fn lemma_config_of_push_other(entries: Seq<(String, RbumConfig)>, e: (String, RbumConfig), other: Seq<char>)
    requires
        e.0@ != other,
    ensures
        config_of(entries.push(e), other) == config_of(entries, other),
    decreases entries.len(),
{
    let p = entries.push(e);
    if entries.len() > 0 {
        assert(p[0] == entries[0]);
        assert(p.drop_first() =~= entries.drop_first().push(e));
        lemma_config_of_push_other(entries.drop_first(), e, other);
    } else {
        assert(p[0] == e);
        assert(p.drop_first() =~= Seq::<(String, RbumConfig)>::empty());
        assert(config_of(p.drop_first(), other) is None);
    }
}

/// Access to the configuration values of a module.
pub trait RbumConfigApi {
    fn rbum_conf_set_cate_sys_code_node_len(&self) -> usize;

    fn rbum_conf_mq_topic_entity_deleted(&self) -> String;

    fn rbum_conf_mq_topic_event(&self) -> String;

    fn rbum_conf_task_mq_topic_event(&self) -> String;

    fn rbum_conf_mq_header_name_operator(&self) -> String;

    fn rbum_conf_cache_key_cert_vcode_info_(&self) -> String;

    fn rbum_conf_cache_key_set_code_(&self) -> String;

    fn rbum_conf_cache_key_set_code_expire_sec(&self) -> usize;

    fn rbum_conf_cache_key_cert_locked_(&self) -> String;

    fn rbum_conf_cache_key_cert_err_times_(&self) -> String;

    fn rbum_conf_match_event(&self, table_name: &str, operate: &str) -> bool;

    fn rbum_head_key_bios_ctx(&self) -> String;

    fn rbum_conf_sm4_key(&self) -> String;

    fn rbum_conf_sm4_iv(&self) -> String;
}


impl RbumConfigApi for RbumConfig {
    fn rbum_conf_set_cate_sys_code_node_len(&self) -> (r: usize)
        ensures
            r == self.set_cate_sys_code_node_len,
    {
        self.set_cate_sys_code_node_len
    }

    fn rbum_conf_mq_topic_entity_deleted(&self) -> (r: String)
        ensures
            r@ == self.mq_topic_entity_deleted@,
    {
        self.mq_topic_entity_deleted.clone()
    }

    fn rbum_conf_mq_topic_event(&self) -> (r: String)
        ensures
            r@ == self.mq_topic_event@,
    {
        self.mq_topic_event.clone()
    }

    fn rbum_conf_task_mq_topic_event(&self) -> (r: String)
        ensures
            r@ == self.task_mq_topic_event@,
    {
        self.task_mq_topic_event.clone()
    }

    fn rbum_conf_mq_header_name_operator(&self) -> (r: String)
        ensures
            r@ == self.mq_header_name_operator@,
    {
        self.mq_header_name_operator.clone()
    }

    fn rbum_conf_cache_key_cert_vcode_info_(&self) -> (r: String)
        ensures
            r@ == self.cache_key_cert_vcode_info_@,
    {
        self.cache_key_cert_vcode_info_.clone()
    }

    fn rbum_conf_cache_key_set_code_(&self) -> (r: String)
        ensures
            r@ == self.cache_key_set_code_@,
    {
        self.cache_key_set_code_.clone()
    }

    fn rbum_conf_cache_key_set_code_expire_sec(&self) -> (r: usize)
        ensures
            r == self.cache_key_set_code_expire_sec,
    {
        self.cache_key_set_code_expire_sec
    }

    fn rbum_conf_cache_key_cert_locked_(&self) -> (r: String)
        ensures
            r@ == self.cache_key_cert_locked_@,
    {
        self.cache_key_cert_locked_.clone()
    }

    fn rbum_conf_cache_key_cert_err_times_(&self) -> (r: String)
        ensures
            r@ == self.cache_key_cert_err_times_@,
    {
        self.cache_key_cert_err_times_.clone()
    }

    fn rbum_conf_match_event(&self, table_name: &str, operate: &str) -> (r: bool)
        ensures
            r == event_matches(self.event_domains@, table_name@, operate@),
    {
        domains_match(&self.event_domains, table_name, operate)
    }

    fn rbum_head_key_bios_ctx(&self) -> (r: String)
        ensures
            r@ == self.head_key_bios_ctx@,
    {
        self.head_key_bios_ctx.clone()
    }

    fn rbum_conf_sm4_key(&self) -> (r: String)
        ensures
            r@ == self.sm4_key@,
    {
        self.sm4_key.clone()
    }

    fn rbum_conf_sm4_iv(&self) -> (r: String)
        ensures
            r@ == self.sm4_iv@,
    {
        self.sm4_iv.clone()
    }
}

} // verus!
