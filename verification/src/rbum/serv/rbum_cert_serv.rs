//! Certificate service: the checks and decisions on certificates and their configurations
//!
//! 凭证服务：凭证及凭证配置的校验与决策
use crate::error::BasicError;
use crate::rbum::dto::rbum_cert_conf_dto::{RbumCertConfAddReq, RbumCertConfDetailResp, RbumCertConfModifyReq};
use crate::rbum::dto::rbum_cert_dto::{RbumCertAddReq, RbumCertModifyReq};
use crate::helper::request_helper::{lowercase, to_lowercase};
use crate::rbum::rbum_enumeration::RbumCertRelKind;
use crate::text::{chars_of, contains_chars, contains_seq, string_of, utf8_of};
use tardis::TardisFuns;
use vstd::prelude::*;

verus! {

/// The earliest instant a time can hold, in UNIX seconds.
pub open spec fn min_time() -> int {
    -8334601315200
}

/// The latest instant a time can hold, in UNIX seconds.
pub open spec fn max_time() -> int {
    8210266876799
}

/// An instant that a time can hold.
pub open spec fn in_time_range(t: int) -> bool {
    min_time() <= t <= max_time()
}

/// A hundred years (of 365 days) in seconds: the lifetime of a certificate without
/// configuration, and of a dynamic one.
pub const HUNDRED_YEARS_SEC: i64 = 3153600000;

/// Whether the regular expression is valid.
pub uninterp spec fn regex_valid(rule: Seq<char>) -> bool;

/// Whether the regular expression matches (a part of) the text; no match when matching
/// fails.
pub uninterp spec fn regex_matches(rule: Seq<char>, text: Seq<char>) -> bool;

/// ``fancy_regex::Regex::new`` then ``Regex::is_match``: none when the rule is no valid
/// regular expression, else whether it matches the text (false when matching fails). The
/// contract names both results.
#[verifier::external_body]
fn rule_is_match(rule: &str, text: &str) -> (r: Option<bool>)
    ensures
        r is Some <==> regex_valid(rule@),
        r matches Some(b) ==> b == regex_matches(rule@, text@),
{
    match fancy_regex::Regex::new(rule) {
        Ok(re) => Some(re.is_match(text).unwrap_or(false)),
        Err(_) => None,
    }
}

/// The SHA-512 digest of the bytes, as lowercase hexadecimal.
pub uninterp spec fn sha512_hex(data: Seq<u8>) -> Seq<char>;

/// ``TardisFuns::crypto.digest.sha512``: the hexadecimal SHA-512 digest; the source always
/// succeeds. The contract names the digest.
#[verifier::external_body]
fn sha512(data: &str) -> (r: Option<String>)
    ensures
        r is Some,
        r matches Some(s) ==> s@ == sha512_hex(utf8_of(data@)),
{
    TardisFuns::crypto.digest.sha512(data).ok()
}

/// The text whose digest is the stored sk: ``{sk}-{ak}-{cert_conf_id}``.
pub open spec fn sk_text(sk: Seq<char>, ak: Seq<char>, cert_conf_id: Seq<char>) -> Seq<char> {
    sk + seq!['-'] + ak + seq!['-'] + cert_conf_id
}

/// The stored form of an encrypted sk.
pub open spec fn encrypted_sk(sk: Seq<char>, ak: Seq<char>, cert_conf_id: Seq<char>) -> Seq<char> {
    sha512_hex(utf8_of(sk_text(sk, ak, cert_conf_id)))
}

/// Append the characters of `b` to `a`.
fn push_chars(a: &mut Vec<char>, b: &Vec<char>)
    ensures
        final(a)@ == old(a)@ + b@,
{
    let mut i: usize = 0;
    while i < b.len()
        invariant
            i <= b@.len(),
            a@ == old(a)@ + b@.take(i as int),
        decreases b@.len() - i,
    {
        a.push(b[i]);
        assert(old(a)@ + b@.take(i + 1) =~= (old(a)@ + b@.take(i as int)).push(b@[i as int]));
        i = i + 1;
    }
    assert(b@.take(b@.len() as int) =~= b@);
}

/// Certificate configuration services
pub struct RbumCertConfServ;

/// Whether the rule (when given) is no valid regular expression.
pub open spec fn rule_invalid(rule: Option<String>) -> bool {
    rule matches Some(r) && !regex_valid(r@)
}

/// Why adding a certificate configuration is refused, if it is: a second basic one, an
/// invalid ak rule or sk rule, or one more of the same kind and supplier.
pub open spec fn conf_add_error(add_req: RbumCertConfAddReq, basic_exists: bool, code_exists: bool) -> Option<BasicError> {
    if add_req.is_basic == Some(true) && basic_exists {
        Some(BasicError::CertConfBasicExist)
    } else if rule_invalid(add_req.ak_rule) {
        Some(BasicError::CertConfAkRuleInvalid)
    } else if rule_invalid(add_req.sk_rule) {
        Some(BasicError::CertConfSkRuleInvalid)
    } else if code_exists {
        Some(BasicError::CertConfCodeExist)
    } else {
        None
    }
}

impl RbumCertConfServ {
    /// Check a certificate configuration before it is added, given whether a basic one of
    /// the domain and item exists and whether one of the kind and supplier exists. A basic
    /// configuration is never dynamic.
    ///
    /// 添加凭证配置前的校验
    pub fn before_add_rbum(add_req: &mut RbumCertConfAddReq, basic_exists: bool, code_exists: bool) -> (r: Result<(), BasicError>)
        ensures
            match conf_add_error(*old(add_req), basic_exists, code_exists) {
                Some(e) => r == Err::<(), BasicError>(e),
                None => r is Ok,
            },
            *final(add_req) == (if old(add_req).is_basic == Some(true) {
                RbumCertConfAddReq { sk_dynamic: Some(false), ..*old(add_req) }
            } else {
                *old(add_req)
            }),
    {
        if let Some(is_basic) = add_req.is_basic {
            // If is_basic is true, sk_dynamic must be false
            if is_basic {
                add_req.sk_dynamic = Some(false);
                if basic_exists {
                    return Err(BasicError::CertConfBasicExist);
                }
            }
        }
        if let Some(ak_rule) = &add_req.ak_rule {
            if rule_is_match(ak_rule.as_str(), "").is_none() {
                return Err(BasicError::CertConfAkRuleInvalid);
            }
        }
        if let Some(sk_rule) = &add_req.sk_rule {
            if rule_is_match(sk_rule.as_str(), "").is_none() {
                return Err(BasicError::CertConfSkRuleInvalid);
            }
        }
        if code_exists {
            return Err(BasicError::CertConfCodeExist);
        }
        Ok(())
    }

    /// Check a certificate configuration before it is modified, given whether another basic
    /// one of its domain and item exists: it cannot become a second basic one.
    ///
    /// 修改凭证配置前的校验
    pub fn before_modify_rbum(modify_req: &RbumCertConfModifyReq, other_basic_exists: bool) -> (r: Result<(), BasicError>)
        ensures
            modify_req.is_basic == Some(true) && other_basic_exists ==> r == Err::<(), BasicError>(BasicError::CertConfBasicExist),
            !(modify_req.is_basic == Some(true) && other_basic_exists) ==> r is Ok,
    {
        if let Some(true) = modify_req.is_basic {
            if other_basic_exists {
                return Err(BasicError::CertConfBasicExist);
            }
        }
        Ok(())
    }
}

/// Certificate services
pub struct RbumCertServ;

/// What follows a failed validation that is counted.
#[derive(Debug, Clone, Copy, PartialEq, Eq, Structural)]
pub enum CertFailAction {
    /// Lock the certificate for the duration, and clear the count.
    Lock { duration_sec: u64 },
    /// The count starts a cycle that ends after the given seconds.
    StartCycle { cycle_sec: i64 },
    /// The count goes on.
    Count,
}

/// A certificate that validation found by its ak, configuration and own paths (enabled or
/// pending, and started); its end as a UNIX timestamp in seconds.
#[derive(Debug, Clone)]
pub struct FoundCert {
    pub id: String,
    pub sk: String,
    pub rel_rbum_kind: RbumCertRelKind,
    pub rel_rbum_id: String,
    pub end_time: i64,
}

/// What validating a certificate of a given configuration decides.
#[derive(Debug, Clone, PartialEq, Eq)]
pub enum CertValidation {
    /// The certificate validates: its id, the kind and id of its holder are the result, and
    /// the error count of the holder is cleared.
    Valid { cert_id: String, rel_rbum_kind: RbumCertRelKind, rel_rbum_id: String },
    /// The sk does not match (or no verification code is cached for a dynamic
    /// configuration): the failure is counted for the holder under the lock settings of
    /// the configuration, and the validation fails with ``CertValidError``.
    Mismatch { rel_rbum_id: String },
    /// The validation fails with this error, and nothing is counted.
    Refused(BasicError),
}

/// What validating by ak and the sk of the basic configuration decides, once the
/// certificate was found usable.
#[derive(Debug, Clone, Copy, PartialEq, Eq, Structural)]
pub enum BasicSkOutcome {
    /// The sk matches the certificate.
    Valid,
    /// The sk does not match a certificate of a non-basic configuration: the certificate of
    /// the basic configuration of the same domain and item is tried next.
    TryBasicCert,
    /// The sk does not match a certificate of the basic configuration.
    Invalid,
}

/// The sk text after encrypting it when the configuration encrypts.
pub open spec fn stored_form(sk: Seq<char>, ak: Seq<char>, c: RbumCertConfDetailResp) -> Seq<char> {
    if c.sk_encrypted {
        encrypted_sk(sk, ak, c.id@)
    } else {
        sk
    }
}

/// Whether the sk breaks the sk rule of the configuration: none when the rule is empty, an
/// error when it is invalid.
pub open spec fn sk_rule_outcome(sk: Seq<char>, c: RbumCertConfDetailResp) -> Option<BasicError> {
    if c.sk_rule@.len() == 0 {
        None
    } else if !regex_valid(c.sk_rule@) {
        Some(BasicError::CertConfSkRuleInvalid)
    } else if !regex_matches(c.sk_rule@, sk) {
        Some(BasicError::CertConfSkRuleNotMatch)
    } else {
        None
    }
}

/// The sk to store on a reset: the new sk checked against the sk rule (unless the check is
/// skipped) and encrypted as the configuration asks; refused when it equals the stored sk
/// and the configuration does not allow repeating it.
pub open spec fn reset_sk_result(
    new_sk: Seq<char>,
    is_ignore_check_sk: bool,
    ak: Seq<char>,
    conf: Option<RbumCertConfDetailResp>,
    stored_sk: Seq<char>,
) -> Result<Seq<char>, BasicError> {
    match conf {
        Some(c) => match sk_rule_outcome(new_sk, c) {
            Some(BasicError::CertConfSkRuleNotMatch) if !is_ignore_check_sk => Err(BasicError::CertConfSkRuleNotMatch),
            Some(BasicError::CertConfSkRuleInvalid) => Err(BasicError::CertConfSkRuleInvalid),
            _ => {
                let s = stored_form(new_sk, ak, c);
                if s == stored_sk && !c.repeatable {
                    Err(BasicError::CertResetSkDuplicate)
                } else {
                    Ok(s)
                }
            },
        },
        None => Ok(new_sk),
    }
}

/// The sk to store and the new end on a change: refused when the input contains the ak
/// (ignoring case), when the original sk does not match the stored one, when the input
/// breaks the sk rule, or when it repeats the original and the configuration does not
/// allow it; the end is now plus the expiry, or stays without configuration.
pub open spec fn change_sk_result(
    original_sk: Seq<char>,
    input_sk: Seq<char>,
    ak: Seq<char>,
    conf: Option<RbumCertConfDetailResp>,
    stored_sk: Seq<char>,
    now: i64,
    end_time: i64,
) -> Result<(Seq<char>, int), BasicError> {
    if contains_seq(lowercase(input_sk), lowercase(ak)) {
        Err(BasicError::CertSkContainsAk)
    } else {
        match conf {
            Some(c) => if stored_form(original_sk, ak, c) != stored_sk {
                Err(BasicError::CertOriSkNotMatch)
            } else {
                match sk_rule_outcome(input_sk, c) {
                    Some(e) => Err(e),
                    None => if !c.repeatable && stored_form(original_sk, ak, c) == stored_form(input_sk, ak, c) {
                        Err(BasicError::CertSkDuplicate)
                    } else {
                        Ok((stored_form(input_sk, ak, c), now + c.expire_sec))
                    },
                }
            },
            None => if original_sk != stored_sk {
                Err(BasicError::CertOriSkNotMatch)
            } else {
                Ok((input_sk, end_time as int))
            },
        }
    }
}

/// The configuration behind an optional reference.
pub open spec fn conf_value(conf: Option<&RbumCertConfDetailResp>) -> Option<RbumCertConfDetailResp> {
    match conf {
        Some(c) => Some(*c),
        None => None,
    }
}

/// Why adding a certificate is refused, if it is: both an sk and a verification code; or,
/// under its configuration, a missing sk, an sk of a dynamic configuration, a missing
/// verification code of one, an invalid ak rule, an ak out of its rule, an invalid sk rule,
/// an sk out of its rule (unless its check is skipped), or an ak in use.
pub open spec fn cert_add_error(add_req: RbumCertAddReq, conf: Option<RbumCertConfDetailResp>, ak_used: bool) -> Option<BasicError> {
    if add_req.sk is Some && add_req.vcode is Some {
        Some(BasicError::CertSkVcodeOnlyOne)
    } else {
        match conf {
            None => None,
            Some(c) => if c.sk_need && add_req.sk is None {
                Some(BasicError::CertSkRequire)
            } else if c.sk_dynamic && add_req.sk is Some {
                Some(BasicError::CertSkNeedEmpty)
            } else if c.sk_dynamic && add_req.vcode is None {
                Some(BasicError::CertVcodeRequire)
            } else if c.ak_rule@.len() > 0 && !regex_valid(c.ak_rule@) {
                Some(BasicError::CertConfAkRuleInvalid)
            } else if c.ak_rule@.len() > 0 && !regex_matches(c.ak_rule@, add_req.ak@) {
                Some(BasicError::CertConfAkRuleNotMatch)
            } else if c.sk_need && c.sk_rule@.len() > 0 && !regex_valid(c.sk_rule@) {
                Some(BasicError::CertConfSkRuleInvalid)
            } else if c.sk_need && c.sk_rule@.len() > 0 && !regex_matches(c.sk_rule@, add_req.sk->0@)
                && !add_req.ignore_check_sk {
                Some(BasicError::CertConfSkRuleNotMatch)
            } else if ak_used {
                Some(BasicError::CertAkDuplicate)
            } else {
                None
            },
        }
    }
}

/// Why modifying a certificate is refused, if it is, under its configuration: an invalid ak
/// rule or a new ak out of it; when the configuration needs an sk, an invalid sk rule or a
/// new sk out of it (unless its check is skipped); a new ak in use; or a new ak without a
/// new sk when the configuration encrypts.
pub open spec fn cert_modify_error(req: RbumCertModifyReq, c: RbumCertConfDetailResp, ak_used: bool) -> Option<BasicError> {
    if req.ak is Some && c.ak_rule@.len() > 0 && !regex_valid(c.ak_rule@) {
        Some(BasicError::CertConfAkRuleInvalid)
    } else if req.ak is Some && c.ak_rule@.len() > 0 && !regex_matches(c.ak_rule@, req.ak->0@) {
        Some(BasicError::CertConfAkRuleNotMatch)
    } else if req.sk is Some && c.sk_need && c.sk_rule@.len() > 0 && !regex_valid(c.sk_rule@) {
        Some(BasicError::CertConfSkRuleInvalid)
    } else if req.sk is Some && c.sk_need && c.sk_rule@.len() > 0 && !regex_matches(c.sk_rule@, req.sk->0@)
        && !req.ignore_check_sk {
        Some(BasicError::CertConfSkRuleNotMatch)
    } else if req.ak is Some && ak_used {
        Some(BasicError::CertAkDuplicate)
    } else if req.ak is Some && req.sk is None && c.sk_encrypted {
        Some(BasicError::CertSkEmpty)
    } else {
        None
    }
}

/// The start of a new certificate: the given one, else now.
pub open spec fn cert_start(add_req: RbumCertAddReq, now: i64) -> i64 {
    match add_req.start_time {
        Some(t) => t,
        None => now,
    }
}

/// The end of a new certificate: a dynamic one lasts a hundred years from now; else the
/// given end, else the start plus the expiry of its configuration, or plus a hundred years
/// without configuration.
pub open spec fn cert_end(add_req: RbumCertAddReq, conf: Option<RbumCertConfDetailResp>, now: i64) -> int {
    match conf {
        Some(c) => if c.sk_dynamic {
            now + HUNDRED_YEARS_SEC
        } else {
            match add_req.end_time {
                Some(t) => t as int,
                None => cert_start(add_req, now) + c.expire_sec,
            }
        },
        None => match add_req.end_time {
            Some(t) => t as int,
            None => cert_start(add_req, now) + HUNDRED_YEARS_SEC,
        },
    }
}

impl RbumCertServ {
    /// Encrypt sk: the digest of ``{sk}-{ak}-{cert_conf_id}``
    ///
    /// 加密sk
    pub fn encrypt_sk(sk: &str, ak: &str, rbum_cert_conf_id: &str) -> (r: String)
        ensures
            r@ == encrypted_sk(sk@, ak@, rbum_cert_conf_id@),
    {
        let mut text = chars_of(sk);
        text.push('-');
        push_chars(&mut text, &chars_of(ak));
        text.push('-');
        push_chars(&mut text, &chars_of(rbum_cert_conf_id));
        let data = string_of(&text);
        proof {
            assert(data@ =~= sk_text(sk@, ak@, rbum_cert_conf_id@));
        }
        match sha512(data.as_str()) {
            Some(digest) => digest,
            None => String::new(),
        }
    }

    /// Check and complete a certificate before it is added, given the configuration that it
    /// names (if any), whether its ak is in use and the current time: the start defaults to
    /// now, the end is filled in, and the sk of a configuration that encrypts is stored
    /// encrypted
    ///
    /// 添加凭证前的校验与补全
    pub fn before_add_rbum(add_req: &mut RbumCertAddReq, conf: Option<&RbumCertConfDetailResp>, ak_used: bool, now: i64) -> (r: Result<(), BasicError>)
        requires
            cert_add_error(*old(add_req), conf_value(conf), ak_used) is None ==> in_time_range(
                cert_end(*old(add_req), conf_value(conf), now),
            ),
        ensures
            match cert_add_error(*old(add_req), conf_value(conf), ak_used) {
                Some(e) => r == Err::<(), BasicError>(e),
                None => r is Ok,
            },
            r is Ok ==> final(add_req).start_time == Some(cert_start(*old(add_req), now)),
            r is Ok ==> (final(add_req).end_time matches Some(t) && t == cert_end(*old(add_req), conf_value(conf), now)),
            r is Ok ==> match conf {
                Some(c) => if c.sk_encrypted && old(add_req).sk is Some {
                    (final(add_req).sk matches Some(s) && s@ == encrypted_sk(old(add_req).sk->0@, old(add_req).ak@, c.id@))
                } else {
                    final(add_req).sk == old(add_req).sk
                },
                None => final(add_req).sk == old(add_req).sk,
            },
            r is Ok ==> (RbumCertAddReq { sk: old(add_req).sk, start_time: old(add_req).start_time, end_time: old(add_req).end_time, ..*final(add_req) }) == *old(add_req),
    {
        if add_req.sk.is_some() && add_req.vcode.is_some() {
            return Err(BasicError::CertSkVcodeOnlyOne);
        }
        let start = match add_req.start_time {
            Some(t) => t,
            None => now,
        };
        match conf {
            Some(c) => {
                if c.sk_need && add_req.sk.is_none() {
                    return Err(BasicError::CertSkRequire);
                }
                if c.sk_dynamic && add_req.sk.is_some() {
                    return Err(BasicError::CertSkNeedEmpty);
                }
                if c.sk_dynamic && add_req.vcode.is_none() {
                    return Err(BasicError::CertVcodeRequire);
                }
                let ak_rule_chars = chars_of(c.ak_rule.as_str());
                if ak_rule_chars.len() > 0 {
                    match rule_is_match(c.ak_rule.as_str(), add_req.ak.as_str()) {
                        None => {
                            return Err(BasicError::CertConfAkRuleInvalid);
                        },
                        Some(false) => {
                            return Err(BasicError::CertConfAkRuleNotMatch);
                        },
                        Some(true) => {},
                    }
                }
                let sk_rule_chars = chars_of(c.sk_rule.as_str());
                if c.sk_need && sk_rule_chars.len() > 0 {
                    let sk = match &add_req.sk {
                        Some(sk) => sk,
                        None => {
                            return Err(BasicError::CertSkRequire);
                        },
                    };
                    match rule_is_match(c.sk_rule.as_str(), sk.as_str()) {
                        None => {
                            return Err(BasicError::CertConfSkRuleInvalid);
                        },
                        Some(false) => {
                            if !add_req.ignore_check_sk {
                                return Err(BasicError::CertConfSkRuleNotMatch);
                            }
                        },
                        Some(true) => {},
                    }
                }
                if ak_used {
                    return Err(BasicError::CertAkDuplicate);
                }
                // Encrypt Sk
                if c.sk_encrypted {
                    let new_sk = match &add_req.sk {
                        Some(sk) => Some(Self::encrypt_sk(sk.as_str(), add_req.ak.as_str(), c.id.as_str())),
                        None => None,
                    };
                    if new_sk.is_some() {
                        add_req.sk = new_sk;
                    }
                }
                // Fill Time
                let end = if c.sk_dynamic {
                    // Dynamic Sk do not require an expiration time
                    now + HUNDRED_YEARS_SEC
                } else {
                    match add_req.end_time {
                        Some(t) => t,
                        None => start + c.expire_sec,
                    }
                };
                add_req.start_time = Some(start);
                add_req.end_time = Some(end);
            },
            None => {
                // Fill Time
                let end = match add_req.end_time {
                    Some(t) => t,
                    None => start + HUNDRED_YEARS_SEC,
                };
                add_req.start_time = Some(start);
                add_req.end_time = Some(end);
            },
        }
        Ok(())
    }

    /// Check and complete a certificate before it is modified, given its stored ak, the
    /// configuration that it names (if any) and whether the new ak is used by another
    /// certificate of that configuration: without configuration nothing is checked; else the
    /// new sk of a configuration that encrypts is stored encrypted with the new ak, or the
    /// stored one when the ak stays
    ///
    /// 修改凭证前的校验与补全
    pub fn before_modify_rbum(
        modify_req: &mut RbumCertModifyReq,
        stored_ak: &str,
        conf: Option<&RbumCertConfDetailResp>,
        ak_used: bool,
    ) -> (r: Result<(), BasicError>)
        ensures
            match conf {
                None => r is Ok && *final(modify_req) == *old(modify_req),
                Some(c) => match cert_modify_error(*old(modify_req), *c, ak_used) {
                    Some(e) => r == Err::<(), BasicError>(e),
                    None => r is Ok,
                },
            },
            r is Ok ==> match conf {
                Some(c) => if c.sk_encrypted && old(modify_req).sk is Some {
                    final(modify_req).sk matches Some(s) && s@ == encrypted_sk(
                        old(modify_req).sk->0@,
                        match old(modify_req).ak {
                            Some(a) => a@,
                            None => stored_ak@,
                        },
                        c.id@,
                    )
                } else {
                    final(modify_req).sk == old(modify_req).sk
                },
                None => true,
            },
            (RbumCertModifyReq { sk: old(modify_req).sk, ..*final(modify_req) }) == *old(modify_req),
    {
        let c = match conf {
            Some(c) => c,
            None => {
                return Ok(());
            },
        };
        if let Some(ak) = &modify_req.ak {
            if chars_of(c.ak_rule.as_str()).len() > 0 {
                match rule_is_match(c.ak_rule.as_str(), ak.as_str()) {
                    None => {
                        return Err(BasicError::CertConfAkRuleInvalid);
                    },
                    Some(false) => {
                        return Err(BasicError::CertConfAkRuleNotMatch);
                    },
                    Some(true) => {},
                }
            }
        }
        if let Some(sk) = &modify_req.sk {
            if c.sk_need && chars_of(c.sk_rule.as_str()).len() > 0 {
                match rule_is_match(c.sk_rule.as_str(), sk.as_str()) {
                    None => {
                        return Err(BasicError::CertConfSkRuleInvalid);
                    },
                    Some(false) => {
                        if !modify_req.ignore_check_sk {
                            return Err(BasicError::CertConfSkRuleNotMatch);
                        }
                    },
                    Some(true) => {},
                }
            }
        }
        if modify_req.ak.is_some() && ak_used {
            return Err(BasicError::CertAkDuplicate);
        }
        // Encrypt Sk
        if (modify_req.sk.is_some() || modify_req.ak.is_some()) && c.sk_encrypted {
            if modify_req.ak.is_some() && modify_req.sk.is_none() {
                return Err(BasicError::CertSkEmpty);
            }
            let new_sk = match &modify_req.sk {
                Some(sk) => {
                    let ak = match &modify_req.ak {
                        Some(a) => a.as_str(),
                        None => stored_ak,
                    };
                    Some(Self::encrypt_sk(sk.as_str(), ak, c.id.as_str()))
                },
                None => None,
            };
            if new_sk.is_some() {
                modify_req.sk = new_sk;
            }
        }
        Ok(())
    }

    /// The certificates to delete after one was added under a configuration that limits how
    /// many may coexist, given the ids of the certificates of the same configuration and
    /// holder, newest first: those after the first ``coexist_num`` (none without a limit, and
    /// none for a negative limit, which skips past them all)
    ///
    /// 添加凭证后需删除的旧凭证
    pub fn after_add_rbum(cert_ids_newest_first: &Vec<String>, coexist_num: i16) -> (r: Vec<String>)
        ensures
            r@ == (if coexist_num <= 0 || coexist_num >= cert_ids_newest_first@.len() {
                Seq::<String>::empty()
            } else {
                cert_ids_newest_first@.skip(coexist_num as int)
            }),
    {
        let mut out: Vec<String> = Vec::new();
        if coexist_num <= 0 || coexist_num as usize >= cert_ids_newest_first.len() {
            return out;
        }
        let n = coexist_num as usize;
        let mut i: usize = n;
        while i < cert_ids_newest_first.len()
            invariant
                n == coexist_num,
                n <= i <= cert_ids_newest_first@.len(),
                out@ == cert_ids_newest_first@.subrange(n as int, i as int),
            decreases cert_ids_newest_first@.len() - i,
        {
            out.push(cert_ids_newest_first[i].clone());
            proof {
                assert(cert_ids_newest_first@.subrange(n as int, i + 1) =~= cert_ids_newest_first@.subrange(
                    n as int,
                    i as int,
                ).push(cert_ids_newest_first@[i as int]));
            }
            i = i + 1;
        }
        proof {
            assert(cert_ids_newest_first@.subrange(n as int, i as int) =~= cert_ids_newest_first@.skip(n as int));
        }
        out
    }

    /// Check that a certificate can be validated: it is not locked, and, unless its end is
    /// ignored, it has not ended
    pub fn check_cert_usable(locked: bool, ignore_end_time: bool, end_time: i64, now: i64) -> (r: Result<(), BasicError>)
        ensures
            locked ==> r == Err::<(), BasicError>(BasicError::CertLock),
            !locked && !ignore_end_time && end_time < now ==> r == Err::<(), BasicError>(BasicError::CertSkExpire),
            !locked && (ignore_end_time || end_time >= now) ==> r is Ok,
    {
        if locked {
            return Err(BasicError::CertLock);
        }
        if !ignore_end_time && end_time < now {
            return Err(BasicError::CertSkExpire);
        }
        Ok(())
    }

    /// Whether the input sk matches the certificate: against the cached verification code of
    /// a dynamic configuration (no match without one), else against the stored sk; the input
    /// is encrypted first when the configuration encrypts
    pub fn sk_matches(
        input_sk: &str,
        ak: &str,
        rbum_cert_conf_id: &str,
        sk_encrypted: bool,
        sk_dynamic: bool,
        stored_sk: &str,
        cached_vcode: Option<&str>,
    ) -> (r: bool)
        ensures
            r == ({
                let input = if sk_encrypted {
                    encrypted_sk(input_sk@, ak@, rbum_cert_conf_id@)
                } else {
                    input_sk@
                };
                if sk_dynamic {
                    cached_vcode matches Some(v) && v@ == input
                } else {
                    stored_sk@ == input
                }
            }),
    {
        let input = if sk_encrypted {
            Self::encrypt_sk(input_sk, ak, rbum_cert_conf_id)
        } else {
            string_of(&chars_of(input_sk))
        };
        let input_chars = chars_of(input.as_str());
        if sk_dynamic {
            match cached_vcode {
                Some(v) => crate::text::eq_chars(&chars_of(v), &input_chars),
                None => false,
            }
        } else {
            crate::text::eq_chars(&chars_of(stored_sk), &input_chars)
        }
    }

    /// Validate the certificate of the specified configuration, given the certificate found
    /// (if any), whether its holder is locked, the current time, and the cached verification
    /// code (read for a dynamic configuration): without a certificate the validation fails;
    /// then a locked holder, then an ended certificate (unless its end is ignored), refuse it;
    /// then the input sk (encrypted when the configuration encrypts) is compared with the
    /// cached code of a dynamic configuration, else with the stored sk
    ///
    /// 使用指定凭证配置验证凭证的合法性
    pub fn validate_by_spec_cert_conf(
        found: Option<&FoundCert>,
        locked: bool,
        ignore_end_time: bool,
        now: i64,
        input_sk: &str,
        ak: &str,
        rbum_cert_conf_id: &str,
        sk_encrypted: bool,
        sk_dynamic: bool,
        cached_vcode: Option<&str>,
    ) -> (r: CertValidation)
        ensures
            r == (match found {
                None => CertValidation::Refused(BasicError::CertValidError),
                Some(c) => if locked {
                    CertValidation::Refused(BasicError::CertLock)
                } else if !ignore_end_time && c.end_time < now {
                    CertValidation::Refused(BasicError::CertSkExpire)
                } else if ({
                    let input = if sk_encrypted {
                        encrypted_sk(input_sk@, ak@, rbum_cert_conf_id@)
                    } else {
                        input_sk@
                    };
                    if sk_dynamic {
                        cached_vcode matches Some(v) && v@ == input
                    } else {
                        c.sk@ == input
                    }
                }) {
                    CertValidation::Valid { cert_id: c.id, rel_rbum_kind: c.rel_rbum_kind, rel_rbum_id: c.rel_rbum_id }
                } else {
                    CertValidation::Mismatch { rel_rbum_id: c.rel_rbum_id }
                },
            }),
    {
        let c = match found {
            Some(c) => c,
            None => {
                return CertValidation::Refused(BasicError::CertValidError);
            },
        };
        match Self::check_cert_usable(locked, ignore_end_time, c.end_time, now) {
            Err(e) => {
                return CertValidation::Refused(e);
            },
            Ok(()) => {},
        }
        if Self::sk_matches(input_sk, ak, rbum_cert_conf_id, sk_encrypted, sk_dynamic, c.sk.as_str(), cached_vcode) {
            CertValidation::Valid { cert_id: c.id.clone(), rel_rbum_kind: c.rel_rbum_kind, rel_rbum_id: c.rel_rbum_id.clone() }
        } else {
            CertValidation::Mismatch { rel_rbum_id: c.rel_rbum_id.clone() }
        }
    }

    /// The decision of validating by ak and basic sk, given the certificate's configuration
    /// (its id, whether it encrypts, whether it is the basic one) and stored sk: valid when
    /// the input sk matches, else the basic configuration is tried unless this is it
    pub fn basic_sk_outcome(
        input_sk: &str,
        ak: &str,
        rbum_cert_conf_id: &str,
        sk_encrypted: bool,
        is_basic: bool,
        stored_sk: &str,
    ) -> (r: BasicSkOutcome)
        ensures
            r == (if stored_sk@ == (if sk_encrypted {
                encrypted_sk(input_sk@, ak@, rbum_cert_conf_id@)
            } else {
                input_sk@
            }) {
                BasicSkOutcome::Valid
            } else if !is_basic {
                BasicSkOutcome::TryBasicCert
            } else {
                BasicSkOutcome::Invalid
            }),
    {
        if Self::sk_matches(input_sk, ak, rbum_cert_conf_id, sk_encrypted, false, stored_sk, None) {
            BasicSkOutcome::Valid
        } else if !is_basic {
            BasicSkOutcome::TryBasicCert
        } else {
            BasicSkOutcome::Invalid
        }
    }

    /// Whether failed validations are counted: only when the lock cycle, the number of errors
    /// and the lock duration are all set
    pub fn failures_counted(sk_lock_cycle_sec: i32, sk_lock_err_times: i16, sk_lock_duration_sec: i32) -> (r: bool)
        ensures
            r == (sk_lock_cycle_sec != 0 && sk_lock_err_times != 0 && sk_lock_duration_sec != 0),
    {
        !(sk_lock_cycle_sec == 0 || sk_lock_err_times == 0 || sk_lock_duration_sec == 0)
    }

    /// Processing logic after verification fails, given the number of errors counted in the
    /// cycle so far (this one included): lock the certificate once the errors reach the
    /// limit, start the cycle on the first error
    ///
    /// 验证失败后的处理逻辑
    pub fn after_validate_fail(sk_lock_cycle_sec: i32, sk_lock_err_times: i16, sk_lock_duration_sec: i32, err_times: i64) -> (r: CertFailAction)
        ensures
            sk_lock_err_times <= (err_times as i16) ==> r == (CertFailAction::Lock { duration_sec: sk_lock_duration_sec as u64 }),
            !(sk_lock_err_times <= (err_times as i16)) && err_times == 1 ==> r == (CertFailAction::StartCycle { cycle_sec: sk_lock_cycle_sec as i64 }),
            !(sk_lock_err_times <= (err_times as i16)) && err_times != 1 ==> r == CertFailAction::Count,
    {
        if sk_lock_err_times <= err_times as i16 {
            CertFailAction::Lock { duration_sec: sk_lock_duration_sec as u64 }
        } else if err_times == 1 {
            CertFailAction::StartCycle { cycle_sec: sk_lock_cycle_sec as i64 }
        } else {
            CertFailAction::Count
        }
    }

    /// The sk to store when resetting it, given the configuration of the certificate (if
    /// any) and the stored sk
    ///
    /// 重置sk
    pub fn reset_sk(new_sk: &str, is_ignore_check_sk: bool, ak: &str, conf: Option<&RbumCertConfDetailResp>, stored_sk: &str) -> (r: Result<String, BasicError>)
        ensures
            match reset_sk_result(new_sk@, is_ignore_check_sk, ak@, conf_value(conf), stored_sk@) {
                Ok(t) => r matches Ok(s) && s@ == t,
                Err(e) => r == Err::<String, BasicError>(e),
            },
    {
        let (new_sk, repeatable) = match conf {
            Some(c) => {
                let rule = chars_of(c.sk_rule.as_str());
                if rule.len() > 0 {
                    match rule_is_match(c.sk_rule.as_str(), new_sk) {
                        None => {
                            return Err(BasicError::CertConfSkRuleInvalid);
                        },
                        Some(false) => {
                            if !is_ignore_check_sk {
                                return Err(BasicError::CertConfSkRuleNotMatch);
                            }
                        },
                        Some(true) => {},
                    }
                }
                let sk = if c.sk_encrypted {
                    Self::encrypt_sk(new_sk, ak, c.id.as_str())
                } else {
                    string_of(&chars_of(new_sk))
                };
                (sk, c.repeatable)
            },
            None => (string_of(&chars_of(new_sk)), true),
        };
        if crate::text::eq_chars(&chars_of(new_sk.as_str()), &chars_of(stored_sk)) && !repeatable {
            return Err(BasicError::CertResetSkDuplicate);
        }
        Ok(new_sk)
    }

    /// The sk to store and the new end of the certificate when changing its sk, given the
    /// configuration of the certificate (if any), the stored sk, the current time and the
    /// times of the certificate
    ///
    /// 更改sk
    pub fn change_sk(
        original_sk: &str,
        input_sk: &str,
        ak: &str,
        conf: Option<&RbumCertConfDetailResp>,
        stored_sk: &str,
        now: i64,
        end_time: i64,
    ) -> (r: Result<(String, i64), BasicError>)
        requires
            change_sk_result(original_sk@, input_sk@, ak@, conf_value(conf), stored_sk@, now, end_time) matches Ok(p)
                ==> in_time_range(p.1),
        ensures
            match change_sk_result(original_sk@, input_sk@, ak@, conf_value(conf), stored_sk@, now, end_time) {
                Ok(p) => r matches Ok(q) && q.0@ == p.0 && q.1 == p.1,
                Err(e) => r == Err::<(String, i64), BasicError>(e),
            },
    {
        let input_lower = chars_of(to_lowercase(input_sk).as_str());
        let ak_lower = chars_of(to_lowercase(ak).as_str());
        if contains_chars(&input_lower, &ak_lower) {
            return Err(BasicError::CertSkContainsAk);
        }
        let stored = chars_of(stored_sk);
        match conf {
            Some(c) => {
                let original = if c.sk_encrypted {
                    Self::encrypt_sk(original_sk, ak, c.id.as_str())
                } else {
                    string_of(&chars_of(original_sk))
                };
                let original_chars = chars_of(original.as_str());
                if !crate::text::eq_chars(&original_chars, &stored) {
                    return Err(BasicError::CertOriSkNotMatch);
                }
                let rule = chars_of(c.sk_rule.as_str());
                if rule.len() > 0 {
                    match rule_is_match(c.sk_rule.as_str(), input_sk) {
                        None => {
                            return Err(BasicError::CertConfSkRuleInvalid);
                        },
                        Some(false) => {
                            return Err(BasicError::CertConfSkRuleNotMatch);
                        },
                        Some(true) => {},
                    }
                }
                let new_sk = if c.sk_encrypted {
                    Self::encrypt_sk(input_sk, ak, c.id.as_str())
                } else {
                    string_of(&chars_of(input_sk))
                };
                if !c.repeatable && crate::text::eq_chars(&original_chars, &chars_of(new_sk.as_str())) {
                    return Err(BasicError::CertSkDuplicate);
                }
                Ok((new_sk, now + c.expire_sec))
            },
            None => {
                if !crate::text::eq_chars(&chars_of(original_sk), &stored) {
                    return Err(BasicError::CertOriSkNotMatch);
                }
                Ok((string_of(&chars_of(input_sk)), end_time))
            },
        }
    }
}

/// An encrypted sk is the SHA-512 digest (lowercase hexadecimal) of the UTF-8 bytes of
/// ``{sk}-{ak}-{cert_conf_id}``.
pub proof fn lemma_encrypted_sk_layout(sk: Seq<char>, ak: Seq<char>, cert_conf_id: Seq<char>)
    ensures
        encrypted_sk(sk, ak, cert_conf_id) == sha512_hex(
            utf8_of(sk + seq!['-'] + ak + seq!['-'] + cert_conf_id),
        ),
{
}

/// A successful change stores the new sk in the form that validation compares with: under a
/// configuration that encrypts, the digest of ``{input_sk}-{ak}-{conf id}``; under one that
/// does not, the input itself; without a configuration, the input with the end unchanged.
/// It succeeds only when the original sk, in that same form, is the stored one, and the new
/// end is then now plus the expiry of the configuration.
pub proof fn lemma_change_sk_stores_validated_form(
    original_sk: Seq<char>,
    input_sk: Seq<char>,
    ak: Seq<char>,
    conf: Option<RbumCertConfDetailResp>,
    stored_sk: Seq<char>,
    now: i64,
    end_time: i64,
)
    ensures
        change_sk_result(original_sk, input_sk, ak, conf, stored_sk, now, end_time) matches Ok(p) ==> match conf {
            Some(c) => {
                &&& p.0 == (if c.sk_encrypted {
                    encrypted_sk(input_sk, ak, c.id@)
                } else {
                    input_sk
                })
                &&& p.1 == now + c.expire_sec
                &&& stored_sk == (if c.sk_encrypted {
                    encrypted_sk(original_sk, ak, c.id@)
                } else {
                    original_sk
                })
            },
            None => p.0 == input_sk && p.1 == end_time && stored_sk == original_sk,
        },
        conf matches Some(c) ==> (c.sk_encrypted ==> (change_sk_result(original_sk, input_sk, ak, conf, stored_sk, now, end_time)
            matches Ok(p) ==> p.0 == encrypted_sk(input_sk, ak, c.id@))),
{
}

/// A change is refused when the new sk contains the ak, ignoring case; and under a
/// configuration that does not allow repeating the sk, a change to the same sk is refused.
pub proof fn lemma_change_sk_refusals(
    original_sk: Seq<char>,
    input_sk: Seq<char>,
    ak: Seq<char>,
    conf: Option<RbumCertConfDetailResp>,
    stored_sk: Seq<char>,
    now: i64,
    end_time: i64,
)
    ensures
        contains_seq(lowercase(input_sk), lowercase(ak)) ==> change_sk_result(
            original_sk,
            input_sk,
            ak,
            conf,
            stored_sk,
            now,
            end_time,
        ) == Err::<(Seq<char>, int), BasicError>(BasicError::CertSkContainsAk),
        conf matches Some(c) && !c.repeatable ==> change_sk_result(original_sk, original_sk, ak, conf, stored_sk, now, end_time) is Err,
{
}

/// A successful reset stores the new sk in the form that validation compares with: the
/// digest of ``{new_sk}-{ak}-{conf id}`` under a configuration that encrypts, the new sk
/// itself otherwise; and under a configuration that does not allow repeating the sk, that
/// form differs from the stored sk.
pub proof fn lemma_reset_sk_stores_validated_form(
    new_sk: Seq<char>,
    is_ignore_check_sk: bool,
    ak: Seq<char>,
    conf: Option<RbumCertConfDetailResp>,
    stored_sk: Seq<char>,
)
    ensures
        reset_sk_result(new_sk, is_ignore_check_sk, ak, conf, stored_sk) matches Ok(s) ==> match conf {
            Some(c) => {
                &&& s == (if c.sk_encrypted {
                    encrypted_sk(new_sk, ak, c.id@)
                } else {
                    new_sk
                })
                &&& !c.repeatable ==> s != stored_sk
            },
            None => s == new_sk,
        },
{
}


} // verus!
