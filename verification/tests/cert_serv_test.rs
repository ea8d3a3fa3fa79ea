use bios_basic::error::BasicError;
use bios_basic::rbum::dto::rbum_cert_conf_dto::{RbumCertConfAddReq, RbumCertConfDetailResp, RbumCertConfModifyReq};
use bios_basic::rbum::dto::rbum_cert_dto::{RbumCertAddReq, RbumCertModifyReq};
use bios_basic::rbum::rbum_enumeration::{RbumCertConfStatusKind, RbumCertRelKind, RbumCertStatusKind};
use bios_basic::rbum::serv::rbum_cert_serv::{BasicSkOutcome, CertFailAction, CertValidation, FoundCert, RbumCertConfServ, RbumCertServ, HUNDRED_YEARS_SEC};

fn conf() -> RbumCertConfDetailResp {
    RbumCertConfDetailResp {
        id: "conf1".to_string(),
        kind: "UserPwd".to_string(),
        supplier: String::new(),
        name: String::new(),
        note: String::new(),
        ak_rule: String::new(),
        ak_note: String::new(),
        sk_rule: String::new(),
        sk_note: String::new(),
        ext: String::new(),
        sk_need: true,
        sk_dynamic: false,
        sk_encrypted: false,
        repeatable: true,
        is_basic: false,
        rest_by_kinds: String::new(),
        expire_sec: 3600,
        sk_lock_err_times: 0,
        sk_lock_duration_sec: 0,
        sk_lock_cycle_sec: 0,
        coexist_num: 1,
        conn_uri: String::new(),
        status: RbumCertConfStatusKind::Enabled,
        rel_rbum_domain_id: "d".to_string(),
        rel_rbum_item_id: String::new(),
        own_paths: String::new(),
        owner: String::new(),
        create_time: 0,
        update_time: 0,
    }
}

fn add_req(ak: &str, sk: Option<&str>, vcode: Option<&str>) -> RbumCertAddReq {
    RbumCertAddReq {
        ak: ak.to_string(),
        sk: sk.map(|s| s.to_string()),
        sk_invisible: None,
        ignore_check_sk: false,
        kind: None,
        supplier: None,
        ext: None,
        start_time: None,
        end_time: None,
        conn_uri: None,
        status: RbumCertStatusKind::Enabled,
        vcode: vcode.map(|s| s.to_string()),
        rel_rbum_cert_conf_id: Some("conf1".to_string()),
        rel_rbum_kind: RbumCertRelKind::Item,
        rel_rbum_id: "item1".to_string(),
        is_outside: false,
    }
}

#[test]
fn test_encrypt_sk() {
    let digest = RbumCertServ::encrypt_sk("sk", "ak", "conf1");
    assert_eq!(digest.len(), 128);
    assert_eq!(digest, RbumCertServ::encrypt_sk("sk", "ak", "conf1"));
    assert_ne!(digest, RbumCertServ::encrypt_sk("sk", "ak", "conf2"));
    // the digest of ``sk-ak-conf1``
    assert_eq!(digest, "71bc5b660099c6b43df0a5d07c2d825283387cac9fd05457067964d2305ca0f5eaa42976056ca9fc27f51aa4788c8178d8e5f1888e56097f18db6fe3b2849bbc");
}

#[test]
fn test_before_add_cert() {
    let c = conf();
    // fill times from the start and the expiry
    let mut req = add_req("ak", Some("sk1"), None);
    req.start_time = Some(1000);
    RbumCertServ::before_add_rbum(&mut req, Some(&c), false, 5).unwrap();
    assert_eq!(req.start_time, Some(1000));
    assert_eq!(req.end_time, Some(1000 + 3600));
    assert_eq!(req.sk.as_deref(), Some("sk1"));
    // the start defaults to now
    let mut req = add_req("ak", Some("sk1"), None);
    RbumCertServ::before_add_rbum(&mut req, Some(&c), false, 7).unwrap();
    assert_eq!(req.start_time, Some(7));
    // the errors, in order
    let mut both = add_req("ak", Some("sk"), Some("v"));
    assert_eq!(RbumCertServ::before_add_rbum(&mut both, Some(&c), false, 0), Err(BasicError::CertSkVcodeOnlyOne));
    let mut no_sk = add_req("ak", None, None);
    assert_eq!(RbumCertServ::before_add_rbum(&mut no_sk, Some(&c), false, 0), Err(BasicError::CertSkRequire));
    let mut used = add_req("ak", Some("sk"), None);
    assert_eq!(RbumCertServ::before_add_rbum(&mut used, Some(&c), true, 0), Err(BasicError::CertAkDuplicate));
    // dynamic configurations
    let mut dynamic = conf();
    dynamic.sk_need = false;
    dynamic.sk_dynamic = true;
    let mut with_sk = add_req("ak", Some("sk"), None);
    assert_eq!(RbumCertServ::before_add_rbum(&mut with_sk, Some(&dynamic), false, 0), Err(BasicError::CertSkNeedEmpty));
    let mut no_vcode = add_req("ak", None, None);
    assert_eq!(RbumCertServ::before_add_rbum(&mut no_vcode, Some(&dynamic), false, 0), Err(BasicError::CertVcodeRequire));
    let mut ok = add_req("ak", None, Some("1234"));
    RbumCertServ::before_add_rbum(&mut ok, Some(&dynamic), false, 10).unwrap();
    assert_eq!(ok.end_time, Some(10 + HUNDRED_YEARS_SEC));
    // without configuration
    let mut free = add_req("ak", Some("sk"), None);
    free.rel_rbum_cert_conf_id = None;
    RbumCertServ::before_add_rbum(&mut free, None, false, 3).unwrap();
    assert_eq!(free.end_time, Some(3 + HUNDRED_YEARS_SEC));
}

#[test]
fn test_before_add_cert_rules_and_encryption() {
    let mut c = conf();
    c.ak_rule = "^[a-z]+$".to_string();
    c.sk_rule = "^.{6,}$".to_string();
    let mut bad_ak = add_req("AK1", Some("secret1"), None);
    assert_eq!(RbumCertServ::before_add_rbum(&mut bad_ak, Some(&c), false, 0), Err(BasicError::CertConfAkRuleNotMatch));
    let mut bad_sk = add_req("ak", Some("s1"), None);
    assert_eq!(RbumCertServ::before_add_rbum(&mut bad_sk, Some(&c), false, 0), Err(BasicError::CertConfSkRuleNotMatch));
    let mut skipped = add_req("ak", Some("s1"), None);
    skipped.ignore_check_sk = true;
    assert!(RbumCertServ::before_add_rbum(&mut skipped, Some(&c), false, 0).is_ok());
    c.ak_rule = "([".to_string();
    let mut invalid = add_req("ak", Some("secret1"), None);
    assert_eq!(RbumCertServ::before_add_rbum(&mut invalid, Some(&c), false, 0), Err(BasicError::CertConfAkRuleInvalid));
    let mut encrypted = conf();
    encrypted.sk_encrypted = true;
    let mut req = add_req("ak", Some("sk"), None);
    RbumCertServ::before_add_rbum(&mut req, Some(&encrypted), false, 0).unwrap();
    assert_eq!(req.sk, Some(RbumCertServ::encrypt_sk("sk", "ak", "conf1")));
}

fn conf_add(is_basic: Option<bool>, ak_rule: Option<&str>) -> RbumCertConfAddReq {
    RbumCertConfAddReq {
        kind: "UserPwd".to_string(),
        supplier: None,
        name: "n".to_string(),
        note: None,
        ak_rule: ak_rule.map(|r| r.to_string()),
        ak_note: None,
        sk_rule: None,
        sk_note: None,
        ext: None,
        sk_need: None,
        sk_dynamic: Some(true),
        sk_encrypted: None,
        repeatable: None,
        is_basic,
        rest_by_kinds: None,
        expire_sec: None,
        sk_lock_err_times: None,
        sk_lock_duration_sec: None,
        sk_lock_cycle_sec: None,
        coexist_num: None,
        conn_uri: None,
        status: RbumCertConfStatusKind::Enabled,
        rel_rbum_domain_id: "d".to_string(),
        rel_rbum_item_id: None,
    }
}

#[test]
fn test_before_add_cert_conf() {
    let mut basic = conf_add(Some(true), None);
    assert!(RbumCertConfServ::before_add_rbum(&mut basic, false, false).is_ok());
    assert_eq!(basic.sk_dynamic, Some(false));
    let mut second = conf_add(Some(true), None);
    assert_eq!(RbumCertConfServ::before_add_rbum(&mut second, true, false), Err(BasicError::CertConfBasicExist));
    let mut bad_rule = conf_add(None, Some("(["));
    assert_eq!(RbumCertConfServ::before_add_rbum(&mut bad_rule, false, false), Err(BasicError::CertConfAkRuleInvalid));
    assert_eq!(bad_rule.sk_dynamic, Some(true));
    let mut dup = conf_add(None, Some("^a"));
    assert_eq!(RbumCertConfServ::before_add_rbum(&mut dup, false, true), Err(BasicError::CertConfCodeExist));
}

#[test]
fn test_validation_decisions() {
    assert_eq!(RbumCertServ::check_cert_usable(true, false, 100, 10), Err(BasicError::CertLock));
    assert_eq!(RbumCertServ::check_cert_usable(false, false, 5, 10), Err(BasicError::CertSkExpire));
    assert_eq!(RbumCertServ::check_cert_usable(false, true, 5, 10), Ok(()));
    assert_eq!(RbumCertServ::check_cert_usable(false, false, 10, 10), Ok(()));
    assert!(RbumCertServ::sk_matches("pwd", "ak", "c", false, false, "pwd", None));
    assert!(!RbumCertServ::sk_matches("pwd", "ak", "c", false, false, "other", None));
    let stored = RbumCertServ::encrypt_sk("pwd", "ak", "c");
    assert!(RbumCertServ::sk_matches("pwd", "ak", "c", true, false, &stored, None));
    assert!(RbumCertServ::sk_matches("1234", "ak", "c", false, true, "ignored", Some("1234")));
    assert!(!RbumCertServ::sk_matches("1234", "ak", "c", false, true, "1234", None));
    assert!(!RbumCertServ::failures_counted(0, 3, 60));
    assert!(RbumCertServ::failures_counted(60, 3, 60));
    assert_eq!(RbumCertServ::after_validate_fail(60, 3, 120, 1), CertFailAction::StartCycle { cycle_sec: 60 });
    assert_eq!(RbumCertServ::after_validate_fail(60, 3, 120, 2), CertFailAction::Count);
    assert_eq!(RbumCertServ::after_validate_fail(60, 3, 120, 3), CertFailAction::Lock { duration_sec: 120 });
}

#[test]
fn test_reset_and_change_sk() {
    let c = conf();
    assert_eq!(RbumCertServ::reset_sk("new", false, "ak", Some(&c), "old").unwrap(), "new");
    let mut once = conf();
    once.repeatable = false;
    assert_eq!(RbumCertServ::reset_sk("old", false, "ak", Some(&once), "old"), Err(BasicError::CertResetSkDuplicate));
    assert_eq!(RbumCertServ::reset_sk("x", false, "ak", None, "x").unwrap(), "x");
    let mut ruled = conf();
    ruled.sk_rule = "^.{6,}$".to_string();
    assert_eq!(RbumCertServ::reset_sk("short", false, "ak", Some(&ruled), "old"), Err(BasicError::CertConfSkRuleNotMatch));
    assert_eq!(RbumCertServ::reset_sk("short", true, "ak", Some(&ruled), "old").unwrap(), "short");
    // change
    assert_eq!(RbumCertServ::change_sk("old", "myAKpass", "ak", Some(&c), "old", 10, 99), Err(BasicError::CertSkContainsAk));
    assert_eq!(RbumCertServ::change_sk("wrong", "new", "ak", Some(&c), "old", 10, 99), Err(BasicError::CertOriSkNotMatch));
    assert_eq!(RbumCertServ::change_sk("old", "new", "ak", Some(&c), "old", 10, 99).unwrap(), ("new".to_string(), 10 + 3600));
    assert_eq!(RbumCertServ::change_sk("old", "old", "ak", Some(&once), "old", 10, 99), Err(BasicError::CertSkDuplicate));
    assert_eq!(RbumCertServ::change_sk("old", "new", "ak", None, "old", 10, 99).unwrap(), ("new".to_string(), 99));
}

fn modify_req(ak: Option<&str>, sk: Option<&str>) -> RbumCertModifyReq {
    RbumCertModifyReq {
        ak: ak.map(|s| s.to_string()),
        sk: sk.map(|s| s.to_string()),
        sk_invisible: None,
        ignore_check_sk: false,
        ext: None,
        start_time: None,
        end_time: None,
        conn_uri: None,
        status: None,
    }
}

#[test]
fn test_before_modify_cert() {
    let mut c = conf();
    // without configuration nothing is checked or changed
    let mut req = modify_req(Some("a"), Some("x"));
    assert_eq!(RbumCertServ::before_modify_rbum(&mut req, "old", None, true), Ok(()));
    assert_eq!(req.sk, Some("x".to_string()));
    // the rules
    c.ak_rule = "^[a-z]+$".to_string();
    c.sk_rule = "^[0-9]+$".to_string();
    let mut req = modify_req(Some("AK"), None);
    assert_eq!(RbumCertServ::before_modify_rbum(&mut req, "old", Some(&c), false), Err(BasicError::CertConfAkRuleNotMatch));
    let mut req = modify_req(None, Some("abc"));
    assert_eq!(RbumCertServ::before_modify_rbum(&mut req, "old", Some(&c), false), Err(BasicError::CertConfSkRuleNotMatch));
    let mut req = modify_req(None, Some("abc"));
    req.ignore_check_sk = true;
    assert_eq!(RbumCertServ::before_modify_rbum(&mut req, "old", Some(&c), false), Ok(()));
    assert_eq!(req.sk, Some("abc".to_string()));
    let mut bad = c.clone();
    bad.ak_rule = "(".to_string();
    let mut req = modify_req(Some("ak"), None);
    assert_eq!(RbumCertServ::before_modify_rbum(&mut req, "old", Some(&bad), false), Err(BasicError::CertConfAkRuleInvalid));
    let mut bad = c.clone();
    bad.sk_rule = "(".to_string();
    let mut req = modify_req(None, Some("12"));
    assert_eq!(RbumCertServ::before_modify_rbum(&mut req, "old", Some(&bad), false), Err(BasicError::CertConfSkRuleInvalid));
    // the ak in use
    let mut req = modify_req(Some("ak"), None);
    assert_eq!(RbumCertServ::before_modify_rbum(&mut req, "old", Some(&c), true), Err(BasicError::CertAkDuplicate));
    // encryption: with the new ak, or the stored one
    c.sk_encrypted = true;
    let mut req = modify_req(Some("ak"), None);
    assert_eq!(RbumCertServ::before_modify_rbum(&mut req, "old", Some(&c), false), Err(BasicError::CertSkEmpty));
    let mut req = modify_req(Some("ak"), Some("12"));
    assert_eq!(RbumCertServ::before_modify_rbum(&mut req, "old", Some(&c), false), Ok(()));
    assert_eq!(req.sk, Some(RbumCertServ::encrypt_sk("12", "ak", "conf1")));
    assert_eq!(req.ak, Some("ak".to_string()));
    let mut req = modify_req(None, Some("12"));
    assert_eq!(RbumCertServ::before_modify_rbum(&mut req, "old", Some(&c), false), Ok(()));
    assert_eq!(req.sk, Some(RbumCertServ::encrypt_sk("12", "old", "conf1")));
}

#[test]
fn test_before_modify_cert_conf() {
    let mut req = RbumCertConfModifyReq {
        name: None,
        note: None,
        ak_rule: None,
        ak_note: None,
        sk_rule: None,
        sk_note: None,
        ext: None,
        sk_need: None,
        sk_encrypted: None,
        repeatable: None,
        is_basic: Some(true),
        rest_by_kinds: None,
        expire_sec: None,
        sk_lock_err_times: None,
        sk_lock_duration_sec: None,
        sk_lock_cycle_sec: None,
        coexist_num: None,
        conn_uri: None,
        status: None,
    };
    assert_eq!(RbumCertConfServ::before_modify_rbum(&req, true), Err(BasicError::CertConfBasicExist));
    assert_eq!(RbumCertConfServ::before_modify_rbum(&req, false), Ok(()));
    req.is_basic = Some(false);
    assert_eq!(RbumCertConfServ::before_modify_rbum(&req, true), Ok(()));
}

#[test]
fn test_basic_sk_outcome() {
    assert_eq!(RbumCertServ::basic_sk_outcome("pw", "ak", "conf1", false, false, "pw"), BasicSkOutcome::Valid);
    assert_eq!(RbumCertServ::basic_sk_outcome("pw", "ak", "conf1", false, false, "other"), BasicSkOutcome::TryBasicCert);
    assert_eq!(RbumCertServ::basic_sk_outcome("pw", "ak", "conf1", false, true, "other"), BasicSkOutcome::Invalid);
    let stored = RbumCertServ::encrypt_sk("pw", "ak", "conf1");
    assert_eq!(RbumCertServ::basic_sk_outcome("pw", "ak", "conf1", true, true, &stored), BasicSkOutcome::Valid);
    assert_eq!(RbumCertServ::basic_sk_outcome("pw", "ak", "conf1", false, true, &stored), BasicSkOutcome::Invalid);
}

#[test]
fn test_after_add_cert_coexist() {
    let ids: Vec<String> = ["c4", "c3", "c2", "c1"].iter().map(|s| s.to_string()).collect();
    assert_eq!(RbumCertServ::after_add_rbum(&ids, 1), vec!["c3", "c2", "c1"]);
    assert_eq!(RbumCertServ::after_add_rbum(&ids, 3), vec!["c1"]);
    assert!(RbumCertServ::after_add_rbum(&ids, 4).is_empty());
    assert!(RbumCertServ::after_add_rbum(&ids, 0).is_empty());
    assert!(RbumCertServ::after_add_rbum(&ids, -1).is_empty());
}

#[test]
fn test_validate_by_spec_cert_conf() {
    let cert = FoundCert { id: "cert1".to_string(), sk: "pw".to_string(), rel_rbum_kind: RbumCertRelKind::Item, rel_rbum_id: "item1".to_string(), end_time: 100 };
    let v = |found: Option<&FoundCert>, locked: bool, ignore: bool, now: i64, sk: &str, enc: bool, dynamic: bool, vcode: Option<&str>| {
        RbumCertServ::validate_by_spec_cert_conf(found, locked, ignore, now, sk, "ak", "conf1", enc, dynamic, vcode)
    };
    let valid = CertValidation::Valid { cert_id: "cert1".to_string(), rel_rbum_kind: RbumCertRelKind::Item, rel_rbum_id: "item1".to_string() };
    assert_eq!(v(None, false, false, 0, "pw", false, false, None), CertValidation::Refused(BasicError::CertValidError));
    assert_eq!(v(Some(&cert), false, false, 50, "pw", false, false, None), valid);
    // the lock comes before the expiry, the expiry before the sk
    assert_eq!(v(Some(&cert), true, false, 500, "bad", false, false, None), CertValidation::Refused(BasicError::CertLock));
    assert_eq!(v(Some(&cert), false, false, 500, "bad", false, false, None), CertValidation::Refused(BasicError::CertSkExpire));
    assert_eq!(v(Some(&cert), false, true, 500, "pw", false, false, None), valid);
    assert_eq!(v(Some(&cert), false, false, 50, "bad", false, false, None), CertValidation::Mismatch { rel_rbum_id: "item1".to_string() });
    // a dynamic configuration compares with the cached code, and fails without one
    assert_eq!(v(Some(&cert), false, false, 50, "1234", false, true, Some("1234")), valid);
    assert_eq!(v(Some(&cert), false, false, 50, "pw", false, true, None), CertValidation::Mismatch { rel_rbum_id: "item1".to_string() });
    // an encrypting configuration compares the digest
    let mut enc = cert.clone();
    enc.sk = RbumCertServ::encrypt_sk("pw", "ak", "conf1");
    assert_eq!(v(Some(&enc), false, false, 50, "pw", true, false, None), valid);
}
