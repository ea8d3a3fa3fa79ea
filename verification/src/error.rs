//! Errors of the library.
use vstd::prelude::*;

verus! {

/// The failures that the library reports, each with the code that the service layer
/// answers with.
#[derive(Debug, Clone, PartialEq, Eq, Structural)]
pub enum BasicError {
    /// An integer does not encode a value of the enumeration (``406-rbum-*-enum-init-error``).
    InvalidEnumValue,
    /// A text does not name a value of the enumeration.
    InvalidEnumName,
    /// The new own paths are not under the current own paths (``409-rbum-*-downgrade-error``).
    DowngradeNotQualified,
    /// The secret key is not 16 bytes long (``500-rbum-secret-attr-key-invalid``).
    SecretKeyInvalid,
    /// The ciphertext is too short (``500-rbum-secret-attr-ciphertext-invalid``).
    SecretCiphertextInvalid,
    /// The cipher rejected its input.
    CryptoFailed,
    /// No further node code is left on this level (``400-rbum-set-sys-code-saturated``).
    SysCodeSaturated,
    /// The request context is missing (``404-rbum-req-ctx-not-exist``).
    ContextMissing,
    /// The request context is not under the current own paths (``401-rbum-req-ctx-permission-denied``).
    ContextPermissionDenied,
    /// The request context has an owner (``403-rbum-req-ctx-owner-is-not-empty``).
    ContextOwnerNotEmpty,
    /// An environment value is not a number (``400-rbum-rel-env-value-not-number``).
    EnvValueNotNumber,
    /// A basic certificate configuration already exists (``409-rbum-cert-conf-basic-exist``).
    CertConfBasicExist,
    /// A certificate configuration of this kind already exists (``409-rbum-*-code-exist``).
    CertConfCodeExist,
    /// The ak rule is no valid regular expression (``400-rbum-cert-conf-ak-rule-invalid``).
    CertConfAkRuleInvalid,
    /// The sk rule is no valid regular expression (``400-rbum-cert-conf-sk-rule-invalid``).
    CertConfSkRuleInvalid,
    /// The ak does not match the ak rule (``400-rbum-cert-conf-ak-rule-not-match``).
    CertConfAkRuleNotMatch,
    /// The sk does not match the sk rule (``400-rbum-cert-conf-sk-rule-not-match``).
    CertConfSkRuleNotMatch,
    /// Both an sk and a verification code are given (``400-rbum-cert-sk-vcode-only-one``).
    CertSkVcodeOnlyOne,
    /// The sk is missing (``400-rbum-cert-sk-require``).
    CertSkRequire,
    /// An sk is given to a dynamic configuration (``400-rbum-cert-sk-need-empty``).
    CertSkNeedEmpty,
    /// The verification code is missing (``400-rbum-cert-vcode-require``).
    CertVcodeRequire,
    /// The ak is used already (``409-rbum-cert-ak-duplicate``).
    CertAkDuplicate,
    /// The certificate is locked (``400-rbum-cert-lock``).
    CertLock,
    /// The sk has expired (``409-rbum-cert-sk-expire``).
    CertSkExpire,
    /// The certificate does not validate (``401-rbum-cert-valid-error``).
    CertValidError,
    /// The new sk equals the stored one (``400-rbum-cert-reset-sk-duplicate``).
    CertResetSkDuplicate,
    /// The new sk contains the ak (``400-rbum-cert-sk-contains-ak``).
    CertSkContainsAk,
    /// The original sk does not match (``401-rbum-cert-ori-sk-not-match``).
    CertOriSkNotMatch,
    /// The ak of a certificate whose configuration encrypts changes without a new sk
    /// (``409-rbum-cert-ak-duplicate``, "sk cannot be empty").
    CertSkEmpty,
    /// The new sk equals the original one (``400-rbum-cert-ak-duplicate``).
    CertSkDuplicate,
}

} // verus!
