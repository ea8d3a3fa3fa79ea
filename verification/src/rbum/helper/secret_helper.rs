//! Helper for the storage encryption of the sensitive relationship attributes
//!
//! 关联关系敏感属性（``rbum_rel_attr.value``）的存储加解密工具
//!
//! Rules:
//! 1. Only the attributes whose kind attribute is ``secret`` are encrypted when storing.
//! 1. All the reading paths return the plaintext value.
//!
//! A stored ciphertext reads ``ENC(sm4v1:<iv><ciphertext>)``: the 16 hexadecimal
//! characters of the random initial vector, then the hexadecimal SM4-CBC ciphertext.
use crate::error::BasicError;
use crate::rbum::rbum_config::{RbumConfig, RbumConfigManager};
use crate::text::{chars_of, string_of, sub_chars, trim, trim_chars, utf8_of};
use tardis::basic::error::TardisError;
use tardis::TardisFuns;
use vstd::prelude::*;
use vstd::string::StringSliceAdditionalSpecFns;
use vstd::utf8::{encode_utf8, is_ascii_chars, is_char_boundary};

verus! {

/// Ciphertext prefix, the value without this prefix is treated as plaintext
///
/// 密文前缀，不带此前缀的值按明文处理（兼容存量数据）
pub const SECRET_ENCRYPTED_PREFIX: &'static str = "ENC(sm4v1:";

/// The SM4 key/iv length in bytes
pub const SM4_KEY_LEN: usize = 16;

#[verifier::external_type_specification]
#[verifier::external_body]
pub struct ExTardisError(TardisError);

/// The ciphertext prefix as characters.
pub open spec fn prefix_chars() -> Seq<char> {
    "ENC(sm4v1:"@
}

/// A lowercase hexadecimal digit.
pub open spec fn is_hex_char(c: char) -> bool {
    ('0' <= c && c <= '9') || ('a' <= c && c <= 'f')
}

/// A text of lowercase hexadecimal digits.
pub open spec fn is_hex_text(s: Seq<char>) -> bool {
    forall|i: int| 0 <= i < s.len() ==> is_hex_char(#[trigger] s[i])
}

/// The form of an SM4-CBC ciphertext: non-empty lowercase hexadecimal.
pub open spec fn is_sm4_ciphertext(c: Seq<char>) -> bool {
    c.len() > 0 && is_hex_text(c)
}

/// The hexadecimal SM4-CBC ciphertext that tardis makes of the data bytes with the key
/// and initial vector bytes.
pub uninterp spec fn sm4_cbc_encrypt_text(data: Seq<u8>, key: Seq<u8>, iv: Seq<u8>) -> Seq<char>;

/// The plaintext that tardis decrypts from the hexadecimal ciphertext bytes with the key
/// and initial vector bytes, when it succeeds.
pub uninterp spec fn sm4_cbc_decrypt_text(ciphertext: Seq<u8>, key: Seq<u8>, iv: Seq<u8>) -> Option<Seq<char>>;

/// ``TardisFuns::crypto.key.rand_16_hex``: 8 random bytes, hex-encoded. The contract
/// claims only the form of the result: 16 lowercase hexadecimal digits.
#[verifier::external_body]
fn rand_16_hex() -> (r: String)
    ensures
        r@.len() == 16,
        is_hex_text(r@),
{
    TardisFuns::crypto.key.rand_16_hex()
}

/// ``TardisFuns::crypto.sm4.encrypt_cbc``: SM4 in CBC mode with padding, hex-encoded.
/// The contract claims that it fails exactly when the key or the initial vector is not
/// 16 bytes long, and that the ciphertext is lowercase hexadecimal, two digits per byte
/// of the padded data (a whole number of 16-byte blocks, at least one more than the
/// full blocks of the data); the ciphertext itself is named, not stated.
#[verifier::external_body]
fn sm4_encrypt_cbc(data: &str, key: &str, iv: &str) -> (r: Result<String, TardisError>)
    ensures
        r is Ok <==> (utf8_of(key@).len() == 16 && utf8_of(iv@).len() == 16),
        r matches Ok(c) ==> c@ == sm4_cbc_encrypt_text(utf8_of(data@), utf8_of(key@), utf8_of(iv@)),
        r matches Ok(c) ==> is_hex_text(c@),
        r matches Ok(c) ==> c@.len() == 32 * (utf8_of(data@).len() / 16 + 1),
{
    TardisFuns::crypto.sm4.encrypt_cbc(data, key, iv)
}

/// ``TardisFuns::crypto.sm4.decrypt_cbc``: hex-decode, SM4-CBC decrypt, remove the
/// padding and read the bytes as UTF-8. The contract names the plaintext and claims
/// that decrypting what ``encrypt_cbc`` made of a text, with the same 16-byte key and
/// initial vector, gives the text back; on other input it says only that the result is
/// the named one. An empty ciphertext with a valid key and initial vector makes the source
/// read before the start of its empty output and panic, so the `requires` leaves it out.
#[verifier::external_body]
fn sm4_decrypt_cbc(ciphertext: &str, key: &str, iv: &str) -> (r: Result<String, TardisError>)
    requires
        ciphertext.spec_bytes().len() > 0,
    ensures
        r is Ok <==> sm4_cbc_decrypt_text(ciphertext.spec_bytes(), key.spec_bytes(), iv.spec_bytes())
            is Some,
        r matches Ok(p) ==> Some(p@) == sm4_cbc_decrypt_text(
            ciphertext.spec_bytes(),
            key.spec_bytes(),
            iv.spec_bytes(),
        ),
        (exists|d: Seq<char>|
            #![trigger sm4_cbc_encrypt_text(utf8_of(d), key.spec_bytes(), iv.spec_bytes())]
            key.spec_bytes().len() == 16 && iv.spec_bytes().len() == 16 && ciphertext.spec_bytes()
                == utf8_of(sm4_cbc_encrypt_text(utf8_of(d), key.spec_bytes(), iv.spec_bytes())))
            ==> r is Ok,
        r matches Ok(p) ==> forall|d: Seq<char>|
            #![trigger sm4_cbc_encrypt_text(utf8_of(d), key.spec_bytes(), iv.spec_bytes())]
            key.spec_bytes().len() == 16 && iv.spec_bytes().len() == 16 && ciphertext.spec_bytes()
                == utf8_of(sm4_cbc_encrypt_text(utf8_of(d), key.spec_bytes(), iv.spec_bytes()))
                ==> p@ == d,
{
    TardisFuns::crypto.sm4.decrypt_cbc(ciphertext, key, iv)
}

/// Check whether the value is encrypted
///
/// 判断值是否为密文
pub fn is_encrypted(value: &str) -> (r: bool)
    ensures
        r == prefix_chars().is_prefix_of(value@),
{
    let v = chars_of(value);
    let p = chars_of(SECRET_ENCRYPTED_PREFIX);
    proof {
        reveal_strlit("ENC(sm4v1:");
    }
    crate::text::starts_with_chars(&v, &p)
}

/// The stored form of a value encrypted with a key and an initial vector.
pub open spec fn encrypted_text(value: Seq<char>, key: Seq<char>, iv: Seq<char>) -> Seq<char> {
    prefix_chars() + iv + sm4_cbc_encrypt_text(utf8_of(value), utf8_of(key), utf8_of(iv)) + ")"@
}

/// Encrypt the value with the specified key and initial vector
pub fn encrypt_with_key_and_iv(value: &str, key: &str, iv: &str) -> (r: Result<String, BasicError>)
    ensures
        prefix_chars().is_prefix_of(value@) ==> (r matches Ok(s) && s@ == value@),
        !prefix_chars().is_prefix_of(value@) && utf8_of(key@).len() != 16 ==> r == Err::<
            String,
            BasicError,
        >(BasicError::SecretKeyInvalid),
        !prefix_chars().is_prefix_of(value@) && utf8_of(key@).len() == 16 && utf8_of(iv@).len()
            != 16 ==> r == Err::<String, BasicError>(BasicError::CryptoFailed),
        !prefix_chars().is_prefix_of(value@) && utf8_of(key@).len() == 16 && utf8_of(iv@).len()
            == 16 ==> (r matches Ok(s) && s@ == encrypted_text(value@, key@, iv@)
            && is_sm4_ciphertext(sm4_cbc_encrypt_text(utf8_of(value@), utf8_of(key@), utf8_of(iv@)))),
{
    if is_encrypted(value) {
        // Avoid encrypting the ciphertext again
        // 避免对密文二次加密
        return Ok(string_of(&chars_of(value)));
    }
    if key.as_bytes().len() != SM4_KEY_LEN {
        return Err(BasicError::SecretKeyInvalid);
    }
    let ciphertext = match sm4_encrypt_cbc(value, key, iv) {
        Ok(c) => c,
        Err(_) => {
            return Err(BasicError::CryptoFailed);
        },
    };
    let mut out = chars_of(SECRET_ENCRYPTED_PREFIX);
    let ivc = chars_of(iv);
    let ctc = chars_of(ciphertext.as_str());
    proof {
        reveal_strlit("ENC(sm4v1:");
        reveal_strlit(")");
    }
    let ghost p0 = out@;
    append_chars(&mut out, &ivc);
    append_chars(&mut out, &ctc);
    out.push(')');
    assert(out@ =~= encrypted_text(value@, key@, iv@));
    Ok(string_of(&out))
}

/// Append the characters of `b` to `a`.
fn append_chars(a: &mut Vec<char>, b: &Vec<char>)
    ensures
        final(a)@ == old(a)@ + b@,
{
    let mut i: usize = 0;
    while i < b.len()
        invariant
            i <= b@.len(),
            a@ == old(a)@ + b@.take(i as int),
        decreases b@.len() - i,
    {
        a.push(b[i]);
        assert(old(a)@ + b@.take(i + 1) =~= (old(a)@ + b@.take(i as int)).push(b@[i as int]));
        i = i + 1;
    }
    assert(b@.take(b@.len() as int) =~= b@);
}

/// Encrypt the value with the specified key, with a random initial vector
///
/// 使用指定密钥加密值
pub fn encrypt_with_key(value: &str, key: &str) -> (r: Result<String, BasicError>)
    ensures
        encrypted_with(value@, key@, r),
{
    if is_encrypted(value) {
        return Ok(string_of(&chars_of(value)));
    }
    if key.as_bytes().len() != SM4_KEY_LEN {
        return Err(BasicError::SecretKeyInvalid);
    }
    // The iv is random, and it is stored together with the ciphertext
    //
    // iv 随机生成，与密文一起存储
    let iv = rand_16_hex();
    proof {
        lemma_hex_is_ascii(iv@);
        vstd::utf8::is_ascii_chars_encode_utf8(iv@);
    }
    let r = encrypt_with_key_and_iv(value, key, iv.as_str());
    match r {
        Ok(s) => {
            assert(s@ == encrypted_text(value@, key@, iv@));
            Ok(s)
        },
        Err(e) => Err(e),
    }
}

/// Hexadecimal digits are ASCII.
pub proof fn lemma_hex_is_ascii(s: Seq<char>)
    requires
        is_hex_text(s),
    ensures
        is_ascii_chars(s),
{
    assert forall|i: int| 0 <= i < s.len() implies '\0' <= #[trigger] s[i] <= '\u{7f}' by {
        assert(is_hex_char(s[i]));
    }
}

/// The part of a stored value between the prefix and the closing ``)``, when the value
/// has both.
pub open spec fn secret_body(value: Seq<char>) -> Option<Seq<char>> {
    let pl = prefix_chars().len();
    if prefix_chars().is_prefix_of(value) && value.len() > pl && value.last() == ')' {
        Some(value.subrange(pl as int, value.len() - 1))
    } else {
        None
    }
}

/// Where decrypting would split the body of a stored value inside a character.
pub open spec fn decrypt_panics(value: Seq<char>, key: Seq<char>) -> bool {
    &&& secret_body(value) matches Some(b)
    &&& utf8_of(key).len() == 16
    &&& utf8_of(b).len() > 16
    &&& !is_char_boundary(utf8_of(b), 16)
}

/// What decrypting a stored value with a key gives.
pub open spec fn decrypt_result(value: Seq<char>, key: Seq<char>) -> Result<Seq<char>, BasicError> {
    match secret_body(value) {
        None => Ok(value),
        Some(b) => if utf8_of(key).len() != 16 {
            Err(BasicError::SecretKeyInvalid)
        } else if utf8_of(b).len() <= 16 {
            Err(BasicError::SecretCiphertextInvalid)
        } else {
            match sm4_cbc_decrypt_text(utf8_of(b).skip(16), utf8_of(key), utf8_of(b).take(16)) {
                Some(p) => Ok(p),
                None => Err(BasicError::CryptoFailed),
            }
        },
    }
}

/// The text `r` carries `res`.
pub open spec fn carries(r: Result<String, BasicError>, res: Result<Seq<char>, BasicError>) -> bool {
    match (r, res) {
        (Ok(s), Ok(t)) => s@ == t,
        (Err(e), Err(f)) => e == f,
        _ => false,
    }
}

/// Decrypt the value with the specified key
///
/// 使用指定密钥解密值
///
/// A value that [`encrypt_with_key`] stored decrypts to the original value.
pub fn decrypt_with_key(value: &str, key: &str) -> (r: Result<String, BasicError>)
    requires
        !decrypt_panics(value@, key@),
    ensures
        carries(r, decrypt_result(value@, key@)),
        forall|d: Seq<char>, iv: Seq<char>|
            #![trigger encrypted_text(d, key@, iv)]
            iv.len() == 16 && is_hex_text(iv) && utf8_of(key@).len() == 16 && is_sm4_ciphertext(
                sm4_cbc_encrypt_text(utf8_of(d), utf8_of(key@), utf8_of(iv)),
            ) && value@ == encrypted_text(d, key@, iv) ==> (r matches Ok(p) && p@ == d),
{
    let v = chars_of(value);
    let p = chars_of(SECRET_ENCRYPTED_PREFIX);
    proof {
        reveal_strlit("ENC(sm4v1:");
    }
    let pl = p.len();
    if !(crate::text::starts_with_chars(&v, &p) && v.len() > pl && v[v.len() - 1] == ')') {
        // Plaintext
        // 明文
        proof {
            lemma_no_body_not_encrypted_text(value@, key@);
        }
        return Ok(string_of(&v));
    }
    let body_chars = sub_chars(&v, pl, v.len() - 1);
    let body = string_of(&body_chars);
    if key.as_bytes().len() != SM4_KEY_LEN {
        return Err(BasicError::SecretKeyInvalid);
    }
    let body_str = body.as_str();
    if body_str.as_bytes().len() <= SM4_KEY_LEN {
        proof {
            lemma_encrypted_text_body(value@, key@);
        }
        return Err(BasicError::SecretCiphertextInvalid);
    }
    let (iv, ciphertext) = body_str.split_at(SM4_KEY_LEN);
    proof {
        assert(iv.spec_bytes() =~= utf8_of(body_chars@).take(16));
        assert(ciphertext.spec_bytes() =~= utf8_of(body_chars@).skip(16));
        lemma_encrypted_text_body(value@, key@);
    }
    match sm4_decrypt_cbc(ciphertext, key, iv) {
        Ok(plain) => Ok(plain),
        Err(_) => Err(BasicError::CryptoFailed),
    }
}

/// `encode_utf8` of a concatenation.
pub proof fn lemma_encode_concat(a: Seq<char>, b: Seq<char>)
    ensures
        encode_utf8(a + b) == encode_utf8(a) + encode_utf8(b),
    decreases a.len(),
{
    if a.len() == 0 {
        assert(a + b =~= b);
    } else {
        assert((a + b).drop_first() =~= a.drop_first() + b);
        lemma_encode_concat(a.drop_first(), b);
        assert(encode_utf8(a + b) =~= vstd::utf8::encode_scalar(a[0] as u32) + encode_utf8(
            a.drop_first(),
        ) + encode_utf8(b));
    }
}

/// A value without a body is no stored ciphertext.
proof fn lemma_no_body_not_encrypted_text(value: Seq<char>, key: Seq<char>)
    requires
        secret_body(value) is None,
    ensures
        forall|d: Seq<char>, iv: Seq<char>|
            #![trigger encrypted_text(d, key, iv)]
            value != encrypted_text(d, key, iv),
{
    reveal_strlit("ENC(sm4v1:");
    reveal_strlit(")");
    assert forall|d: Seq<char>, iv: Seq<char>| #![trigger encrypted_text(d, key, iv)] value
        != encrypted_text(d, key, iv) by {
        let e = encrypted_text(d, key, iv);
        if value == e {
            assert(prefix_chars().is_prefix_of(e)) by {
                assert forall|i: int| 0 <= i < prefix_chars().len() implies prefix_chars()[i]
                    == e[i] by {}
            }
            assert(e.last() == ')');
        }
    }
}

/// The body of a stored ciphertext: its initial vector, then its ciphertext, both ASCII,
/// so that the split after the initial vector falls on a character boundary.
pub proof fn lemma_encrypted_text_body(value: Seq<char>, key: Seq<char>)
    ensures
        forall|d: Seq<char>, iv: Seq<char>|
            #![trigger encrypted_text(d, key, iv)]
            iv.len() == 16 && is_hex_text(iv) && utf8_of(key).len() == 16 && is_sm4_ciphertext(
                sm4_cbc_encrypt_text(utf8_of(d), utf8_of(key), utf8_of(iv)),
            ) && value == encrypted_text(d, key, iv) ==> ({
                let c = sm4_cbc_encrypt_text(utf8_of(d), utf8_of(key), utf8_of(iv));
                &&& secret_body(value) == Some(iv + c)
                &&& utf8_of(iv + c).len() > 16
                &&& utf8_of(iv + c).take(16) == utf8_of(iv)
                &&& utf8_of(iv + c).skip(16) == utf8_of(c)
                &&& !decrypt_panics(value, key)
            }),
{
    reveal_strlit("ENC(sm4v1:");
    reveal_strlit(")");
    assert forall|d: Seq<char>, iv: Seq<char>|
        #![trigger encrypted_text(d, key, iv)]
        iv.len() == 16 && is_hex_text(iv) && utf8_of(key).len() == 16 && is_sm4_ciphertext(
            sm4_cbc_encrypt_text(utf8_of(d), utf8_of(key), utf8_of(iv)),
        ) && value == encrypted_text(d, key, iv) implies ({
        let c = sm4_cbc_encrypt_text(utf8_of(d), utf8_of(key), utf8_of(iv));
        &&& secret_body(value) == Some(iv + c)
        &&& utf8_of(iv + c).len() > 16
        &&& utf8_of(iv + c).take(16) == utf8_of(iv)
        &&& utf8_of(iv + c).skip(16) == utf8_of(c)
        &&& !decrypt_panics(value, key)
    }) by {
        let c = sm4_cbc_encrypt_text(utf8_of(d), utf8_of(key), utf8_of(iv));
        let e = encrypted_text(d, key, iv);
        assert(prefix_chars().is_prefix_of(e)) by {
            assert forall|i: int| 0 <= i < prefix_chars().len() implies prefix_chars()[i]
                == e[i] by {}
        }
        assert(e.subrange(10, e.len() - 1) =~= iv + c);
        lemma_encode_concat(iv, c);
        lemma_hex_is_ascii(iv);
        lemma_hex_is_ascii(c);
        vstd::utf8::is_ascii_chars_encode_utf8(iv);
        vstd::utf8::is_ascii_chars_encode_utf8(c);
        let b = utf8_of(iv + c);
        assert(b.take(16) =~= utf8_of(iv));
        assert(b.skip(16) =~= utf8_of(c));
        assert(b[16] == utf8_of(c)[0]);
        assert(is_hex_char(c[0]));
        vstd::utf8::encode_utf8_valid_utf8(iv + c);
        vstd::utf8::is_char_boundary_iff_is_leading_byte(b, 16);
        assert(vstd::utf8::is_leading_byte_width_1(b[16]));
    }
}

/// The trimmed encryption key configured for a module, empty when the module has none.
pub open spec fn secret_key_of(config: Option<RbumConfig>) -> Seq<char> {
    match config {
        Some(c) => trim(c.secret_attr_key@),
        None => Seq::empty(),
    }
}

/// The encryption switch configured for a module, off when the module has none.
pub open spec fn secret_switch_of(config: Option<RbumConfig>) -> bool {
    match config {
        Some(c) => c.secret_attr_encrypt,
        None => false,
    }
}

/// The trimmed key and the switch of one configuration.
fn secret_settings(conf: &RbumConfig) -> (r: (String, bool))
    ensures
        r.0@ == trim(conf.secret_attr_key@),
        r.1 == conf.secret_attr_encrypt,
{
    let key = string_of(&trim_chars(&chars_of(conf.secret_attr_key.as_str())));
    (key, conf.secret_attr_encrypt)
}

/// Get the encryption key and the encryption switch of the module
///
/// 获取当前模块的加密密钥及加密开关
pub fn get_secret_config(configs: &RbumConfigManager, module_code: &str) -> (r: (String, bool))
    ensures
        r.0@ == secret_key_of(configs.config(module_code@)),
        r.1 == secret_switch_of(configs.config(module_code@)),
{
    match configs.try_get_config(module_code, secret_settings) {
        Some(settings) => settings,
        None => (String::new(), false),
    }
}

/// Check whether the key is configured, the length must be valid
///
/// 判断是否已配置合法密钥
pub fn is_key_configured(configs: &RbumConfigManager, module_code: &str) -> (r: bool)
    ensures
        r == (utf8_of(secret_key_of(configs.config(module_code@))).len() == 16),
{
    let (key, _) = get_secret_config(configs, module_code);
    key.as_str().as_bytes().len() == SM4_KEY_LEN
}

/// Check whether the storage encryption is enabled, the key must be configured and the
/// encryption switch must be turned on
///
/// 判断存储加密是否已生效，需要已配置密钥且已开启加密开关
pub fn is_encrypt_enabled(configs: &RbumConfigManager, module_code: &str) -> (r: bool)
    ensures
        r == (secret_switch_of(configs.config(module_code@)) && utf8_of(
            secret_key_of(configs.config(module_code@)),
        ).len() == 16),
{
    let (_, encrypt) = get_secret_config(configs, module_code);
    encrypt && is_key_configured(configs, module_code)
}

/// What encrypting a value with a key, with a random initial vector, may give.
pub open spec fn encrypted_with(value: Seq<char>, key: Seq<char>, r: Result<String, BasicError>) -> bool {
    if prefix_chars().is_prefix_of(value) {
        r matches Ok(s) && s@ == value
    } else if utf8_of(key).len() != 16 {
        r == Err::<String, BasicError>(BasicError::SecretKeyInvalid)
    } else {
        r matches Ok(s) && exists|iv: Seq<char>|
            iv.len() == 16 && is_hex_text(iv) && s@ == #[trigger] encrypted_text(value, key, iv)
                && is_sm4_ciphertext(sm4_cbc_encrypt_text(utf8_of(value), utf8_of(key), utf8_of(iv)))
    }
}

/// Encrypt the value before storing
///
/// 存储前加密值
///
/// NOTE: The value is returned as is when the encryption is disabled or the key is not
/// configured (a configured key is 16 bytes long).
///
/// NOTE： 未开启加密或未配置密钥时原样返回。
pub fn encrypt(value: &str, configs: &RbumConfigManager, module_code: &str) -> (r: Result<String, BasicError>)
    ensures
        ({
            let key = secret_key_of(configs.config(module_code@));
            if !secret_switch_of(configs.config(module_code@)) || utf8_of(key).len() != 16 {
                r matches Ok(s) && s@ == value@
            } else {
                encrypted_with(value@, key, r)
            }
        }),
{
    if !is_encrypt_enabled(configs, module_code) {
        return Ok(string_of(&chars_of(value)));
    }
    let (key, _) = get_secret_config(configs, module_code);
    encrypt_with_key(value, key.as_str())
}

/// Decrypt the value after reading
///
/// 读取后解密值
///
/// NOTE: The value is returned as is when it is not encrypted.
///
/// NOTE： 值未加密时原样返回。
pub fn decrypt(value: &str, configs: &RbumConfigManager, module_code: &str) -> (r: Result<String, BasicError>)
    requires
        !decrypt_panics(value@, secret_key_of(configs.config(module_code@))),
    ensures
        carries(r, decrypt_result(value@, secret_key_of(configs.config(module_code@)))),
        forall|d: Seq<char>, iv: Seq<char>|
            #![trigger encrypted_text(d, secret_key_of(configs.config(module_code@)), iv)]
            iv.len() == 16 && is_hex_text(iv) && utf8_of(secret_key_of(configs.config(module_code@))).len() == 16
                && is_sm4_ciphertext(
                sm4_cbc_encrypt_text(utf8_of(d), utf8_of(secret_key_of(configs.config(module_code@))), utf8_of(iv)),
            ) && value@ == encrypted_text(d, secret_key_of(configs.config(module_code@)), iv) ==> (r matches Ok(p) && p@ == d),
{
    if !is_encrypted(value) {
        proof {
            lemma_encrypted_text_body(value@, secret_key_of(configs.config(module_code@)));
        }
        return Ok(string_of(&chars_of(value)));
    }
    let (key, _) = get_secret_config(configs, module_code);
    decrypt_with_key(value, key.as_str())
}

/// Decrypt the value, and return the original value when the decryption fails
///
/// 解密值，解密失败时返回原值
///
/// NOTE: It is used for the reading paths to avoid the reading failure caused by the
/// decryption failure.
///
/// NOTE： 用于读取路径，避免因解密失败导致读取不可用。
pub fn decrypt_or_original(value: &str, configs: &RbumConfigManager, module_code: &str) -> (r: String)
    requires
        !decrypt_panics(value@, secret_key_of(configs.config(module_code@))),
    ensures
        r@ == match decrypt_result(value@, secret_key_of(configs.config(module_code@))) {
            Ok(p) => p,
            Err(_) => value@,
        },
        forall|d: Seq<char>, iv: Seq<char>|
            #![trigger encrypted_text(d, secret_key_of(configs.config(module_code@)), iv)]
            iv.len() == 16 && is_hex_text(iv) && utf8_of(secret_key_of(configs.config(module_code@))).len() == 16
                && is_sm4_ciphertext(
                sm4_cbc_encrypt_text(utf8_of(d), utf8_of(secret_key_of(configs.config(module_code@))), utf8_of(iv)),
            ) && value@ == encrypted_text(d, secret_key_of(configs.config(module_code@)), iv) ==> r@ == d,
{
    if !is_encrypted(value) {
        proof {
            lemma_encrypted_text_body(value@, secret_key_of(configs.config(module_code@)));
        }
        return string_of(&chars_of(value));
    }
    match decrypt(value, configs, module_code) {
        Ok(plaintext) => plaintext,
        Err(_) => string_of(&chars_of(value)),
    }
}

} // verus!
