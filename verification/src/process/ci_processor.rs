//! CI (Interface Console) Processor
//!
//! The CI type interface is mostly used for calls between systems, and the interface is
//! authenticated by Ak/Sk to ensure the security of the interface.
//!
//! CI类型的接口多用于系统之间的调用，通过Ak/Sk进行签名认证，保证接口的安全性。
use crate::error::BasicError;
use crate::helper::request_helper::{lowercase, lowercase_sorted_join, sort_query, to_lowercase};
use crate::text::{chars_of, split_on, string_of, utf8_of};
use tardis::chrono::Utc;
use tardis::TardisFuns;
use vstd::prelude::*;
use vstd::string::StringExecFns;

verus! {

/// Application key configuration
#[derive(Debug, Clone)]
pub struct AppKeyConfig {
    pub head_key_date_flag: String,
    pub ak: String,
    pub sk: String,
}

impl Default for AppKeyConfig {
    fn default() -> (r: Self)
        ensures
            r.head_key_date_flag@ == "Bios-Date"@,
            r.ak@.len() == 0,
            r.sk@.len() == 0,
    {
        AppKeyConfig {
            head_key_date_flag: String::from_str("Bios-Date"),
            ak: String::new(),
            sk: String::new(),
        }
    }
}

/// The lowercase hexadecimal HMAC-SHA256 of the data bytes under the key bytes.
pub uninterp spec fn hmac_sha256_hex(data: Seq<u8>, key: Seq<u8>) -> Seq<char>;

/// The standard Base64 encoding (with padding) of the bytes.
pub uninterp spec fn base64_of(data: Seq<u8>) -> Seq<char>;

/// ``TardisFuns::crypto.digest.hmac_sha256``: the hexadecimal HMAC-SHA256 digest of the
/// data under the key. The HMAC of the source takes keys of any length, so it never
/// fails; the contract claims that and names the digest.
#[verifier::external_body]
fn hmac_sha256(data: &str, key: &str) -> (r: Option<String>)
    ensures
        r is Some,
        r matches Some(s) ==> s@ == hmac_sha256_hex(utf8_of(data@), utf8_of(key@)),
{
    TardisFuns::crypto.digest.hmac_sha256(data, key).ok()
}

/// ``TardisFuns::crypto.base64.encode``: the standard Base64 encoding of the bytes. The
/// contract names the encoding.
#[verifier::external_body]
fn base64_encode(data: &str) -> (r: String)
    ensures
        r@ == base64_of(utf8_of(data@)),
{
    TardisFuns::crypto.base64.encode(data)
}

/// ``Utc::now()`` formatted as an HTTP date (``%a, %d %b %Y %T GMT``); the time of the call,
/// so the contract states nothing of it.
#[verifier::external_body]
fn now_http_date() -> (r: String) {
    Utc::now().format("%a, %d %b %Y %T GMT").to_string()
}

/// The text that is signed: method, date, path and sorted query on lines of their own,
/// in lowercase.
pub open spec fn text_to_sign(method: Seq<char>, date: Seq<char>, path: Seq<char>, sorted_query: Seq<char>) -> Seq<char> {
    lowercase(method + seq!['\n'] + date + seq!['\n'] + path + seq!['\n'] + sorted_query)
}

/// The signature of the text under the secret key.
pub open spec fn signature_of(text: Seq<char>, sk: Seq<char>) -> Seq<char> {
    base64_of(utf8_of(hmac_sha256_hex(utf8_of(text), utf8_of(sk))))
}

/// The query sorted as ``sort_query`` sorts it.
pub open spec fn is_sorted_query(query: Seq<char>, sorted: Seq<char>) -> bool {
    (query.len() == 0 ==> sorted.len() == 0) && (query.len() > 0 ==> lowercase_sorted_join(split_on(query, '&'), sorted))
}

/// The header after signing: the given entries, then ``Authorization`` with
/// ``{ak}:{signature}``, then the date under the configured date header.
pub open spec fn signed_header(
    config: AppKeyConfig,
    old: Seq<(String, String)>,
    new: Seq<(String, String)>,
    signature: Seq<char>,
    date: Seq<char>,
) -> bool {
    &&& new.len() == old.len() + 2
    &&& forall|i: int| 0 <= i < old.len() ==> new[i] == old[i]
    &&& new[old.len() as int].0@ == "Authorization"@
    &&& new[old.len() as int].1@ == config.ak@ + seq![':'] + signature
    &&& new[old.len() as int + 1].0@ == config.head_key_date_flag@
    &&& new[old.len() as int + 1].1@ == date
}

/// Append the characters of `b` to `a`.
fn append(a: &mut Vec<char>, b: &str)
    ensures
        final(a)@ == old(a)@ + b@,
{
    let bc = chars_of(b);
    let mut i: usize = 0;
    while i < bc.len()
        invariant
            i <= bc@.len(),
            bc@ == b@,
            a@ == old(a)@ + bc@.take(i as int),
        decreases bc@.len() - i,
    {
        a.push(bc[i]);
        assert(old(a)@ + bc@.take(i + 1) =~= (old(a)@ + bc@.take(i as int)).push(bc@[i as int]));
        i = i + 1;
    }
    assert(bc@.take(i as int) =~= bc@);
}

/// Generate the signature of a request made at the given date, and return the request
/// header with the signature
pub fn signature_at(
    app_key_config: &AppKeyConfig,
    method: &str,
    path: &str,
    query: &str,
    header: Vec<(String, String)>,
    date: &str,
) -> (r: Result<Vec<(String, String)>, BasicError>)
    ensures
        r is Ok,
        r matches Ok(h) ==> exists|sorted: Seq<char>|
            #[trigger] is_sorted_query(query@, sorted) && signed_header(
                *app_key_config,
                header@,
                h@,
                signature_of(text_to_sign(method@, date@, path@, sorted), app_key_config.sk@),
                date@,
            ),
{
    let sorted_req_query = sort_query(query);
    let mut text: Vec<char> = Vec::new();
    append(&mut text, method);
    text.push('\n');
    append(&mut text, date);
    text.push('\n');
    append(&mut text, path);
    text.push('\n');
    append(&mut text, sorted_req_query.as_str());
    let plain = string_of(&text);
    let lower = to_lowercase(plain.as_str());
    let digest = match hmac_sha256(lower.as_str(), app_key_config.sk.as_str()) {
        Some(d) => d,
        None => {
            return Err(BasicError::CryptoFailed);
        },
    };
    let signature = base64_encode(digest.as_str());
    let mut auth = chars_of(app_key_config.ak.as_str());
    auth.push(':');
    append(&mut auth, signature.as_str());
    let mut header = header;
    let ghost before = header@;
    header.push((String::from_str("Authorization"), string_of(&auth)));
    header.push((app_key_config.head_key_date_flag.clone(), string_of(&chars_of(date))));
    proof {
        reveal_strlit("Authorization");
        assert(plain@ =~= method@ + seq!['\n'] + date@ + seq!['\n'] + path@ + seq!['\n'] + sorted_req_query@);
        assert(auth@ =~= app_key_config.ak@ + seq![':'] + signature@);
        assert(is_sorted_query(query@, sorted_req_query@));
        assert(signed_header(
            *app_key_config,
            before,
            header@,
            signature_of(text_to_sign(method@, date@, path@, sorted_req_query@), app_key_config.sk@),
            date@,
        ));
    }
    Ok(header)
}

/// Generate signature
///
/// Generate a signature for the request made now and return the request header with the
/// signature
pub fn signature(app_key_config: &AppKeyConfig, method: &str, path: &str, query: &str, header: Vec<(String, String)>) -> (r: Result<Vec<(String, String)>, BasicError>)
    ensures
        r is Ok,
        r matches Ok(h) ==> exists|sorted: Seq<char>, date: Seq<char>|
            is_sorted_query(query@, sorted) && #[trigger] signed_header(
                *app_key_config,
                header@,
                h@,
                signature_of(text_to_sign(method@, date, path@, sorted), app_key_config.sk@),
                date,
            ),
{
    let date = now_http_date();
    signature_at(app_key_config, method, path, query, header, date.as_str())
}

/// The signed text is the lowercase form of the method, the date, the path and the sorted
/// query, each on a line of its own, in that order.
pub proof fn lemma_text_to_sign_layout(method: Seq<char>, date: Seq<char>, path: Seq<char>, sorted_query: Seq<char>)
    ensures
        text_to_sign(method, date, path, sorted_query) == lowercase(
            method + seq!['\n'] + date + seq!['\n'] + path + seq!['\n'] + sorted_query,
        ),
{
}

/// The path is part of what is signed: two requests that differ only in their paths sign
/// different texts, where both texts are already in lowercase.
pub proof fn lemma_path_is_signed(method: Seq<char>, date: Seq<char>, path1: Seq<char>, path2: Seq<char>, sorted_query: Seq<char>)
    requires
        path1 != path2,
        lowercase(method + seq!['\n'] + date + seq!['\n'] + path1 + seq!['\n'] + sorted_query) == method + seq!['\n']
            + date + seq!['\n'] + path1 + seq!['\n'] + sorted_query,
        lowercase(method + seq!['\n'] + date + seq!['\n'] + path2 + seq!['\n'] + sorted_query) == method + seq!['\n']
            + date + seq!['\n'] + path2 + seq!['\n'] + sorted_query,
    ensures
        text_to_sign(method, date, path1, sorted_query) != text_to_sign(method, date, path2, sorted_query),
{
    let x = method + seq!['\n'] + date + seq!['\n'] + path1 + seq!['\n'] + sorted_query;
    let y = method + seq!['\n'] + date + seq!['\n'] + path2 + seq!['\n'] + sorted_query;
    let off = method.len() + date.len() + 2;
    if path1.len() == path2.len() {
        assert(!(path1 =~= path2));
        let k = choose|k: int| 0 <= k < path1.len() && path1[k] != path2[k];
        assert(x[off + k] == path1[k]);
        assert(y[off + k] == path2[k]);
    } else {
        assert(x.len() != y.len());
    }
    assert(x != y);
}

/// A signed header carries, after the given entries, ``Authorization`` with
/// ``{ak}:{Base64 of the hex HMAC-SHA256}`` of the lowercase text ``{method}\n{date}\n{path}\n{sorted query}``
/// under the secret key, then the date under the configured date header.
pub proof fn lemma_authorization_value(
    config: AppKeyConfig,
    old: Seq<(String, String)>,
    new: Seq<(String, String)>,
    method: Seq<char>,
    date: Seq<char>,
    path: Seq<char>,
    sorted_query: Seq<char>,
)
    requires
        signed_header(config, old, new, signature_of(text_to_sign(method, date, path, sorted_query), config.sk@), date),
    ensures
        new.len() == old.len() + 2,
        new.subrange(0, old.len() as int) == old,
        new[old.len() as int].0@ == "Authorization"@,
        new[old.len() as int].1@ == config.ak@ + seq![':'] + base64_of(
            utf8_of(
                hmac_sha256_hex(
                    utf8_of(lowercase(method + seq!['\n'] + date + seq!['\n'] + path + seq!['\n'] + sorted_query)),
                    utf8_of(config.sk@),
                ),
            ),
        ),
        new[old.len() as int + 1].0@ == config.head_key_date_flag@,
        new[old.len() as int + 1].1@ == date,
{
    assert(new.subrange(0, old.len() as int) =~= old);
}


} // verus!
