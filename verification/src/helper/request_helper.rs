//! Http request helper
//!
//! Http请求辅助操作
use crate::text::{
    chars_of, join_chars, join_with, keyed, lemma_filter_map_values, seq_lt, sort_by_text_key,
    split_chars, split_on, starts_with_chars, string_of, sub_chars, trim, trim_chars,
};
use vstd::prelude::*;

verus! {

/// The context extension that holds the remote address.
pub const REMOTE_ADDR: &'static str = "remote-addr";

/// The lowercase form of a text, as `str::to_lowercase` makes it.
pub uninterp spec fn lowercase(s: Seq<char>) -> Seq<char>;

/// ``str::to_lowercase``: the contract names the result (Unicode lowercase mapping of
/// each character) and states nothing more of it.
#[verifier::external_body]
pub(crate) fn to_lowercase(s: &str) -> (r: String)
    ensures
        r@ == lowercase(s@),
{
    s.to_lowercase()
}

/// Each text with its lowercase form as its key.
pub open spec fn lowercase_keyed(texts: Seq<Seq<char>>) -> Seq<(Seq<char>, Seq<char>)> {
    texts.map_values(|t: Seq<char>| (lowercase(t), t))
}

/// The keys of the keyed entries.
pub open spec fn entry_keys(entries: Seq<(Seq<char>, Seq<char>)>) -> Seq<Seq<char>> {
    entries.map_values(|e: (Seq<char>, Seq<char>)| e.0)
}

/// The entries with a key.
pub open spec fn with_key(k: Seq<char>) -> spec_fn((Seq<char>, Seq<char>)) -> bool {
    |e: (Seq<char>, Seq<char>)| e.0 == k
}

/// `sorted` holds the entries in the order of their keys, and the entries of each key in
/// the order in which they come in `entries`: the stable sort of `entries` by key.
pub open spec fn stably_sorted(entries: Seq<(Seq<char>, Seq<char>)>, sorted: Seq<(Seq<char>, Seq<char>)>) -> bool {
    &&& forall|i: int, j: int| 0 <= i < j < sorted.len() ==> !seq_lt((#[trigger] sorted[j]).0, (#[trigger] sorted[i]).0)
    &&& forall|k: Seq<char>| #[trigger] sorted.filter(with_key(k)) == entries.filter(with_key(k))
}

/// The lowercase forms of the texts, sorted (equal ones in the order of their texts), joined
/// with `&`.
pub open spec fn lowercase_sorted_join(texts: Seq<Seq<char>>, r: Seq<char>) -> bool {
    exists|sorted: Seq<(Seq<char>, Seq<char>)>|
        stably_sorted(lowercase_keyed(texts), sorted) && r == join_with(#[trigger] entry_keys(sorted), seq!['&'])
}

/// The views of the entries of text pairs.
pub open spec fn pair_views(v: Seq<(String, String)>) -> Seq<(Seq<char>, Seq<char>)> {
    v.map_values(|e: (String, String)| (e.0@, e.1@))
}

/// Sort the lowercase forms of texts, keeping the order of equal ones, and join them with `&`.
fn sort_and_join_lowercase(texts: Vec<Vec<char>>) -> (r: String)
    ensures
        lowercase_sorted_join(texts@.map_values(|t: Vec<char>| t@), r@),
{
    let ghost views = texts@.map_values(|t: Vec<char>| t@);
    let mut pairs: Vec<(String, String)> = Vec::new();
    let mut i: usize = 0;
    while i < texts.len()
        invariant
            i <= texts@.len(),
            views == texts@.map_values(|t: Vec<char>| t@),
            pair_views(pairs@) == lowercase_keyed(views.take(i as int)),
        decreases texts@.len() - i,
    {
        let text = string_of(&texts[i]);
        let key = to_lowercase(text.as_str());
        let ghost before = pairs@;
        pairs.push((key, text));
        proof {
            assert(views.take(i + 1) =~= views.take(i as int).push(texts@[i as int]@));
            assert(pair_views(pairs@) =~= pair_views(before).push((key@, text@)));
            assert(lowercase_keyed(views.take(i + 1)) =~= lowercase_keyed(views.take(i as int)).push(
                (lowercase(texts@[i as int]@), texts@[i as int]@),
            ));
        }
        i = i + 1;
    }
    proof {
        assert(views.take(i as int) =~= views);
    }
    let ghost input = pairs@;
    let sorted = sort_by_text_key(pairs);
    let ghost sv = pair_views(sorted@);
    proof {
        let f = |e: (String, String)| (e.0@, e.1@);
        assert forall|k: Seq<char>| #[trigger] sv.filter(with_key(k)) == lowercase_keyed(views).filter(with_key(k)) by {
            lemma_filter_map_values(sorted@, f, with_key(k));
            lemma_filter_map_values(input, f, with_key(k));
            let q = |a: (String, String)| with_key(k)(f(a));
            assert(q =~= keyed::<String>(k));
            assert(sorted@.filter(keyed::<String>(k)) == input.filter(keyed::<String>(k)));
        }
        assert forall|i: int, j: int| 0 <= i < j < sv.len() implies !seq_lt((#[trigger] sv[j]).0, (#[trigger] sv[i]).0) by {
            assert(sv[i].0 == sorted@[i].0@ && sv[j].0 == sorted@[j].0@);
        }
        assert(stably_sorted(lowercase_keyed(views), sv));
    }
    let mut out: Vec<Vec<char>> = Vec::new();
    let mut j: usize = 0;
    while j < sorted.len()
        invariant
            j <= sorted@.len(),
            sv == pair_views(sorted@),
            out@.map_values(|t: Vec<char>| t@) == entry_keys(sv).take(j as int),
        decreases sorted@.len() - j,
    {
        let ghost before = out@;
        out.push(chars_of(sorted[j].0.as_str()));
        proof {
            assert(out@.map_values(|t: Vec<char>| t@) =~= before.map_values(|t: Vec<char>| t@).push(sorted@[j as int].0@));
            assert(entry_keys(sv).take(j + 1) =~= entry_keys(sv).take(j as int).push(sv[j as int].0));
        }
        j = j + 1;
    }
    proof {
        assert(entry_keys(sv).take(j as int) =~= entry_keys(sv));
    }
    let sep = vec!['&'];
    let joined = join_chars(&out, &sep);
    proof {
        assert(sep@ =~= seq!['&']);
    }
    string_of(&joined)
}

/// Sort query string and convert to lowercase: the lowercase forms of the parts between
/// `&`, sorted (equal ones in their given order), joined with `&` again
///
/// 对查询串排序
pub fn sort_query(query: &str) -> (r: String)
    ensures
        query@.len() == 0 ==> r@.len() == 0,
        query@.len() > 0 ==> lowercase_sorted_join(split_on(query@, '&'), r@),
{
    let q = chars_of(query);
    if q.len() == 0 {
        return String::new();
    }
    let parts = split_chars(&q, '&');
    proof {
        assert(parts@.map_values(|t: Vec<char>| t@) =~= split_on(query@, '&'));
    }
    sort_and_join_lowercase(parts)
}

/// The `key=value` texts of query entries.
pub open spec fn entry_texts(query: Seq<(String, String)>) -> Seq<Seq<char>> {
    query.map_values(|e: (String, String)| e.0@ + seq!['='] + e.1@)
}

/// Sort query and convert to lowercase: the lowercase forms of the `key=value` texts of the
/// entries, sorted (equal ones in the order of the entries), joined with `&`
///
/// 对查询参数排序
pub fn sort_hashmap_query(query: &Vec<(String, String)>) -> (r: String)
    ensures
        query@.len() == 0 ==> r@.len() == 0,
        query@.len() > 0 ==> lowercase_sorted_join(entry_texts(query@), r@),
{
    if query.len() == 0 {
        return String::new();
    }
    let mut texts: Vec<Vec<char>> = Vec::new();
    let mut i: usize = 0;
    while i < query.len()
        invariant
            i <= query@.len(),
            texts@.map_values(|t: Vec<char>| t@) == entry_texts(query@).take(i as int),
        decreases query@.len() - i,
    {
        let mut t = chars_of(query[i].0.as_str());
        t.push('=');
        let v = chars_of(query[i].1.as_str());
        let ghost t0 = t@;
        let mut k: usize = 0;
        while k < v.len()
            invariant
                k <= v@.len(),
                t@ == t0 + v@.take(k as int),
            decreases v@.len() - k,
        {
            t.push(v[k]);
            proof {
                assert(t0 + v@.take(k + 1) =~= (t0 + v@.take(k as int)).push(v@[k as int]));
            }
            k = k + 1;
        }
        let ghost before = texts@;
        proof {
            assert(v@.take(k as int) =~= v@);
            assert(t@ =~= query@[i as int].0@ + seq!['='] + query@[i as int].1@);
        }
        texts.push(t);
        proof {
            assert(texts@.map_values(|t: Vec<char>| t@) =~= before.map_values(|t: Vec<char>| t@).push(
                query@[i as int].0@ + seq!['='] + query@[i as int].1@,
            ));
            assert(entry_texts(query@).take(i + 1) =~= entry_texts(query@).take(i as int).push(
                query@[i as int].0@ + seq!['='] + query@[i as int].1@,
            ));
        }
        i = i + 1;
    }
    proof {
        assert(entry_texts(query@).take(i as int) =~= entry_texts(query@));
    }
    sort_and_join_lowercase(texts)
}

/// An IP address: four octets, or eight 16-bit segments.
#[derive(Debug, Clone, Copy, PartialEq, Eq, Structural)]
pub enum IpAddress {
    V4(u8, u8, u8, u8),
    V6(u16, u16, u16, u16, u16, u16, u16, u16),
}

/// The IPv4 address that an IPv4-mapped IPv6 address (``::ffff:a.b.c.d``) carries, else the
/// address itself.
pub open spec fn mapped_to_ipv4(ip: IpAddress) -> IpAddress {
    match ip {
        IpAddress::V6(s0, s1, s2, s3, s4, s5, s6, s7) => if s0 == 0 && s1 == 0 && s2 == 0 && s3 == 0
            && s4 == 0 && s5 == 0xffff {
            IpAddress::V4((s6 / 256) as u8, (s6 % 256) as u8, (s7 / 256) as u8, (s7 % 256) as u8)
        } else {
            ip
        },
        IpAddress::V4(..) => ip,
    }
}

/// Convert IPv4-mapped IPv6 to ipv4
///
/// e.g. ``::ffff:192.168.0.11`` => ``192.168.0.11``
pub fn mapped_ipv6_to_ipv4(ip_addr: IpAddress) -> (r: IpAddress)
    ensures
        r == mapped_to_ipv4(ip_addr),
{
    match ip_addr {
        IpAddress::V6(s0, s1, s2, s3, s4, s5, s6, s7) => {
            if s0 == 0 && s1 == 0 && s2 == 0 && s3 == 0 && s4 == 0 && s5 == 0xffff {
                // 提取并返回 IPv4 地址部分
                IpAddress::V4((s6 / 256) as u8, (s6 % 256) as u8, (s7 / 256) as u8, (s7 % 256) as u8)
            } else {
                ip_addr
            }
        },
        IpAddress::V4(..) => ip_addr,
    }
}

/// The header prefix of a ``Forwarded`` value.
pub open spec fn forwarded_prefix() -> Seq<char> {
    "Forwarded: "@
}

/// The prefix of the ``for`` parameter.
pub open spec fn for_prefix() -> Seq<char> {
    "for="@
}

/// The first text of a list separated by `,`, trimmed.
pub open spec fn first_of_list(value: Seq<char>) -> Seq<char> {
    trim(split_on(value, ',')[0])
}

/// The address text of a ``Forwarded`` value: after the header prefix, the first part (split
/// at `;`) that starts with ``for=`` once trimmed, and in it the first address of the list
/// after ``for=``.
pub open spec fn forwarded_for_of(value: Seq<char>) -> Option<Seq<char>> {
    if !forwarded_prefix().is_prefix_of(value) {
        None
    } else {
        let parts = split_on(value.skip(forwarded_prefix().len() as int), ';');
        if exists|k: int| 0 <= k < parts.len() && #[trigger] for_prefix().is_prefix_of(trim(parts[k])) {
            let k = choose|k: int|
                0 <= k < parts.len() && #[trigger] for_prefix().is_prefix_of(trim(parts[k])) && forall|j: int|
                    0 <= j < k ==> !for_prefix().is_prefix_of(trim(parts[j]));
            Some(split_on(trim(parts[k]).skip(4), ',')[0])
        } else {
            None
        }
    }
}

/// The address text of the ``Forwarded`` header value: the text that
/// ``parse_forwarded_ip`` reads as an IP address
///
/// Forwarded format： `Forwarded: by=<identifier>; for=<identifier><,for=<identifier>>; host=<host>; proto=<http|https>`
pub fn forwarded_for(forwarded_value: &str) -> (r: Option<String>)
    ensures
        match forwarded_for_of(forwarded_value@) {
            Some(t) => r matches Some(s) && s@ == t,
            None => r is None,
        },
{
    let v = chars_of(forwarded_value);
    let prefix = chars_of("Forwarded: ");
    let for_p = chars_of("for=");
    proof {
        reveal_strlit("Forwarded: ");
        reveal_strlit("for=");
    }
    if !starts_with_chars(&v, &prefix) {
        return None;
    }
    assert(forwarded_prefix().is_prefix_of(forwarded_value@));
    let rest = sub_chars(&v, prefix.len(), v.len());
    let parts = split_chars(&rest, ';');
    let ghost sp = split_on(forwarded_value@.skip(11), ';');
    proof {
        assert(rest@ =~= forwarded_value@.skip(11));
    }
    let mut k: usize = 0;
    while k < parts.len()
        invariant
            k <= parts@.len(),
            parts@.len() == sp.len(),
            forall|m: int| 0 <= m < parts@.len() ==> #[trigger] parts@[m]@ == sp[m],
            for_p@ == for_prefix(),
            forall|j: int| 0 <= j < k ==> !for_prefix().is_prefix_of(trim(#[trigger] sp[j])),
            sp == split_on(forwarded_value@.skip(11), ';'),
            forwarded_prefix().is_prefix_of(forwarded_value@),
        decreases parts@.len() - k,
    {
        proof {
            reveal_strlit("Forwarded: ");
            reveal_strlit("for=");
        }
        let part = trim_chars(&parts[k]);
        if starts_with_chars(&part, &for_p) {
            let after = sub_chars(&part, 4, part.len());
            let items = split_chars(&after, ',');
            proof {
                assert(after@ =~= trim(sp[k as int]).skip(4));
                assert(for_prefix().is_prefix_of(trim(sp[k as int])));
                let w = choose|w: int|
                    0 <= w < sp.len() && #[trigger] for_prefix().is_prefix_of(trim(sp[w])) && forall|j: int|
                        0 <= j < w ==> !for_prefix().is_prefix_of(trim(sp[j]));
                if w < k {
                    assert(!for_prefix().is_prefix_of(trim(sp[w])));
                } else if w > k {
                    assert(!for_prefix().is_prefix_of(trim(sp[k as int])));
                }
                crate::text::lemma_split_on_nonempty(after@, ',');
            }
            return Some(string_of(&items[0]));
        }
        k = k + 1;
    }
    None
}

/// The first item of a list separated by `,`, trimmed: the text that ``X-Forwarded-For``
/// and ``X-Real-IP`` give as the address
pub fn first_list_item(value: &str) -> (r: String)
    ensures
        r@ == first_of_list(value@),
{
    let v = chars_of(value);
    let items = split_chars(&v, ',');
    proof {
        crate::text::lemma_split_on_nonempty(value@, ',');
    }
    string_of(&trim_chars(&items[0]))
}

/// The real address of a request: the one of the ``Forwarded`` header, else of
/// ``X-Forwarded-For``, else of ``X-Real-IP``, else the remote address, with an
/// IPv4-mapped IPv6 address given as IPv4.
pub open spec fn real_ip_of(
    forwarded: Option<IpAddress>,
    x_forwarded_for: Option<IpAddress>,
    x_real_ip: Option<IpAddress>,
    remote: Option<IpAddress>,
) -> Option<IpAddress> {
    let first = if forwarded is Some {
        forwarded
    } else if x_forwarded_for is Some {
        x_forwarded_for
    } else if x_real_ip is Some {
        x_real_ip
    } else {
        remote
    };
    match first {
        Some(ip) => Some(mapped_to_ipv4(ip)),
        None => None,
    }
}

/// Choose the real address of a request from the addresses that its headers and its
/// connection give
///
/// This only reads the main request headers and cannot guarantee that the real IP is
/// obtained.
pub fn select_real_ip(
    forwarded: Option<IpAddress>,
    x_forwarded_for: Option<IpAddress>,
    x_real_ip: Option<IpAddress>,
    remote: Option<IpAddress>,
) -> (r: Option<IpAddress>)
    ensures
        r == real_ip_of(forwarded, x_forwarded_for, x_real_ip, remote),
{
    let first = if forwarded.is_some() {
        forwarded
    } else if x_forwarded_for.is_some() {
        x_forwarded_for
    } else if x_real_ip.is_some() {
        x_real_ip
    } else {
        remote
    };
    match first {
        Some(ip) => Some(mapped_ipv6_to_ipv4(ip)),
        None => None,
    }
}

/// Mapping an address to IPv4 twice maps it once.
pub proof fn lemma_mapped_to_ipv4_idempotent(ip: IpAddress)
    ensures
        mapped_to_ipv4(mapped_to_ipv4(ip)) == mapped_to_ipv4(ip),
{
}

/// The headers are read in a fixed order of precedence: the ``Forwarded`` address when there
/// is one; else the ``X-Forwarded-For`` address; else the ``X-Real-IP`` address, whatever the
/// address of the connection; and the address of the connection only when no header gives
/// one. The chosen address is mapped to IPv4 where it carries one.
pub proof fn lemma_real_ip_precedence(
    forwarded: Option<IpAddress>,
    x_forwarded_for: Option<IpAddress>,
    x_real_ip: Option<IpAddress>,
    remote: Option<IpAddress>,
)
    ensures
        forwarded matches Some(ip) ==> real_ip_of(forwarded, x_forwarded_for, x_real_ip, remote) == Some(
            mapped_to_ipv4(ip),
        ),
        forwarded is None ==> (x_forwarded_for matches Some(ip) ==> real_ip_of(forwarded, x_forwarded_for, x_real_ip, remote)
            == Some(mapped_to_ipv4(ip))),
        forwarded is None && x_forwarded_for is None ==> (x_real_ip matches Some(ip) ==> real_ip_of(
            forwarded,
            x_forwarded_for,
            x_real_ip,
            remote,
        ) == Some(mapped_to_ipv4(ip))),
        forwarded is None && x_forwarded_for is None && x_real_ip is None ==> real_ip_of(
            forwarded,
            x_forwarded_for,
            x_real_ip,
            remote,
        ) == (match remote {
            Some(ip) => Some(mapped_to_ipv4(ip)),
            None => None,
        }),
        real_ip_of(forwarded, x_forwarded_for, x_real_ip, remote) is None <==> (forwarded is None && x_forwarded_for is None
            && x_real_ip is None && remote is None),
{
}

/// A header address wins over the address of the connection: with ``X-Real-IP`` the only
/// header, the result does not depend on the address of the connection.
pub proof fn lemma_real_ip_ignores_remote_behind_header(x_real_ip: IpAddress, remote1: Option<IpAddress>, remote2: Option<IpAddress>)
    ensures
        real_ip_of(None, None, Some(x_real_ip), remote1) == real_ip_of(None, None, Some(x_real_ip), remote2),
        real_ip_of(None, None, Some(x_real_ip), remote1) == Some(mapped_to_ipv4(x_real_ip)),
{
}

/// An IPv4 address stays as it is; an IPv6 address ``::ffff:s6:s7`` becomes the IPv4
/// address whose octets are the high and low bytes of `s6` then of `s7`; every other IPv6
/// address stays as it is.
pub proof fn lemma_mapped_to_ipv4_segments(ip: IpAddress)
    ensures
        ip is V4 ==> mapped_to_ipv4(ip) == ip,
        ip matches IpAddress::V6(s0, s1, s2, s3, s4, s5, s6, s7) ==> mapped_to_ipv4(ip) == (if s0 == 0 && s1 == 0 && s2
            == 0 && s3 == 0 && s4 == 0 && s5 == 0xffff {
            IpAddress::V4((s6 / 256) as u8, (s6 % 256) as u8, (s7 / 256) as u8, (s7 % 256) as u8)
        } else {
            ip
        }),
        ip matches IpAddress::V6(s0, s1, s2, s3, s4, s5, s6, s7) ==> (s0 == 0 && s1 == 0 && s2 == 0 && s3 == 0 && s4 == 0
            && s5 == 0xffff ==> mapped_to_ipv4(ip) is V4 && 256 * (mapped_to_ipv4(ip)->V4_0 as int) + (mapped_to_ipv4(ip)->V4_1 as int)
            == s6 && 256 * (mapped_to_ipv4(ip)->V4_2 as int) + (mapped_to_ipv4(ip)->V4_3 as int) == s7),
{
}


} // verus!
