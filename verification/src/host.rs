//! The check of the `Host` header against the configured list, which keeps a browser from being
//! talked into reaching the server under a foreign name (DNS rebinding).
use vstd::prelude::*;
use vstd::string::*;

use http::HeaderMap;
use http::HeaderValue;

use crate::text::{after, before, char_vec, find, lemma_find, lemma_find_is, occurs, same_text};

verus! {

/// `http::HeaderMap`: header fields by name. What it holds is named by [`header_fields`].
#[verifier::external_type_specification]
#[verifier::external_body]
#[verifier::reject_recursive_types(T)]
pub struct ExHeaderMap<T>(http::HeaderMap<T>);

/// `http::HeaderValue`: the bytes of one header value. They are named by [`value_bytes`].
#[verifier::external_type_specification]
#[verifier::external_body]
pub struct ExHeaderValue(http::HeaderValue);

/// The fields that a header map holds: for each name, in lower case, the values it was given, in
/// order.
pub uninterp spec fn header_fields(headers: HeaderMap) -> Map<Seq<char>, Seq<Seq<u8>>>;

/// The bytes that a header value holds.
pub uninterp spec fn value_bytes(value: HeaderValue) -> Seq<u8>;

/// The first value of the `Host` field, where the fields have one.
pub open spec fn first_host(fields: Map<Seq<char>, Seq<Seq<u8>>>) -> Option<Seq<u8>> {
    if fields.contains_key("host"@) && fields["host"@].len() > 0 {
        Some(fields["host"@][0])
    } else {
        None
    }
}

/// `HeaderMap::get` with the name `http::header::HOST` gives the first value stored under that
/// name, and `None` where there is none.
#[verifier::external_body]
fn get_host(headers: &HeaderMap) -> (value: Option<&HeaderValue>)
    ensures
        match value {
            Some(v) => first_host(header_fields(*headers)) == Some(value_bytes(*v)),
            None => first_host(header_fields(*headers)) is None,
        },
{
    headers.get(http::header::HOST)
}

/// A byte that may stand in a header value read as text: visible ASCII, a space or a tab.
pub open spec fn is_visible_ascii(b: u8) -> bool {
    32 <= b < 127 || b == 9
}

/// The text of a header value, where all its bytes are visible ASCII.
pub open spec fn visible_text(bytes: Seq<u8>) -> Option<Seq<char>> {
    if forall|i: int| 0 <= i < bytes.len() ==> is_visible_ascii(#[trigger] bytes[i]) {
        Some(bytes.map_values(|b: u8| b as char))
    } else {
        None
    }
}

/// `HeaderValue::to_str` gives the bytes of the value as text where all of them are visible
/// ASCII (tab counted in), and an error otherwise.
#[verifier::external_body]
fn value_text(value: &HeaderValue) -> (text: Option<&str>)
    ensures
        match text {
            Some(t) => visible_text(value_bytes(*value)) == Some(t@),
            None => visible_text(value_bytes(*value)) is None,
        },
{
    value.to_str().ok()
}

/// What stands after the last `c` of `s`; all of `s` where there is none.
pub open spec fn after_last(s: Seq<char>, c: char) -> Seq<char>
    decreases s.len(),
{
    if occurs(s, c) {
        proof {
            lemma_find(s, c);
        }
        after_last(after(s, c), c)
    } else {
        s
    }
}

/// A decimal digit.
pub open spec fn is_digit(c: char) -> bool {
    '0' <= c <= '9'
}

/// The number that decimal digits denote.
pub open spec fn decimal(digits: Seq<char>) -> nat
    decreases digits.len(),
{
    if digits.len() == 0 {
        0
    } else {
        (decimal(digits.drop_last()) * 10 + (digits.last() as nat - '0' as nat)) as nat
    }
}

/// A text without a `+` at its start.
pub open spec fn without_plus(s: Seq<char>) -> Seq<char> {
    if s.len() > 0 && s[0] == '+' {
        s.drop_first()
    } else {
        s
    }
}

/// Whether a text is made of decimal digits, at least one.
pub open spec fn is_number(s: Seq<char>) -> bool {
    s.len() > 0 && forall|i: int| 0 <= i < s.len() ==> is_digit(#[trigger] s[i])
}

/// The 16-bit number that a text denotes: decimal digits after an optional `+`.
pub open spec fn u16_in(s: Seq<char>) -> Option<u16> {
    let digits = without_plus(s);
    if is_number(digits) && decimal(digits) <= u16::MAX {
        Some(decimal(digits) as u16)
    } else {
        None
    }
}

/// The host of an authority: what follows the last `@`, up to its port, or a whole `[...]`.
pub open spec fn authority_host(text: Seq<char>) -> Seq<char> {
    let host_port = after_last(text, '@');
    if host_port.len() > 0 && host_port[0] == '[' {
        host_port.take(find(host_port, ']') + 1)
    } else {
        before(host_port, ':')
    }
}

/// The port of an authority: the number after its last `:`, where a number stands there.
pub open spec fn authority_port(text: Seq<char>) -> Option<u16> {
    if occurs(text, ':') {
        u16_in(after_last(text, ':'))
    } else {
        None
    }
}

/// A character of an ordinary host name or an IPv4 address.
pub open spec fn is_name_char(c: char) -> bool {
    'a' <= c <= 'z' || 'A' <= c <= 'Z' || is_digit(c) || c == '-' || c == '.' || c == '_'
}

/// A character of an IPv6 address.
pub open spec fn is_v6_char(c: char) -> bool {
    'a' <= c <= 'f' || 'A' <= c <= 'F' || is_digit(c) || c == ':' || c == '.'
}

/// An ordinary host name or an IPv4 address, and nothing else.
pub open spec fn is_host_name(s: Seq<char>) -> bool {
    &&& s.len() > 0
    &&& forall|i: int| 0 <= i < s.len() ==> is_name_char(#[trigger] s[i])
}

/// An IPv6 address without brackets: its characters, two colons among them.
pub open spec fn is_bare_v6(s: Seq<char>) -> bool {
    &&& forall|i: int| 0 <= i < s.len() ==> is_v6_char(#[trigger] s[i])
    &&& exists|i: int, j: int| 0 <= i < j < s.len() && s[i] == ':' && s[j] == ':'
}

/// Nothing, or a colon with decimal digits after it.
pub open spec fn is_port_suffix(s: Seq<char>) -> bool {
    s.len() > 0 ==> s[0] == ':' && forall|i: int| 1 <= i < s.len() ==> is_digit(#[trigger] s[i])
}

/// A host name or an IPv4 address, with or without a port.
pub open spec fn is_name_authority(s: Seq<char>) -> bool {
    let name = before(s, ':');
    is_host_name(name) && is_port_suffix(s.skip(name.len() as int))
}

/// An IPv6 address in brackets, with at most eight colons in it, with or without a port.
pub open spec fn is_v6_authority(s: Seq<char>) -> bool {
    let close = find(s, ']');
    &&& s.len() > 0 && s[0] == '['
    &&& close < s.len()
    &&& forall|i: int| 1 <= i < close ==> is_v6_char(#[trigger] s[i])
    &&& s.subrange(1, close).filter(|c: char| c == ':').len() <= 8
    &&& is_port_suffix(s.skip(close + 1))
}

/// Whether the `http` crate takes `text` for the authority of a URI.
pub uninterp spec fn is_authority(text: Seq<char>) -> bool;

/// `http::uri::Authority::try_from`, with `host` and `port_u16` of what it gives. Whether a text
/// is accepted at all takes the crate's whole grammar to say, so that has a name,
/// [`is_authority`]; beside it stand the everyday cases: a host name, an IPv4 address and a
/// bracketed IPv6 address are accepted, with and without a port, and an IPv6 address without
/// brackets is not. Of an accepted text the host and the port are those of [`authority_host`]
/// and [`authority_port`].
#[verifier::external_body]
fn parse_authority(text: &str) -> (parts: Option<(String, Option<u16>)>)
    ensures
        match parts {
            Some((host, port)) => {
                &&& is_authority(text@)
                &&& host@ == authority_host(text@)
                &&& port == authority_port(text@)
            },
            None => !is_authority(text@),
        },
        is_name_authority(text@) || is_v6_authority(text@) ==> parts is Some,
        is_bare_v6(text@) ==> parts is None,
{
    match http::uri::Authority::try_from(text) {
        Ok(authority) => Some((authority.host().to_owned(), authority.port_u16())),
        Err(_) => None,
    }
}

/// The Unicode property `White_Space`.
pub open spec fn is_white_space(c: char) -> bool {
    ||| '\u{9}' <= c <= '\u{d}'
    ||| c == ' '
    ||| c == '\u{85}'
    ||| c == '\u{a0}'
    ||| c == '\u{1680}'
    ||| '\u{2000}' <= c <= '\u{200a}'
    ||| c == '\u{2028}' || c == '\u{2029}'
    ||| c == '\u{202f}' || c == '\u{205f}'
    ||| c == '\u{3000}'
}

/// `char::is_whitespace` tells whether a character has the Unicode property `White_Space`.
pub assume_specification[ char::is_whitespace ](c: char) -> (yes: bool)
    ensures
        yes == is_white_space(c),
;

/// The ASCII lower case of a character; one that is not an ASCII capital stays.
pub open spec fn lower_char(c: char) -> char {
    if 'A' <= c <= 'Z' {
        (c as u8 + 32) as char
    } else {
        c
    }
}

/// A text in ASCII lower case.
pub open spec fn lower(s: Seq<char>) -> Seq<char> {
    s.map_values(|c: char| lower_char(c))
}

/// `str::to_ascii_lowercase` maps the letters `A` to `Z` to `a` to `z` and keeps all else.
pub assume_specification[ str::to_ascii_lowercase ](s: &str) -> (lowered: String)
    ensures
        lowered@ == lower(s@),
;

/// `s` without the characters at its start that satisfy `drop`.
pub open spec fn trim_start(s: Seq<char>, drop: spec_fn(char) -> bool) -> Seq<char>
    decreases s.len(),
{
    if s.len() > 0 && drop(s[0]) {
        trim_start(s.drop_first(), drop)
    } else {
        s
    }
}

/// `s` without the characters at its end that satisfy `drop`.
pub open spec fn trim_end(s: Seq<char>, drop: spec_fn(char) -> bool) -> Seq<char>
    decreases s.len(),
{
    if s.len() > 0 && drop(s.last()) {
        trim_end(s.drop_last(), drop)
    } else {
        s
    }
}

/// `s` without the characters at both ends that satisfy `drop`.
pub open spec fn trim(s: Seq<char>, drop: spec_fn(char) -> bool) -> Seq<char> {
    trim_end(trim_start(s, drop), drop)
}

/// `s` without white space at its ends.
pub open spec fn trim_space(s: Seq<char>) -> Seq<char> {
    trim(s, |c: char| is_white_space(c))
}

/// The form in which two hosts are compared: without brackets around it, in lower case.
pub open spec fn normal_host(host: Seq<char>) -> Seq<char> {
    lower(trim(trim(host, |c: char| c == '['), |c: char| c == ']'))
}

/// A host in normal form, with its port where one was given.
pub struct NormalizedAuthority {
    /// The host, without brackets and in lower case.
    pub host: String,
    /// The port.
    pub port: Option<u16>,
}

impl View for NormalizedAuthority {
    type V = (Seq<char>, Option<u16>);

    open spec fn view(&self) -> (Seq<char>, Option<u16>) {
        (self.host@, self.port)
    }
}

/// What an entry of the list of accepted hosts stands for. A blank entry stands for nothing; one
/// that is no authority is taken as a host without a port.
pub open spec fn allowed_entry(entry: Seq<char>) -> Option<(Seq<char>, Option<u16>)> {
    let text = trim_space(entry);
    if text.len() == 0 {
        None
    } else if is_authority(text) {
        Some((normal_host(authority_host(text)), authority_port(text)))
    } else {
        Some((normal_host(text), None))
    }
}

/// Whether an entry admits an authority: the host must be the same, and the port too where the
/// entry has one.
pub open spec fn entry_admits(
    entry: Option<(Seq<char>, Option<u16>)>,
    authority: (Seq<char>, Option<u16>),
) -> bool {
    match entry {
        Some((host, port)) => host == authority.0 && (port is Some ==> port == authority.1),
        None => false,
    }
}

/// Whether the list of accepted hosts admits an authority. An empty list admits all.
pub open spec fn authority_allowed(
    authority: (Seq<char>, Option<u16>),
    allowed_hosts: Seq<Seq<char>>,
) -> bool {
    allowed_hosts.len() == 0 || exists|i: int|
        0 <= i < allowed_hosts.len() && entry_admits(
            allowed_entry(#[trigger] allowed_hosts[i]),
            authority,
        )
}

/// Whether a request with this `Host` text is admitted. Without a text, or with one that is no
/// authority, it is admitted only where the list is empty.
pub open spec fn text_allowed(text: Option<Seq<char>>, allowed_hosts: Seq<Seq<char>>) -> bool {
    match text {
        Some(t) if is_authority(t) => authority_allowed(
            (normal_host(authority_host(t)), authority_port(t)),
            allowed_hosts,
        ),
        _ => allowed_hosts.len() == 0,
    }
}

/// The text of the first `Host` field, where there is one and it is visible ASCII.
pub open spec fn host_text(fields: Map<Seq<char>, Seq<Seq<u8>>>) -> Option<Seq<char>> {
    match first_host(fields) {
        Some(bytes) => visible_text(bytes),
        None => None,
    }
}

/// Cuts the characters that satisfy `drop` off both ends of `chars[from..to]` and gives the range
/// that is left.
fn trim_range<F: Fn(char) -> bool>(
    chars: &Vec<char>,
    from: usize,
    to: usize,
    drop: F,
    Ghost(pred): Ghost<spec_fn(char) -> bool>,
) -> (range: (usize, usize))
    requires
        from <= to <= chars@.len(),
        forall|c: char| call_requires(drop, (c,)),
        forall|c: char, b: bool| call_ensures(drop, (c,), b) ==> b == pred(c),
    ensures
        from <= range.0 <= range.1 <= to,
        chars@.subrange(range.0 as int, range.1 as int) == trim(
            chars@.subrange(from as int, to as int),
            pred,
        ),
{
    let ghost whole = chars@.subrange(from as int, to as int);
    let mut start: usize = from;
    while start < to && drop(chars[start])
        invariant
            from <= start <= to <= chars@.len(),
            forall|c: char| call_requires(drop, (c,)),
            forall|c: char, b: bool| call_ensures(drop, (c,), b) ==> b == pred(c),
            trim_start(whole, pred) == trim_start(chars@.subrange(start as int, to as int), pred),
        ensures
            from <= start <= to,
            trim_start(whole, pred) == chars@.subrange(start as int, to as int),
        decreases to - start,
    {
        assert(chars@.subrange(start as int, to as int).drop_first() == chars@.subrange(
            start + 1,
            to as int,
        ));
        start = start + 1;
    }
    let mut end: usize = to;
    while start < end && drop(chars[end - 1])
        invariant
            start <= end <= to <= chars@.len(),
            forall|c: char| call_requires(drop, (c,)),
            forall|c: char, b: bool| call_ensures(drop, (c,), b) ==> b == pred(c),
            trim(whole, pred) == trim_end(chars@.subrange(start as int, end as int), pred),
        ensures
            start <= end <= to,
            trim(whole, pred) == chars@.subrange(start as int, end as int),
        decreases end - start,
    {
        assert(chars@.subrange(start as int, end as int).drop_last() == chars@.subrange(
            start as int,
            end - 1,
        ));
        end = end - 1;
    }
    (start, end)
}

/// Puts a host into the form in which hosts are compared.
fn normalize_host(host: &str) -> (normal: String)
    ensures
        normal@ == normal_host(host@),
{
    let chars = char_vec(host);
    let opening = |c: char| -> (b: bool)
        ensures
            b == (c == '['),
        { c == '[' };
    let closing = |c: char| -> (b: bool)
        ensures
            b == (c == ']'),
        { c == ']' };
    let (a, b) = trim_range(&chars, 0, chars.len(), opening, Ghost(|c: char| c == '['));
    assert(chars@.subrange(0, chars@.len() as int) == host@);
    let (from, to) = trim_range(&chars, a, b, closing, Ghost(|c: char| c == ']'));
    host.substring_char(from, to).to_ascii_lowercase()
}

/// Puts a host and its port into the form in which authorities are compared.
pub fn normalize_authority(host: &str, port: Option<u16>) -> (authority: NormalizedAuthority)
    ensures
        authority@ == (normal_host(host@), port),
        authority.host@ == normal_host(host@),
        authority.port == port,
{
    NormalizedAuthority { host: normalize_host(host), port }
}

/// Reads an entry of the list of accepted hosts.
fn parse_allowed_authority(entry: &str) -> (authority: Option<NormalizedAuthority>)
    ensures
        match authority {
            Some(a) => allowed_entry(entry@) == Some(a@),
            None => allowed_entry(entry@) is None,
        },
        is_name_authority(trim_space(entry@)) ==> is_authority(trim_space(entry@)),
        is_v6_authority(trim_space(entry@)) ==> is_authority(trim_space(entry@)),
        is_bare_v6(trim_space(entry@)) ==> !is_authority(trim_space(entry@)),
{
    let chars = char_vec(entry);
    let blank = |c: char| -> (b: bool)
        ensures
            b == is_white_space(c),
        { c.is_whitespace() };
    let (from, to) = trim_range(&chars, 0, chars.len(), blank, Ghost(|c: char| is_white_space(c)));
    assert(chars@.subrange(0, chars@.len() as int) == entry@);
    let text = entry.substring_char(from, to);
    if from == to {
        proof {
            lemma_find(text@, ':');
        }
        return None;
    }
    match parse_authority(text) {
        Some((host, port)) => Some(normalize_authority(host.as_str(), port)),
        None => Some(normalize_authority(text, None)),
    }
}

/// An ordinary entry of the list of accepted hosts: a host name, an IPv4 address or an IPv6
/// address without brackets, with no port and nothing around it.
pub open spec fn is_ordinary_entry(entry: Seq<char>) -> bool {
    is_host_name(entry) || is_bare_v6(entry)
}

/// A list of ordinary entries.
pub open spec fn is_ordinary_list(allowed_hosts: Seq<Seq<char>>) -> bool {
    forall|i: int| 0 <= i < allowed_hosts.len() ==> is_ordinary_entry(#[trigger] allowed_hosts[i])
}

/// Whether a list of ordinary entries names a host, given in normal form.
pub open spec fn list_names(allowed_hosts: Seq<Seq<char>>, host: Seq<char>) -> bool {
    exists|i: int| 0 <= i < allowed_hosts.len() && lower(#[trigger] allowed_hosts[i]) == host
}

/// An entry that can be read without the whole grammar of authorities: a host name or an IP address,
/// with or without a port, and nothing around it.
pub open spec fn is_plain_entry(entry: Seq<char>) -> bool {
    is_bare_v6(entry) || is_name_authority(entry) || is_v6_authority(entry)
}

/// A list of such entries.
pub open spec fn is_plain_list(allowed_hosts: Seq<Seq<char>>) -> bool {
    forall|i: int| 0 <= i < allowed_hosts.len() ==> is_plain_entry(#[trigger] allowed_hosts[i])
}

/// Whether a list of such entries has one with the host of an authority, given in normal form, and
/// with no port or the same one. An IPv6 address without brackets has no port.
pub open spec fn list_admits(
    allowed_hosts: Seq<Seq<char>>,
    authority: (Seq<char>, Option<u16>),
) -> bool {
    exists|i: int|
        0 <= i < allowed_hosts.len() && {
            let entry = #[trigger] allowed_hosts[i];
            if is_bare_v6(entry) {
                lower(entry) == authority.0
            } else {
                &&& normal_host(authority_host(entry)) == authority.0
                &&& authority_port(entry) is None || authority_port(entry) == authority.1
            }
        }
}

/// What is decided of a request without the whole grammar of authorities: nothing is admitted
/// without a `Host` text unless the list is empty; an empty list admits all; an IPv6 address
/// without brackets is no `Host`; and where the text is a host name or an IP address, with or
/// without a port, and the entries are such too, the request is admitted where the list names the
/// host, with no port or with the port of the request.
pub open spec fn plain_verdict(
    text: Option<Seq<char>>,
    allowed_hosts: Seq<Seq<char>>,
) -> Option<bool> {
    match text {
        None => Some(allowed_hosts.len() == 0),
        Some(t) => if allowed_hosts.len() == 0 {
            Some(true)
        } else if (is_name_authority(t) || is_v6_authority(t)) && is_ordinary_list(allowed_hosts) {
            Some(list_names(allowed_hosts, normal_host(authority_host(t))))
        } else if (is_name_authority(t) || is_v6_authority(t)) && is_plain_list(allowed_hosts) {
            Some(list_admits(allowed_hosts, (normal_host(authority_host(t)), authority_port(t))))
        } else if is_bare_v6(t) {
            Some(false)
        } else {
            None
        },
    }
}

/// A text whose ends do not satisfy `drop` is left as it is.
proof fn lemma_trim_nothing(s: Seq<char>, drop: spec_fn(char) -> bool)
    requires
        forall|i: int| 0 <= i < s.len() ==> !drop(#[trigger] s[i]),
    ensures
        trim(s, drop) == s,
{
}

/// An ordinary entry stands for itself in lower case, with any port.
proof fn lemma_ordinary_entry(entry: Seq<char>)
    requires
        is_ordinary_entry(entry),
        is_name_authority(trim_space(entry)) ==> is_authority(trim_space(entry)),
        is_bare_v6(trim_space(entry)) ==> !is_authority(trim_space(entry)),
    ensures
        allowed_entry(entry) == Some((lower(entry), None::<u16>)),
{
    assert forall|i: int| 0 <= i < entry.len() implies is_name_char(#[trigger] entry[i])
        || is_v6_char(entry[i]) by {}
    lemma_trim_nothing(entry, |c: char| is_white_space(c));
    lemma_trim_nothing(entry, |c: char| c == '[');
    lemma_trim_nothing(entry, |c: char| c == ']');
    if is_host_name(entry) {
        lemma_find_is(entry, ':', entry.len() as int);
        lemma_find_is(entry, '@', entry.len() as int);
        assert(before(entry, ':') == entry);
        assert(entry.skip(entry.len() as int).len() == 0);
        assert(is_name_authority(entry));
        assert(entry[0] != '[');
    } else {
        assert(entry.len() > 0);
    }
}

/// An entry that can be read without the whole grammar stands for its host and its port.
proof fn lemma_plain_entry(entry: Seq<char>)
    requires
        is_plain_entry(entry),
        is_name_authority(trim_space(entry)) ==> is_authority(trim_space(entry)),
        is_v6_authority(trim_space(entry)) ==> is_authority(trim_space(entry)),
        is_bare_v6(trim_space(entry)) ==> !is_authority(trim_space(entry)),
    ensures
        is_bare_v6(entry) ==> allowed_entry(entry) == Some((lower(entry), None::<u16>)),
        !is_bare_v6(entry) ==> allowed_entry(entry) == Some(
            (normal_host(authority_host(entry)), authority_port(entry)),
        ),
{
    if is_bare_v6(entry) {
        lemma_ordinary_entry(entry);
    } else {
        assert(entry.len() > 0) by {
            lemma_find(entry, ':');
        }
        assert forall|i: int| 0 <= i < entry.len() implies !is_white_space(#[trigger] entry[i]) by {
            if is_name_authority(entry) {
                lemma_find(entry, ':');
                let name = before(entry, ':');
                let suffix = entry.skip(name.len() as int);
                if i < name.len() {
                    assert(is_name_char(name[i]));
                } else {
                    assert(entry[i] == suffix[i - name.len()]);
                    assert(i > name.len() ==> is_digit(suffix[i - name.len()]));
                }
            } else {
                lemma_find(entry, ']');
                let close = find(entry, ']');
                let suffix = entry.skip(close + 1);
                if 1 <= i < close {
                    assert(is_v6_char(entry[i]));
                } else if i > close {
                    assert(entry[i] == suffix[i - close - 1]);
                    assert(i > close + 1 ==> is_digit(suffix[i - close - 1]));
                }
            }
        }
        lemma_trim_nothing(entry, |c: char| is_white_space(c));
    }
}

/// Whether the list of accepted hosts admits an authority. On a list of ordinary entries that is
/// whether the list is empty or names the host; on one of entries with ports, whether it names the
/// host with that port.
pub fn host_is_allowed(authority: &NormalizedAuthority, allowed_hosts: &Vec<String>) -> (allowed:
    bool)
    ensures
        allowed == authority_allowed(authority@, allowed_hosts.deep_view()),
        is_ordinary_list(allowed_hosts.deep_view()) ==> allowed == (allowed_hosts@.len() == 0
            || list_names(allowed_hosts.deep_view(), authority@.0)),
        is_plain_list(allowed_hosts.deep_view()) ==> allowed == (allowed_hosts@.len() == 0
            || list_admits(allowed_hosts.deep_view(), (authority.host@, authority.port))),
{
    let ghost list = allowed_hosts.deep_view();
    if allowed_hosts.len() == 0 {
        return true;
    }
    let mut i: usize = 0;
    while i < allowed_hosts.len()
        invariant
            i <= allowed_hosts@.len(),
            0 < allowed_hosts@.len(),
            list == allowed_hosts.deep_view(),
            forall|j: int|
                0 <= j < i ==> !entry_admits(allowed_entry(#[trigger] list[j]), authority@),
            forall|j: int|
                0 <= j < i && is_ordinary_entry(list[j]) ==> allowed_entry(#[trigger] list[j])
                    == Some((lower(list[j]), None::<u16>)),
            forall|j: int|
                0 <= j < i && is_plain_entry(list[j]) ==> {
                    &&& is_bare_v6(list[j]) ==> allowed_entry(#[trigger] list[j]) == Some(
                        (lower(list[j]), None::<u16>),
                    )
                    &&& !is_bare_v6(list[j]) ==> allowed_entry(list[j]) == Some(
                        (normal_host(authority_host(list[j])), authority_port(list[j])),
                    )
                },
        decreases allowed_hosts@.len() - i,
    {
        let entry = parse_allowed_authority(allowed_hosts[i].as_str());
        assert(list[i as int] == allowed_hosts@[i as int]@);
        proof {
            if is_ordinary_entry(list[i as int]) {
                lemma_ordinary_entry(list[i as int]);
            }
            if is_plain_entry(list[i as int]) {
                lemma_plain_entry(list[i as int]);
            }
        }
        if let Some(entry) = entry {
            let port_fits = match entry.port {
                Some(port) => match authority.port {
                    Some(given) => given == port,
                    None => false,
                },
                None => true,
            };
            if port_fits && same_text(entry.host.as_str(), authority.host.as_str()) {
                assert(entry_admits(allowed_entry(list[i as int]), authority@));
                return true;
            }
        }
        i = i + 1;
    }
    proof {
        if is_ordinary_list(list) && list_names(list, authority@.0) {
            let j = choose|j: int| 0 <= j < list.len() && lower(#[trigger] list[j]) == authority@.0;
            assert(is_ordinary_entry(list[j]));
            assert(!entry_admits(allowed_entry(list[j]), authority@));
        }
        if is_plain_list(list) && list_admits(list, (authority.host@, authority.port)) {
            let j = choose|j: int|
                0 <= j < list.len() && {
                    let entry = #[trigger] list[j];
                    if is_bare_v6(entry) {
                        lower(entry) == authority.host@
                    } else {
                        &&& normal_host(authority_host(entry)) == authority.host@
                        &&& authority_port(entry) is None || authority_port(entry) == authority.port
                    }
                };
            assert(is_plain_entry(list[j]));
            assert(!entry_admits(allowed_entry(list[j]), authority@));
        }
    }
    false
}

/// The characters of an optional text.
pub open spec fn text_of(text: Option<&str>) -> Option<Seq<char>> {
    match text {
        Some(t) => Some(t@),
        None => None,
    }
}

/// Whether a request with this `Host` text is admitted by the list of accepted hosts.
pub fn text_is_allowed(text: Option<&str>, allowed_hosts: &Vec<String>) -> (allowed: bool)
    ensures
        allowed == text_allowed(text_of(text), allowed_hosts.deep_view()),
        plain_verdict(text_of(text), allowed_hosts.deep_view()) matches Some(verdict) ==> allowed
            == verdict,
{
    let text = match text {
        Some(text) => text,
        None => return allowed_hosts.len() == 0,
    };
    match parse_authority(text) {
        Some((host, port)) => host_is_allowed(
            &normalize_authority(host.as_str(), port),
            allowed_hosts,
        ),
        None => allowed_hosts.len() == 0,
    }
}

/// Whether a request with these headers is admitted by the list of accepted hosts.
pub fn headers_are_allowed(headers: &HeaderMap, allowed_hosts: &Vec<String>) -> (allowed: bool)
    ensures
        allowed == text_allowed(host_text(header_fields(*headers)), allowed_hosts.deep_view()),
        plain_verdict(
            host_text(header_fields(*headers)),
            allowed_hosts.deep_view(),
        ) matches Some(verdict) ==> allowed == verdict,
{
    let text = match get_host(headers) {
        Some(value) => value_text(value),
        None => None,
    };
    text_is_allowed(text, allowed_hosts)
}

/// An empty list of accepted hosts admits every request, whatever its `Host` field holds, and one
/// without the field.
pub proof fn law_empty_list_admits_all(text: Option<Seq<char>>)
    ensures
        text_allowed(text, Seq::empty()),
{
}

/// A list that is not empty admits no request without a `Host` field that is an authority.
pub proof fn law_list_needs_an_authority(text: Option<Seq<char>>, allowed_hosts: Seq<Seq<char>>)
    requires
        allowed_hosts.len() > 0,
        text is Some ==> !is_authority(text->0),
    ensures
        !text_allowed(text, allowed_hosts),
{
}

/// Adding entries to a list that is not empty never shuts out a request that was admitted.
pub proof fn law_longer_list_admits_more(
    text: Option<Seq<char>>,
    allowed_hosts: Seq<Seq<char>>,
    more: Seq<Seq<char>>,
)
    requires
        allowed_hosts.len() > 0,
        text_allowed(text, allowed_hosts),
    ensures
        text_allowed(text, allowed_hosts + more),
        text_allowed(text, more + allowed_hosts),
{
    let t = text->0;
    let authority = (normal_host(authority_host(t)), authority_port(t));
    let i = choose|i: int|
        0 <= i < allowed_hosts.len() && entry_admits(
            allowed_entry(#[trigger] allowed_hosts[i]),
            authority,
        );
    assert((allowed_hosts + more)[i] == allowed_hosts[i]);
    assert((more + allowed_hosts)[more.len() + i] == allowed_hosts[i]);
}

/// The hosts that are accepted by default are the three names of the machine itself.
pub open spec fn loopback_hosts() -> Seq<Seq<char>> {
    seq!["localhost"@, "127.0.0.1"@, "::1"@]
}

/// The default list is one of ordinary entries, and names the three loopback hosts and no other.
pub proof fn law_default_list_names_loopback_only(host: Seq<char>)
    ensures
        is_ordinary_list(loopback_hosts()),
        list_names(loopback_hosts(), host) <==> loopback_hosts().contains(host),
        list_names(loopback_hosts(), host) <==> host == "localhost"@ || host == "127.0.0.1"@ || host
            == "::1"@,
{
    reveal_strlit("localhost");
    reveal_strlit("127.0.0.1");
    reveal_strlit("::1");
    let list = loopback_hosts();
    assert(is_host_name("localhost"@));
    assert(is_host_name("127.0.0.1"@));
    assert("::1"@[0] == ':' && "::1"@[1] == ':');
    assert(is_bare_v6("::1"@));
    assert(lower("localhost"@) =~= "localhost"@);
    assert(lower("127.0.0.1"@) =~= "127.0.0.1"@);
    assert(lower("::1"@) =~= "::1"@);
    assert forall|i: int| 0 <= i < list.len() implies is_ordinary_entry(#[trigger] list[i])
        && lower(list[i]) == list[i] by {
        assert(i == 0 || i == 1 || i == 2);
    }
    assert(list[0] == "localhost"@ && list[1] == "127.0.0.1"@ && list[2] == "::1"@);
    if list.contains(host) {
        let i = choose|i: int| 0 <= i < list.len() && list[i] == host;
        assert(lower(list[i]) == host);
    }
}

/// The characters of an optional text are those of the text, all of them.
pub proof fn law_characters_of_a_text_are_all_of_them(text: &str)
    ensures
        text_of(Some(text)) == Some(text@),
        text_of(None) is None,
{
}

/// Lower case changes the letters `A` to `Z`, each into the small letter of the same place in the
/// alphabet, and nothing else.
pub proof fn law_lower_case_changes_capitals_only(s: Seq<char>)
    ensures
        lower(s).len() == s.len(),
        forall|i: int|
            0 <= i < s.len() && 'A' <= s[i] && s[i] <= 'Z' ==> (#[trigger] lower(s)[i]) as int
                == s[i] as int + 32,
        forall|i: int|
            0 <= i < s.len() && !('A' <= s[i] && s[i] <= 'Z') ==> #[trigger] lower(s)[i] == s[i],
{
}

/// White space is what Unicode has for it.
pub proof fn law_white_space_is_that_of_unicode(c: char)
    ensures
        is_white_space(c) <==> {
            let code = c as int;
            ||| 0x9 <= code <= 0xd
            ||| code == 0x20 || code == 0x85 || code == 0xa0 || code == 0x1680
            ||| 0x2000 <= code <= 0x200a
            ||| code == 0x2028 || code == 0x2029 || code == 0x202f || code == 0x205f
            ||| code == 0x3000
        },
{
}

/// Trimming the start cuts off characters to be dropped, as many as there are.
proof fn lemma_trim_start(s: Seq<char>, drop: spec_fn(char) -> bool) -> (from: int)
    ensures
        0 <= from <= s.len(),
        trim_start(s, drop) == s.skip(from),
        forall|i: int| 0 <= i < from ==> drop(#[trigger] s[i]),
        from < s.len() ==> !drop(s[from]),
    decreases s.len(),
{
    if s.len() > 0 && drop(s[0]) {
        let rest = s.drop_first();
        let from = lemma_trim_start(rest, drop);
        assert(rest.skip(from) =~= s.skip(from + 1));
        assert forall|i: int| 0 <= i < from + 1 implies drop(#[trigger] s[i]) by {
            if i > 0 {
                assert(s[i] == rest[i - 1]);
            }
        }
        assert(from < rest.len() ==> rest[from] == s[from + 1]);
        from + 1
    } else {
        assert(s.skip(0) =~= s);
        0
    }
}

/// Trimming the end cuts off characters to be dropped, as many as there are.
proof fn lemma_trim_end(s: Seq<char>, drop: spec_fn(char) -> bool) -> (to: int)
    ensures
        0 <= to <= s.len(),
        trim_end(s, drop) == s.take(to),
        forall|i: int| to <= i < s.len() ==> drop(#[trigger] s[i]),
        to > 0 ==> !drop(s[to - 1]),
    decreases s.len(),
{
    if s.len() > 0 && drop(s.last()) {
        let rest = s.drop_last();
        let to = lemma_trim_end(rest, drop);
        assert(rest.take(to) =~= s.take(to));
        assert forall|i: int| to <= i < s.len() implies drop(#[trigger] s[i]) by {
            if i < rest.len() {
                assert(s[i] == rest[i]);
            }
        }
        to
    } else {
        assert(s.take(s.len() as int) =~= s);
        s.len() as int
    }
}

/// Trimming takes off both ends what is to be dropped, as much of it as there is, and nothing
/// else: what is left is one piece of the text, with nothing to drop at its ends.
pub proof fn law_trimming_takes_off_the_ends_only(s: Seq<char>, drop: spec_fn(char) -> bool)
    ensures
        exists|from: int, to: int|
            {
                &&& 0 <= from <= to <= s.len()
                &&& trim(s, drop) == #[trigger] s.subrange(from, to)
                &&& forall|i: int| 0 <= i < from || to <= i < s.len() ==> drop(#[trigger] s[i])
            },
        trim(s, drop).len() > 0 ==> !drop(trim(s, drop)[0]) && !drop(trim(s, drop).last()),
{
    let from = lemma_trim_start(s, drop);
    let rest = s.skip(from);
    let len = lemma_trim_end(rest, drop);
    let to = from + len;
    assert(trim(s, drop) =~= s.subrange(from, to));
    assert forall|i: int| 0 <= i < from || to <= i < s.len() implies drop(#[trigger] s[i]) by {
        if i >= to {
            assert(s[i] == rest[i - from]);
        }
    }
    if len > 0 {
        assert(trim(s, drop).last() == rest[len - 1]);
    }
}

/// What is to be dropped around a text is taken off, and the text stays.
proof fn lemma_trim_around(
    left: Seq<char>,
    text: Seq<char>,
    right: Seq<char>,
    drop: spec_fn(char) -> bool,
)
    requires
        forall|i: int| 0 <= i < left.len() ==> drop(#[trigger] left[i]),
        forall|i: int| 0 <= i < right.len() ==> drop(#[trigger] right[i]),
        text.len() > 0 ==> !drop(text[0]) && !drop(text.last()),
    ensures
        trim(left + text + right, drop) == text,
{
    let s = left + text + right;
    let from = lemma_trim_start(s, drop);
    let rest = s.skip(from);
    let to = lemma_trim_end(rest, drop);
    if text.len() == 0 {
        if from < s.len() {
            assert(s[from] == if from < left.len() {
                left[from]
            } else {
                right[from - left.len()]
            });
        }
        assert(rest.len() == 0);
        assert(rest.take(to) =~= text);
    } else {
        assert(s[left.len() as int] == text[0]);
        if from < left.len() {
            assert(s[from] == left[from]);
        } else if from > left.len() {
            assert(drop(s[left.len() as int]));
        }
        assert(rest =~= text + right);
        assert(rest[text.len() - 1] == text.last());
        if to < text.len() {
            assert(drop(rest[text.len() - 1]));
        } else if to > text.len() {
            assert(rest[to - 1] == right[to - 1 - text.len()]);
        }
        assert(rest.take(to) =~= text);
    }
}

/// White space around an entry does not count, however much there is, and nothing else is taken off.
pub proof fn law_white_space_around_an_entry_does_not_count(
    left: Seq<char>,
    text: Seq<char>,
    right: Seq<char>,
)
    requires
        forall|i: int| 0 <= i < left.len() ==> is_white_space(#[trigger] left[i]),
        forall|i: int| 0 <= i < right.len() ==> is_white_space(#[trigger] right[i]),
        text.len() > 0 ==> !is_white_space(text[0]) && !is_white_space(text.last()),
    ensures
        trim_space(left + text + right) == text,
{
    lemma_trim_around(left, text, right, |c: char| is_white_space(c));
}

/// Two hosts are compared without regard to case and to brackets around them, however many, and to
/// nothing else.
pub proof fn law_brackets_and_case_do_not_count(
    left: Seq<char>,
    host: Seq<char>,
    right: Seq<char>,
)
    requires
        forall|i: int| 0 <= i < left.len() ==> #[trigger] left[i] == '[',
        forall|i: int| 0 <= i < right.len() ==> #[trigger] right[i] == ']',
        forall|i: int| 0 <= i < host.len() ==> #[trigger] host[i] != '[' && host[i] != ']',
    ensures
        normal_host(left + host + right) == lower(host),
        normal_host(host) == lower(host),
{
    let opening = |c: char| c == '[';
    let closing = |c: char| c == ']';
    let none = Seq::<char>::empty();
    let inner = host + right;
    if inner.len() > 0 {
        assert(inner[0] == if host.len() > 0 {
            host[0]
        } else {
            right[0]
        });
        assert(inner.last() == if right.len() > 0 {
            right.last()
        } else {
            host.last()
        });
    }
    lemma_trim_around(left, inner, none, opening);
    assert(left + inner + none =~= left + host + right);
    lemma_trim_around(none, host, right, closing);
    assert(none + host + right =~= inner);
    lemma_trim_nothing(host, opening);
    lemma_trim_nothing(host, closing);
}

/// Only brackets at its ends are taken off a host, and lower case is all that changes of the rest.
pub proof fn law_a_host_keeps_all_but_brackets_at_its_ends(host: Seq<char>)
    ensures
        exists|from: int, to: int|
            {
                &&& 0 <= from <= to <= host.len()
                &&& normal_host(host) == lower(#[trigger] host.subrange(from, to))
                &&& forall|i: int|
                    0 <= i < from || to <= i < host.len() ==> #[trigger] host[i] == '[' || host[i]
                        == ']'
                &&& from < to ==> host[from] != ']' && host[to - 1] != ']'
            },
{
    let opening = |c: char| c == '[';
    let closing = |c: char| c == ']';
    law_trimming_takes_off_the_ends_only(host, opening);
    let (a, b) = choose|from: int, to: int|
        {
            &&& 0 <= from <= to <= host.len()
            &&& trim(host, opening) == #[trigger] host.subrange(from, to)
            &&& forall|i: int| 0 <= i < from || to <= i < host.len() ==> opening(#[trigger] host[i])
        };
    let inner = host.subrange(a, b);
    law_trimming_takes_off_the_ends_only(inner, closing);
    let (c, d) = choose|from: int, to: int|
        {
            &&& 0 <= from <= to <= inner.len()
            &&& trim(inner, closing) == #[trigger] inner.subrange(from, to)
            &&& forall|i: int|
                0 <= i < from || to <= i < inner.len() ==> closing(#[trigger] inner[i])
        };
    let from = a + c;
    let to = a + d;
    let rest = trim(inner, closing);
    assert(rest =~= host.subrange(from, to));
    assert forall|i: int| 0 <= i < from || to <= i < host.len() implies #[trigger] host[i] == '['
        || host[i] == ']' by {
        if a <= i < b {
            assert(host[i] == inner[i - a]);
            assert(closing(inner[i - a]));
        } else {
            assert(opening(host[i]));
        }
    }
    if from < to {
        assert(rest[0] == host[from]);
        assert(rest.last() == host[to - 1]);
    }
}

/// A number of one more digit is ten times the number before, and the digit.
pub proof fn law_digits_count_in_tens(digits: Seq<char>, next: char)
    requires
        '0' <= next && next <= '9',
    ensures
        decimal(Seq::empty()) == 0,
        decimal(digits.push(next)) == 10 * decimal(digits) + (next as int - '0' as int),
{
    assert(digits.push(next).drop_last() =~= digits);
}

/// What stands after the last `c` is what follows it, where no other `c` does.
proof fn lemma_after_last(front: Seq<char>, c: char, rest: Seq<char>)
    requires
        !rest.contains(c),
    ensures
        after_last(front + seq![c] + rest, c) == rest,
        after_last(rest, c) == rest,
        occurs(front + seq![c] + rest, c),
    decreases front.len(),
{
    let s = front + seq![c] + rest;
    lemma_find(rest, c);
    assert(after_last(rest, c) == rest);
    lemma_find(front, c);
    let at = find(front, c);
    assert forall|j: int| 0 <= j < at implies #[trigger] s[j] != c by {
        assert(s[j] == front[j]);
    }
    lemma_find_is(s, c, at);
    if at < front.len() {
        assert(after(s, c) =~= after(front, c) + seq![c] + rest);
        lemma_after_last(after(front, c), c, rest);
    } else {
        assert(after(s, c) =~= rest);
    }
}

/// The port of an authority is the whole number that stands after its last `:`, whatever the number,
/// where 16 bits can hold it; else there is none. A `+` before it does not count.
pub proof fn law_port_is_the_number_after_the_last_colon(front: Seq<char>, digits: Seq<char>)
    requires
        digits.len() > 0,
        forall|i: int| 0 <= i < digits.len() ==> '0' <= #[trigger] digits[i] && digits[i] <= '9',
    ensures
        decimal(digits) <= 65535 ==> authority_port(front + ":"@ + digits) == Some(
            decimal(digits) as u16,
        ),
        decimal(digits) > 65535 ==> authority_port(front + ":"@ + digits) is None,
        authority_port(front + ":"@ + ("+"@ + digits)) == authority_port(front + ":"@ + digits),
{
    reveal_strlit(":");
    reveal_strlit("+");
    assert(":"@ =~= seq![':']);
    lemma_after_last(front, ':', digits);
    assert(without_plus(digits) == digits);
    let plus = "+"@ + digits;
    assert forall|i: int| 0 <= i < plus.len() implies #[trigger] plus[i] != ':' by {
        if i > 0 {
            assert(plus[i] == digits[i - 1]);
        }
    }
    lemma_after_last(front, ':', plus);
    assert(plus.drop_first() =~= digits);
}

/// Without a number after its last `:`, or without a `:`, an authority has no port.
pub proof fn law_no_number_is_no_port(front: Seq<char>, rest: Seq<char>)
    requires
        forall|i: int| 0 <= i < rest.len() ==> #[trigger] rest[i] != ':',
        rest.len() == 0 || (rest.len() == 1 && !('0' <= rest[0] && rest[0] <= '9')) || (rest.len()
            > 0 && rest[0] != '+' && !('0' <= rest[0] && rest[0] <= '9')) || exists|i: int|
            1 <= i < rest.len() && !('0' <= #[trigger] rest[i] && rest[i] <= '9'),
    ensures
        authority_port(front + ":"@ + rest) is None,
        authority_port(rest) is None,
{
    reveal_strlit(":");
    assert(":"@ =~= seq![':']);
    lemma_after_last(front, ':', rest);
    lemma_find(rest, ':');
    let digits = without_plus(rest);
    if is_number(digits) {
        assert(is_digit(digits[0]));
        assert forall|i: int| 1 <= i < rest.len() implies '0' <= #[trigger] rest[i] && rest[i]
            <= '9' by {
            if rest[0] == '+' {
                assert(is_digit(digits[i - 1]));
            } else {
                assert(is_digit(digits[i]));
            }
        }
    }
}

/// The host of an authority that does not start with a bracket is what stands before its first `:`;
/// what stands before an `@` is not part of it.
pub proof fn law_host_stands_before_the_port(
    user: Seq<char>,
    host: Seq<char>,
    rest: Seq<char>,
)
    requires
        host.len() > 0,
        host[0] != '[',
        forall|i: int|
            0 <= i < host.len() ==> #[trigger] host[i] != ':' && host[i] != '@',
        forall|i: int| 0 <= i < rest.len() ==> #[trigger] rest[i] != '@',
    ensures
        authority_host(host) == host,
        authority_host(host + ":"@ + rest) == host,
        authority_host(user + "@"@ + (host + ":"@ + rest)) == host,
        authority_host(user + "@"@ + host) == host,
{
    reveal_strlit(":");
    reveal_strlit("@");
    assert("@"@ =~= seq!['@']);
    let full = host + ":"@ + rest;
    assert forall|i: int| 0 <= i < full.len() implies #[trigger] full[i] != '@' by {
        if i < host.len() {
            assert(full[i] == host[i]);
        } else if i > host.len() {
            assert(full[i] == rest[i - host.len() - 1]);
        }
    }
    lemma_after_last(user, '@', full);
    lemma_after_last(user, '@', host);
    assert forall|i: int| 0 <= i < host.len() implies #[trigger] full[i] != ':' by {
        assert(full[i] == host[i]);
    }
    lemma_find_is(full, ':', host.len() as int);
    assert(full[0] == host[0]);
    assert(before(full, ':') =~= host);
    lemma_find_is(host, ':', host.len() as int);
    assert(before(host, ':') =~= host);
}

/// The host of an authority that starts with a bracket is all up to the closing one, colons and all;
/// what stands before an `@` is not part of it.
pub proof fn law_host_in_brackets_is_whole(user: Seq<char>, host: Seq<char>, rest: Seq<char>)
    requires
        forall|i: int| 0 <= i < host.len() ==> #[trigger] host[i] != '@' && host[i] != ']',
        forall|i: int| 0 <= i < rest.len() ==> #[trigger] rest[i] != '@',
    ensures
        authority_host("["@ + host + "]"@ + rest) == "["@ + host + "]"@,
        authority_host(user + "@"@ + ("["@ + host + "]"@ + rest)) == "["@ + host + "]"@,
{
    reveal_strlit("@");
    reveal_strlit("[");
    reveal_strlit("]");
    assert("@"@ =~= seq!['@']);
    let boxed = "["@ + host + "]"@ + rest;
    assert forall|i: int| 0 <= i < boxed.len() implies #[trigger] boxed[i] != '@' by {
        if 1 <= i <= host.len() {
            assert(boxed[i] == host[i - 1]);
        } else if i > host.len() + 1 {
            assert(boxed[i] == rest[i - host.len() - 2]);
        }
    }
    lemma_after_last(user, '@', boxed);
    assert forall|i: int| 0 <= i < host.len() + 1 implies #[trigger] boxed[i] != ']' by {
        if i > 0 {
            assert(boxed[i] == host[i - 1]);
        }
    }
    lemma_find_is(boxed, ']', host.len() as int + 1);
    assert(boxed.take(host.len() as int + 2) =~= "["@ + host + "]"@);
}

/// The `Host` text of a request is its first `Host` field, byte for byte, where all bytes are visible
/// ASCII, spaces or tabs; else, and without the field, there is none.
pub proof fn law_host_text_is_the_first_field(fields: Map<Seq<char>, Seq<Seq<u8>>>)
    ensures
        !fields.contains_key("host"@) || fields["host"@].len() == 0 ==> host_text(fields) is None,
        fields.contains_key("host"@) && fields["host"@].len() > 0 ==> {
            let bytes = fields["host"@][0];
            let visible = forall|i: int|
                0 <= i < bytes.len() ==> (32 <= #[trigger] bytes[i] && bytes[i] <= 126) || bytes[i]
                    == 9;
            &&& host_text(fields) is Some <==> visible
            &&& visible ==> host_text(fields)->0.len() == bytes.len()
            &&& visible ==> forall|i: int|
                0 <= i < bytes.len() ==> (#[trigger] host_text(fields)->0[i]) as int
                    == bytes[i] as int
        },
{
    if fields.contains_key("host"@) && fields["host"@].len() > 0 {
        let bytes = fields["host"@][0];
        if forall|i: int|
            0 <= i < bytes.len() ==> (32 <= #[trigger] bytes[i] && bytes[i] <= 126) || bytes[i]
                == 9 {
            assert forall|i: int| 0 <= i < bytes.len() implies is_visible_ascii(
                #[trigger] bytes[i],
            ) by {}
        }
        if host_text(fields) is Some {
            assert forall|i: int| 0 <= i < bytes.len() implies (32 <= #[trigger] bytes[i]
                && bytes[i] <= 126) || bytes[i] == 9 by {
                assert(is_visible_ascii(bytes[i]));
            }
        }
    }
}

/// An authority is held against a list entry by entry, each of them in full. It is admitted where an
/// entry that is not blank has the same host, and has no port or the same one. An entry that is no
/// authority is a host without a port.
pub proof fn law_an_authority_is_held_against_every_entry(
    authority: (Seq<char>, Option<u16>),
    allowed_hosts: Seq<Seq<char>>,
)
    requires
        allowed_hosts.len() > 0,
    ensures
        authority_allowed(authority, allowed_hosts) <==> exists|i: int|
            0 <= i < allowed_hosts.len() && {
                let entry = trim_space(#[trigger] allowed_hosts[i]);
                &&& entry.len() > 0
                &&& is_authority(entry) ==> normal_host(authority_host(entry)) == authority.0
                &&& is_authority(entry) ==> authority_port(entry) is None || authority_port(entry)
                    == authority.1
                &&& !is_authority(entry) ==> normal_host(entry) == authority.0
            },
{
    if authority_allowed(authority, allowed_hosts) {
        let i = choose|i: int|
            0 <= i < allowed_hosts.len() && entry_admits(
                allowed_entry(#[trigger] allowed_hosts[i]),
                authority,
            );
        assert(trim_space(allowed_hosts[i]).len() > 0);
    }
    if exists|i: int|
        0 <= i < allowed_hosts.len() && {
            let entry = trim_space(#[trigger] allowed_hosts[i]);
            &&& entry.len() > 0
            &&& is_authority(entry) ==> normal_host(authority_host(entry)) == authority.0
            &&& is_authority(entry) ==> authority_port(entry) is None || authority_port(entry)
                == authority.1
            &&& !is_authority(entry) ==> normal_host(entry) == authority.0
        } {
        let i = choose|i: int|
            0 <= i < allowed_hosts.len() && {
                let entry = trim_space(#[trigger] allowed_hosts[i]);
                &&& entry.len() > 0
                &&& is_authority(entry) ==> normal_host(authority_host(entry)) == authority.0
                &&& is_authority(entry) ==> authority_port(entry) is None || authority_port(entry)
                    == authority.1
                &&& !is_authority(entry) ==> normal_host(entry) == authority.0
            };
        assert(entry_admits(allowed_entry(allowed_hosts[i]), authority));
    }
}

/// A `Host` text that is an authority is admitted where the list admits its host and its port.
pub proof fn law_a_host_text_is_held_against_the_list(
    text: Seq<char>,
    allowed_hosts: Seq<Seq<char>>,
)
    requires
        is_authority(text),
        allowed_hosts.len() > 0,
    ensures
        text_allowed(Some(text), allowed_hosts) <==> exists|i: int|
            0 <= i < allowed_hosts.len() && {
                let entry = trim_space(#[trigger] allowed_hosts[i]);
                let host = normal_host(authority_host(text));
                &&& entry.len() > 0
                &&& is_authority(entry) ==> normal_host(authority_host(entry)) == host
                &&& is_authority(entry) ==> authority_port(entry) is None || authority_port(entry)
                    == authority_port(text)
                &&& !is_authority(entry) ==> normal_host(entry) == host
            },
{
    law_an_authority_is_held_against_every_entry(
        (normal_host(authority_host(text)), authority_port(text)),
        allowed_hosts,
    );
}

/// Two lists together admit what either of them admits.
pub proof fn law_two_lists_admit_what_either_does(
    text: Option<Seq<char>>,
    first: Seq<Seq<char>>,
    second: Seq<Seq<char>>,
)
    requires
        first.len() > 0,
        second.len() > 0,
    ensures
        text_allowed(text, first + second) <==> text_allowed(text, first) || text_allowed(
            text,
            second,
        ),
{
    if text_allowed(text, first) {
        law_longer_list_admits_more(text, first, second);
    }
    if text_allowed(text, second) {
        law_longer_list_admits_more(text, second, first);
    }
    if text_allowed(text, first + second) {
        let both = first + second;
        let t = text->0;
        let authority = (normal_host(authority_host(t)), authority_port(t));
        let i = choose|i: int|
            0 <= i < both.len() && entry_admits(allowed_entry(#[trigger] both[i]), authority);
        if i < first.len() {
            assert(both[i] == first[i]);
            assert(entry_admits(allowed_entry(first[i]), authority));
        } else {
            assert(both[i] == second[i - first.len()]);
            assert(entry_admits(allowed_entry(second[i - first.len()]), authority));
        }
    }
}

/// A host with a port, as a text: what it is read as.
proof fn lemma_host_with_port(host: Seq<char>, port: Seq<char>)
    requires
        host.len() > 0,
        forall|i: int|
            0 <= i < host.len() ==> #[trigger] host[i] != ':' && host[i] != '@' && host[i] != '['
                && host[i] != ']' && !is_white_space(host[i]),
        port.len() > 0,
        forall|i: int| 0 <= i < port.len() ==> '0' <= #[trigger] port[i] && port[i] <= '9',
        decimal(port) <= 65535,
    ensures
        trim_space(host + ":"@ + port) == host + ":"@ + port,
        authority_host(host + ":"@ + port) == host,
        authority_port(host + ":"@ + port) == Some(decimal(port) as u16),
        normal_host(host) == lower(host),
        trim_space(host) == host,
        authority_host(host) == host,
        authority_port(host) is None,
{
    reveal_strlit(":");
    let s = host + ":"@ + port;
    assert forall|i: int| 0 <= i < s.len() implies !is_white_space(#[trigger] s[i]) by {
        if i < host.len() {
            assert(s[i] == host[i]);
        } else if i > host.len() {
            assert(s[i] == port[i - host.len() - 1]);
        }
    }
    lemma_trim_nothing(s, |c: char| is_white_space(c));
    lemma_trim_nothing(host, |c: char| is_white_space(c));
    law_host_stands_before_the_port(Seq::empty(), host, port);
    law_port_is_the_number_after_the_last_colon(host, port);
    law_brackets_and_case_do_not_count(Seq::empty(), host, Seq::empty());
    lemma_find(host, ':');
}

/// A list of hosts with ports admits a host with a port exactly where it has that host, in whatever
/// case, with that very port.
pub proof fn law_a_listed_port_is_the_only_one_admitted(
    host: Seq<char>,
    port: Seq<char>,
    hosts: Seq<Seq<char>>,
    ports: Seq<Seq<char>>,
    allowed_hosts: Seq<Seq<char>>,
)
    requires
        host.len() > 0,
        forall|i: int|
            0 <= i < host.len() ==> #[trigger] host[i] != ':' && host[i] != '@' && host[i] != '['
                && host[i] != ']' && !is_white_space(host[i]),
        port.len() > 0,
        forall|i: int| 0 <= i < port.len() ==> '0' <= #[trigger] port[i] && port[i] <= '9',
        decimal(port) <= 65535,
        is_authority(host + ":"@ + port),
        allowed_hosts.len() > 0,
        hosts.len() == allowed_hosts.len(),
        ports.len() == allowed_hosts.len(),
        forall|k: int|
            0 <= k < allowed_hosts.len() ==> {
                &&& #[trigger] allowed_hosts[k] == hosts[k] + ":"@ + ports[k]
                &&& is_authority(allowed_hosts[k])
                &&& hosts[k].len() > 0
                &&& forall|i: int|
                    0 <= i < hosts[k].len() ==> #[trigger] hosts[k][i] != ':' && hosts[k][i] != '@'
                        && hosts[k][i] != '[' && hosts[k][i] != ']' && !is_white_space(hosts[k][i])
                &&& ports[k].len() > 0
                &&& forall|i: int|
                    0 <= i < ports[k].len() ==> '0' <= #[trigger] ports[k][i] && ports[k][i] <= '9'
                &&& decimal(ports[k]) <= 65535
            },
    ensures
        text_allowed(Some(host + ":"@ + port), allowed_hosts) <==> exists|k: int|
            0 <= k < allowed_hosts.len() && lower(#[trigger] hosts[k]) == lower(host) && decimal(
                ports[k],
            ) == decimal(port),
{
    lemma_host_with_port(host, port);
    let text = host + ":"@ + port;
    let authority = (normal_host(authority_host(text)), authority_port(text));
    assert forall|k: int| 0 <= k < allowed_hosts.len() implies entry_admits(
        allowed_entry(#[trigger] allowed_hosts[k]),
        authority,
    ) == (lower(hosts[k]) == lower(host) && decimal(ports[k]) == decimal(port)) by {
        lemma_host_with_port(hosts[k], ports[k]);
    }
    if text_allowed(Some(text), allowed_hosts) {
        let k = choose|k: int|
            0 <= k < allowed_hosts.len() && entry_admits(
                allowed_entry(#[trigger] allowed_hosts[k]),
                authority,
            );
        assert(lower(hosts[k]) == lower(host));
    }
    if exists|k: int|
        0 <= k < allowed_hosts.len() && lower(#[trigger] hosts[k]) == lower(host) && decimal(
            ports[k],
        ) == decimal(port) {
        let k = choose|k: int|
            0 <= k < allowed_hosts.len() && lower(#[trigger] hosts[k]) == lower(host) && decimal(
                ports[k],
            ) == decimal(port);
        assert(entry_admits(allowed_entry(allowed_hosts[k]), authority));
    }
}

/// An entry with a port admits its host with no other port, and not without one; an entry without a
/// port admits its host with any port.
pub proof fn law_ports_are_told_apart(host: Seq<char>, listed: Seq<char>, port: Seq<char>)
    requires
        host.len() > 0,
        forall|i: int|
            0 <= i < host.len() ==> #[trigger] host[i] != ':' && host[i] != '@' && host[i] != '['
                && host[i] != ']' && !is_white_space(host[i]),
        listed.len() > 0,
        forall|i: int| 0 <= i < listed.len() ==> '0' <= #[trigger] listed[i] && listed[i] <= '9',
        decimal(listed) <= 65535,
        port.len() > 0,
        forall|i: int| 0 <= i < port.len() ==> '0' <= #[trigger] port[i] && port[i] <= '9',
        decimal(port) <= 65535,
        is_authority(host),
        is_authority(host + ":"@ + listed),
        is_authority(host + ":"@ + port),
    ensures
        text_allowed(Some(host + ":"@ + port), seq![host + ":"@ + listed]) <==> decimal(port)
            == decimal(listed),
        !text_allowed(Some(host), seq![host + ":"@ + listed]),
        text_allowed(Some(host + ":"@ + port), seq![host]),
        text_allowed(Some(host), seq![host]),
{
    lemma_host_with_port(host, listed);
    lemma_host_with_port(host, port);
    let with_port = seq![host + ":"@ + listed];
    let without = seq![host];
    assert(with_port[0] == host + ":"@ + listed);
    assert(without[0] == host);
    let bare = (lower(host), None::<u16>);
    let full = (lower(host), Some(decimal(port) as u16));
    assert(entry_admits(allowed_entry(with_port[0]), full) <==> decimal(port) == decimal(listed));
    assert(!entry_admits(allowed_entry(with_port[0]), bare));
    assert(entry_admits(allowed_entry(without[0]), full));
    assert(entry_admits(allowed_entry(without[0]), bare));
}

/// A host name with a port is taken for one.
proof fn lemma_name_with_port(host: Seq<char>, port: Seq<char>)
    requires
        is_host_name(host),
        port.len() > 0,
        forall|i: int| 0 <= i < port.len() ==> '0' <= #[trigger] port[i] && port[i] <= '9',
    ensures
        is_name_authority(host + ":"@ + port),
        is_name_authority(host),
        !is_ordinary_entry(host + ":"@ + port),
        !is_bare_v6(host + ":"@ + port),
{
    reveal_strlit(":");
    let s = host + ":"@ + port;
    assert forall|i: int| 0 <= i < host.len() implies #[trigger] s[i] != ':' by {
        assert(s[i] == host[i]);
        assert(is_name_char(host[i]));
    }
    lemma_find_is(s, ':', host.len() as int);
    assert(before(s, ':') =~= host);
    let suffix = s.skip(host.len() as int);
    assert(suffix =~= ":"@ + port);
    assert forall|i: int| 1 <= i < suffix.len() implies is_digit(#[trigger] suffix[i]) by {
        assert(suffix[i] == port[i - 1]);
    }
    assert(s[host.len() as int] == ':');
    assert(!is_host_name(s)) by {
        if is_host_name(s) {
            assert(is_name_char(s[host.len() as int]));
        }
    }
    assert forall|i: int| host.len() < i < s.len() implies #[trigger] s[i] != ':' by {
        assert(s[i] == port[i - host.len() - 1]);
    }
    lemma_find_is(host, ':', host.len() as int);
    assert(before(host, ':') =~= host);
    assert(host.skip(host.len() as int).len() == 0);
}

/// Of host names with ports it is decided without the whole grammar of authorities which of them a
/// request may use: those with the same host, in whatever case, and the very same port.
pub proof fn law_the_plain_verdict_tells_ports_apart(
    host: Seq<char>,
    port: Seq<char>,
    hosts: Seq<Seq<char>>,
    ports: Seq<Seq<char>>,
    allowed_hosts: Seq<Seq<char>>,
)
    requires
        is_host_name(host),
        port.len() > 0,
        forall|i: int| 0 <= i < port.len() ==> '0' <= #[trigger] port[i] && port[i] <= '9',
        decimal(port) <= 65535,
        allowed_hosts.len() > 0,
        hosts.len() == allowed_hosts.len(),
        ports.len() == allowed_hosts.len(),
        forall|k: int|
            0 <= k < allowed_hosts.len() ==> {
                &&& #[trigger] allowed_hosts[k] == hosts[k] + ":"@ + ports[k]
                &&& is_host_name(hosts[k])
                &&& ports[k].len() > 0
                &&& forall|i: int|
                    0 <= i < ports[k].len() ==> '0' <= #[trigger] ports[k][i] && ports[k][i] <= '9'
                &&& decimal(ports[k]) <= 65535
            },
    ensures
        plain_verdict(Some(host + ":"@ + port), allowed_hosts) == Some(
            exists|k: int|
                0 <= k < allowed_hosts.len() && lower(#[trigger] hosts[k]) == lower(host)
                    && decimal(ports[k]) == decimal(port),
        ),
{
    let text = host + ":"@ + port;
    assert forall|i: int| 0 <= i < host.len() implies is_name_char(#[trigger] host[i]) by {}
    lemma_host_with_port(host, port);
    lemma_name_with_port(host, port);
    assert forall|k: int| 0 <= k < allowed_hosts.len() implies {
        &&& is_plain_entry(#[trigger] allowed_hosts[k])
        &&& !is_bare_v6(allowed_hosts[k])
        &&& !is_ordinary_entry(allowed_hosts[k])
        &&& normal_host(authority_host(allowed_hosts[k])) == lower(hosts[k])
        &&& authority_port(allowed_hosts[k]) == Some(decimal(ports[k]) as u16)
    } by {
        assert forall|i: int| 0 <= i < hosts[k].len() implies is_name_char(
            #[trigger] hosts[k][i],
        ) by {}
        lemma_host_with_port(hosts[k], ports[k]);
        lemma_name_with_port(hosts[k], ports[k]);
    }
    assert(!is_ordinary_entry(allowed_hosts[0]));
    let authority = (normal_host(authority_host(text)), authority_port(text));
    if list_admits(allowed_hosts, authority) {
        let k = choose|k: int|
            0 <= k < allowed_hosts.len() && {
                let entry = #[trigger] allowed_hosts[k];
                if is_bare_v6(entry) {
                    lower(entry) == authority.0
                } else {
                    &&& normal_host(authority_host(entry)) == authority.0
                    &&& authority_port(entry) is None || authority_port(entry) == authority.1
                }
            };
        assert(lower(hosts[k]) == lower(host));
    }
    if exists|k: int|
        0 <= k < allowed_hosts.len() && lower(#[trigger] hosts[k]) == lower(host) && decimal(
            ports[k],
        ) == decimal(port) {
        let k = choose|k: int|
            0 <= k < allowed_hosts.len() && lower(#[trigger] hosts[k]) == lower(host) && decimal(
                ports[k],
            ) == decimal(port);
        assert(allowed_hosts[k] == hosts[k] + ":"@ + ports[k]);
    }
}

/// Of host names without ports it is decided in the same way that a request may use them with any
/// port and without one.
pub proof fn law_the_plain_verdict_takes_any_port_where_none_is_listed(
    host: Seq<char>,
    port: Seq<char>,
    allowed_hosts: Seq<Seq<char>>,
)
    requires
        is_host_name(host),
        port.len() > 0,
        forall|i: int| 0 <= i < port.len() ==> '0' <= #[trigger] port[i] && port[i] <= '9',
        decimal(port) <= 65535,
        allowed_hosts.len() > 0,
        forall|k: int| 0 <= k < allowed_hosts.len() ==> is_host_name(#[trigger] allowed_hosts[k]),
    ensures
        plain_verdict(Some(host + ":"@ + port), allowed_hosts) == Some(
            exists|k: int|
                0 <= k < allowed_hosts.len() && lower(#[trigger] allowed_hosts[k]) == lower(host),
        ),
        plain_verdict(Some(host), allowed_hosts) == Some(
            exists|k: int|
                0 <= k < allowed_hosts.len() && lower(#[trigger] allowed_hosts[k]) == lower(host),
        ),
{
    assert forall|i: int| 0 <= i < host.len() implies is_name_char(#[trigger] host[i]) by {}
    lemma_host_with_port(host, port);
    lemma_name_with_port(host, port);
}

/// Without a `Host` text, or with an IPv6 address without brackets for one, a request is admitted by
/// the empty list only, and by that one in any case.
pub proof fn law_the_plain_verdict_asks_for_a_host(text: Option<Seq<char>>, list: Seq<Seq<char>>)
    ensures
        list.len() == 0 ==> plain_verdict(text, list) == Some(true),
        list.len() > 0 && text is None ==> plain_verdict(text, list) == Some(false),
        list.len() > 0 && text is Some && is_bare_v6(text->0) ==> plain_verdict(text, list) == Some(
            false,
        ),
{
    if text is Some && is_bare_v6(text->0) {
        let t = text->0;
        let (i, j) = choose|i: int, j: int| 0 <= i < j < t.len() && t[i] == ':' && t[j] == ':';
        assert(is_v6_char(t[0]));
        lemma_find(t, ':');
        let name = before(t, ':');
        let suffix = t.skip(name.len() as int);
        assert(find(t, ':') <= i);
        assert(suffix[j - name.len()] == ':');
        if is_name_authority(t) {
            assert(is_digit(suffix[j - name.len()]));
        }
    }
}

/// An authority in normal form is its host and its port.
pub proof fn law_an_authority_is_its_host_and_port(authority: NormalizedAuthority)
    ensures
        authority@ == (authority.host@, authority.port),
{
}

} // verus!
