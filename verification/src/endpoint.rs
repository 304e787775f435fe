//! Session ids, the address that a client posts its messages to, and reading the id back out of
//! that address.
use vstd::prelude::*;
use vstd::string::*;

use crate::config::SseServerConfig;
use crate::text::{after, before, char_vec, find, lemma_find, lemma_find_is, occurs, position};
use crate::text::same_text;

verus! {

/// Name of one session.
pub type SessionId = String;

/// A digit of a lower-case hexadecimal number.
pub open spec fn is_lower_hex(c: char) -> bool {
    '0' <= c <= '9' || 'a' <= c <= 'f'
}

/// Whether `s` is a random UUID in its usual form: five groups of lower-case hexadecimal digits
/// with hyphens between them, of version four and of the RFC 9562 variant.
pub open spec fn is_random_uuid(s: Seq<char>) -> bool {
    &&& s.len() == 36
    &&& forall|i: int|
        0 <= i < 36 ==> if i == 8 || i == 13 || i == 18 || i == 23 {
            #[trigger] s[i] == '-'
        } else {
            is_lower_hex(s[i])
        }
    &&& s[14] == '4'
    &&& s[19] == '8' || s[19] == '9' || s[19] == 'a' || s[19] == 'b'
}

/// `uuid::Uuid::new_v4`, written out by its `Display`: some random UUID in hyphenated lower-case
/// form. Which one is left to the operating system's generator; that two calls differ is
/// likely, not certain, so it is not stated. It panics where the operating system has no random
/// bytes to give, which no input brings about.
#[verifier::external_body]
fn random_uuid() -> (text: String)
    ensures
        is_random_uuid(text@),
{
    uuid::Uuid::new_v4().to_string()
}

/// A fresh session id: a random UUID, so that it can stand in a query string as it is.
pub fn session_id() -> (sid: SessionId)
    ensures
        is_random_uuid(sid@),
        !occurs(sid@, '&'),
{
    let sid = random_uuid();
    proof {
        law_uuid_fits_a_query(sid@);
    }
    sid
}

/// The text put before the address of the message endpoint.
pub open spec fn prefix_text(prefix: Option<String>) -> Seq<char> {
    match prefix {
        Some(text) => text@,
        None => Seq::empty(),
    }
}

/// The query string that names session `sid`.
pub open spec fn session_query(sid: Seq<char>) -> Seq<char> {
    "session_id="@ + sid
}

/// The address announced to the client of session `sid`.
pub open spec fn announced(prefix: Seq<char>, post_path: Seq<char>, sid: Seq<char>) -> Seq<char> {
    prefix + post_path + "?"@ + session_query(sid)
}

/// The address that the client of session `sid` is to post its messages to: the configured
/// prefix, the message path and the session's id as query.
pub fn endpoint_payload(config: &SseServerConfig, sid: &SessionId) -> (payload: String)
    ensures
        payload@ == announced(prefix_text(config.endpoint_prefix), config.post_path@, sid@),
        config.endpoint_prefix is None ==> payload@ == config.post_path@ + "?session_id="@ + sid@,
        config.endpoint_prefix matches Some(prefix) ==> payload@ == prefix@ + config.post_path@
            + "?session_id="@ + sid@,
{
    let mut payload: String = match &config.endpoint_prefix {
        Some(prefix) => prefix.clone(),
        None => String::new(),
    };
    payload.append(config.post_path.as_str());
    payload.append("?");
    payload.append("session_id=");
    payload.append(sid.as_str());
    assert(payload@ == announced(prefix_text(config.endpoint_prefix), config.post_path@, sid@));
    proof {
        law_address_is_made_of_its_parts(
            prefix_text(config.endpoint_prefix),
            config.post_path@,
            sid@,
        );
        assert(Seq::<char>::empty() + config.post_path@ =~= config.post_path@);
    }
    payload
}

/// The value of `session_id` in a query string of `key=value` pairs with `&` between them. The
/// first pair with that key counts; all other pairs are passed over, also those without `=`.
pub open spec fn session_id_in(query: Seq<char>) -> Option<Seq<char>>
    decreases query.len(),
{
    let pair = before(query, '&');
    if occurs(pair, '=') && before(pair, '=') == "session_id"@ {
        Some(after(pair, '='))
    } else if occurs(query, '&') {
        proof {
            lemma_find(query, '&');
        }
        session_id_in(after(query, '&'))
    } else {
        None
    }
}

/// Reads the `session_id` parameter out of a raw query string.
pub fn extract_session_id(query: Option<&str>) -> (sid: Option<SessionId>)
    ensures
        match query {
            Some(q) => match session_id_in(q@) {
                Some(id) => sid is Some && sid->0@ == id,
                None => sid is None,
            },
            None => sid is None,
        },
{
    let q = match query {
        Some(q) => q,
        None => return None,
    };
    let chars = char_vec(q);
    let len: usize = chars.len();
    let mut start: usize = 0;
    assert(q@.skip(0) == q@);
    loop
        invariant
            query == Some(q),
            chars@ == q@,
            len == chars@.len(),
            start <= len,
            session_id_in(q@) == session_id_in(q@.skip(start as int)),
        decreases len - start,
    {
        let ghost rest = q@.skip(start as int);
        let end: usize = position(&chars, '&', start, len);
        let eq: usize = position(&chars, '=', start, end);
        assert(chars@.subrange(start as int, len as int) == rest);
        let ghost pair = before(rest, '&');
        assert(chars@.subrange(start as int, end as int) == pair);
        if eq < end {
            assert(q@.subrange(start as int, eq as int) == before(pair, '='));
            if same_text(q.substring_char(start, eq), "session_id") {
                assert(q@.subrange(eq + 1, end as int) == after(pair, '='));
                return Some(q.substring_char(eq + 1, end).to_owned());
            }
        }
        if end == len {
            return None;
        }
        assert(q@.skip(end + 1) == after(rest, '&'));
        start = end + 1;
    }
}

/// The id of a session, put into a query string as the announced address has it, is read back
/// unchanged up to its first `&`; so an id without `&` is read back whole.
pub proof fn law_session_query_is_read_back(sid: Seq<char>)
    ensures
        session_id_in(session_query(sid)) == Some(before(sid, '&')),
        !occurs(sid, '&') ==> session_id_in(session_query(sid)) == Some(sid),
{
    reveal_strlit("session_id=");
    reveal_strlit("session_id");
    let query = session_query(sid);
    let key = "session_id="@;
    lemma_find(sid, '&');
    let at = find(sid, '&');
    assert forall|j: int| 0 <= j < key.len() + at implies #[trigger] query[j] != '&' by {
        if j >= key.len() {
            assert(query[j] == sid[j - key.len()]);
        }
    }
    lemma_find_is(query, '&', key.len() + at);
    let pair = before(query, '&');
    assert(pair == key + before(sid, '&'));
    lemma_find_is(pair, '=', 10);
    assert(before(pair, '=') =~= "session_id"@);
    assert(after(pair, '=') =~= before(sid, '&'));
    if !occurs(sid, '&') {
        assert(before(sid, '&') == sid);
    }
}

/// A pair with another key or without `=`, in front of a query, does not change the session id in
/// it.
pub proof fn law_other_pairs_are_passed_over(pair: Seq<char>, rest: Seq<char>)
    requires
        !occurs(pair, '&'),
        !(occurs(pair, '=') && before(pair, '=') == "session_id"@),
    ensures
        session_id_in(pair + "&"@ + rest) == session_id_in(rest),
{
    reveal_strlit("&");
    let query = pair + "&"@ + rest;
    lemma_find(pair, '&');
    assert forall|j: int| 0 <= j < pair.len() implies #[trigger] query[j] != '&' by {
        assert(query[j] == pair[j]);
    }
    lemma_find_is(query, '&', pair.len() as int);
    assert(before(query, '&') =~= pair);
    assert(after(query, '&') =~= rest);
}

/// A random UUID holds no character with a meaning of its own in a query string: no `&`, `=`,
/// `?`, `#`, `%` or `+`.
pub proof fn law_uuid_fits_a_query(sid: Seq<char>)
    requires
        is_random_uuid(sid),
    ensures
        !occurs(sid, '&'),
        !occurs(sid, '='),
        !occurs(sid, '?'),
        !occurs(sid, '#'),
        !occurs(sid, '%'),
        !occurs(sid, '+'),
{
    lemma_find(sid, '&');
    lemma_find(sid, '=');
    lemma_find(sid, '?');
    lemma_find(sid, '#');
    lemma_find(sid, '%');
    lemma_find(sid, '+');
}

/// The announced address leads back to its session: its path is the prefix and the message path,
/// and the session id in its query is the one announced. This asks that the configured paths
/// hold no `?` themselves, and of the id that it holds no `&`, as no id of
/// [`session_id`] does.
pub proof fn law_announced_address_names_its_session(
    prefix: Seq<char>,
    post_path: Seq<char>,
    sid: Seq<char>,
)
    requires
        !occurs(prefix + post_path, '?'),
        !occurs(sid, '&'),
    ensures
        occurs(announced(prefix, post_path, sid), '?'),
        before(announced(prefix, post_path, sid), '?') == prefix + post_path,
        session_id_in(after(announced(prefix, post_path, sid), '?')) == Some(sid),
{
    reveal_strlit("?");
    let path = prefix + post_path;
    let address = announced(prefix, post_path, sid);
    lemma_find(path, '?');
    assert(address == path + "?"@ + session_query(sid));
    assert forall|j: int| 0 <= j < path.len() implies #[trigger] address[j] != '?' by {
        assert(address[j] == path[j]);
    }
    lemma_find_is(address, '?', path.len() as int);
    assert(before(address, '?') =~= path);
    assert(after(address, '?') =~= session_query(sid));
    law_session_query_is_read_back(sid);
}

/// Two sessions with different ids are announced under different addresses.
pub proof fn law_announced_addresses_differ(
    prefix: Seq<char>,
    post_path: Seq<char>,
    a: Seq<char>,
    b: Seq<char>,
)
    requires
        a != b,
    ensures
        announced(prefix, post_path, a) != announced(prefix, post_path, b),
{
    let head = prefix + post_path + "?"@ + "session_id="@;
    let left = announced(prefix, post_path, a);
    let right = announced(prefix, post_path, b);
    assert(left =~= head + a);
    assert(right =~= head + b);
    if left == right {
        assert(a =~= left.skip(head.len() as int));
        assert(b =~= right.skip(head.len() as int));
    }
}

/// The announced address is the prefix, the message path, `?session_id=` and the id of the session,
/// each of them whole and as it is, whatever it holds. Without a prefix it starts with the path.
pub proof fn law_address_is_made_of_its_parts(
    prefix: Seq<char>,
    post_path: Seq<char>,
    sid: Seq<char>,
)
    ensures
        announced(prefix, post_path, sid) == prefix + post_path + "?session_id="@ + sid,
        prefix_text(None) == Seq::<char>::empty(),
        forall|text: String| #[trigger] prefix_text(Some(text)) == text@,
{
    reveal_strlit("?");
    reveal_strlit("session_id=");
    reveal_strlit("?session_id=");
    assert("?"@ + "session_id="@ =~= "?session_id="@);
    assert(announced(prefix, post_path, sid) =~= prefix + post_path + "?session_id="@ + sid);
}

/// A query string without `&` holds a session id exactly where it is `session_id=` and the id,
/// whatever characters the id is made of.
pub proof fn law_a_pair_names_a_session_by_its_key(pair: Seq<char>, sid: Seq<char>)
    requires
        forall|i: int| 0 <= i < pair.len() ==> #[trigger] pair[i] != '&',
    ensures
        session_id_in(pair) == Some(sid) <==> pair == "session_id="@ + sid,
        session_id_in(pair) is None <==> !("session_id="@.is_prefix_of(pair)),
{
    reveal_strlit("session_id=");
    reveal_strlit("session_id");
    let key = "session_id="@;
    lemma_find(pair, '&');
    lemma_find(pair, '=');
    assert(before(pair, '&') =~= pair);
    assert("session_id"@ + seq!['='] =~= key);
    if key.is_prefix_of(pair) {
        assert forall|j: int| 0 <= j < 10 implies #[trigger] pair[j] != '=' by {
            assert(pair[j] == key[j]);
        }
        assert(pair[10] == key[10]);
        lemma_find_is(pair, '=', 10);
        assert(before(pair, '=') =~= "session_id"@);
        assert(pair =~= key + after(pair, '='));
        assert((key + sid).skip(11) =~= sid);
    } else {
        if occurs(pair, '=') && before(pair, '=') == "session_id"@ {
            assert(pair =~= before(pair, '=') + seq!['='] + after(pair, '='));
            assert(pair =~= key + after(pair, '='));
            assert(key =~= pair.subrange(0, key.len() as int));
        }
        if pair == key + sid {
            assert(key =~= pair.subrange(0, key.len() as int));
        }
    }
}

/// A query string is read from its front, pair by pair: the session id in two query strings with `&`
/// between them is that of the first one, and that of the second where the first one has none.
pub proof fn law_a_query_is_read_pair_by_pair(front: Seq<char>, rest: Seq<char>)
    ensures
        session_id_in(front) is Some ==> session_id_in(front + "&"@ + rest) == session_id_in(front),
        session_id_in(front) is None ==> session_id_in(front + "&"@ + rest) == session_id_in(rest),
    decreases front.len(),
{
    reveal_strlit("&");
    let query = front + "&"@ + rest;
    lemma_find(front, '&');
    let at = find(front, '&');
    assert forall|j: int| 0 <= j < at implies #[trigger] query[j] != '&' by {
        assert(query[j] == front[j]);
    }
    lemma_find_is(query, '&', at);
    assert(before(query, '&') =~= before(front, '&'));
    if occurs(front, '&') {
        assert(after(query, '&') =~= after(front, '&') + "&"@ + rest);
        law_a_query_is_read_pair_by_pair(after(front, '&'), rest);
    } else {
        assert(after(query, '&') =~= rest);
    }
}

/// A random UUID is 36 characters long, hyphens after the eighth and then after every fourth of the
/// next three groups, digits and the letters `a` to `f` elsewhere.
pub proof fn law_uuid_has_its_usual_form(sid: Seq<char>)
    requires
        is_random_uuid(sid),
    ensures
        sid.len() == 36,
        sid[8] == '-' && sid[13] == '-' && sid[18] == '-' && sid[23] == '-',
        forall|i: int|
            0 <= i < 36 && i != 8 && i != 13 && i != 18 && i != 23 ==> ('0' <= #[trigger] sid[i]
                && sid[i] <= '9') || ('a' <= sid[i] && sid[i] <= 'f'),
        sid[14] == '4',
        sid[19] == '8' || sid[19] == '9' || sid[19] == 'a' || sid[19] == 'b',
{
}

} // verus!
