//! Searching and slicing of the gateway's text.
use vstd::prelude::*;
use vstd::string::StringSliceAdditionalSpecFns;
use vstd::utf8::{
    encode_utf8, encode_utf8_valid_utf8, is_char_boundary,
    is_char_boundary_iff_not_is_continuation_byte, valid_utf8_split,
};

verus! {

/// Byte offset in the root page's body at which the continuation token starts.
pub const TOKEN_START: usize = 71;

/// Number of bytes at the end of the root page's body that follow the token.
pub const TOKEN_TRAILER: usize = 12;

/// `i` is the first index at or after `from` where `s` holds `c`.
pub open spec fn is_first_char_from(s: Seq<char>, c: char, from: int, i: int) -> bool {
    &&& from <= i < s.len()
    &&& s[i] == c
    &&& forall|k: int| from <= k < i ==> s[k] != c
}

/// `s` holds `c` nowhere at or after `from`.
pub open spec fn char_absent_from(s: Seq<char>, c: char, from: int) -> bool {
    forall|k: int| from <= k < s.len() ==> s[k] != c
}

/// `p` occurs in `s` starting at index `i`.
pub open spec fn occurs_at(s: Seq<char>, p: Seq<char>, i: int) -> bool {
    0 <= i && i + p.len() <= s.len() && s.subrange(i, i + p.len()) == p
}

/// `i` is the first index at which `p` occurs in `s`.
pub open spec fn is_first_occurrence(s: Seq<char>, p: Seq<char>, i: int) -> bool {
    occurs_at(s, p, i) && forall|k: int| 0 <= k < i ==> !occurs_at(s, p, k)
}

/// `p` occurs somewhere in `s`.
pub open spec fn contains_pattern(s: Seq<char>, p: Seq<char>) -> bool {
    exists|i: int| occurs_at(s, p, i)
}

/// The bytes of a root page's body that carry the continuation token.
pub open spec fn token_window(b: Seq<u8>) -> Seq<u8> {
    b.subrange(TOKEN_START as int, b.len() - TOKEN_TRAILER as int)
}

/// The token window of `b` lies on character boundaries of the body.
pub open spec fn has_token_window(b: Seq<u8>) -> bool {
    &&& b.len() >= TOKEN_START + TOKEN_TRAILER
    &&& is_char_boundary(b, TOKEN_START as int)
    &&& is_char_boundary(b, b.len() - TOKEN_TRAILER as int)
}

/// The first index at or after `from` where `s` holds `c`.
pub open spec fn first_char_from(s: Seq<char>, c: char, from: int) -> Option<int> {
    if exists|i: int| #[trigger] is_first_char_from(s, c, from, i) {
        Some(choose|i: int| #[trigger] is_first_char_from(s, c, from, i))
    } else {
        None
    }
}

/// The first index at which `p` occurs in `s`.
pub open spec fn first_occurrence(s: Seq<char>, p: Seq<char>) -> Option<int> {
    if exists|i: int| #[trigger] is_first_occurrence(s, p, i) {
        Some(choose|i: int| #[trigger] is_first_occurrence(s, p, i))
    } else {
        None
    }
}

/// The session handle that a redirect URL carries: what follows the first `=`
/// after the first `?`.
pub open spec fn handle_of(url: Seq<char>) -> Option<Seq<char>> {
    match first_char_from(url, '?', 0) {
        Some(q) => match first_char_from(url, '=', q + 1) {
            Some(e) => Some(url.subrange(e + 1, url.len() as int)),
            None => None,
        },
        None => None,
    }
}

/// The text `mac=`.
pub open spec fn mac_key() -> Seq<char> {
    seq!['m', 'a', 'c', '=']
}

/// The hardware address that a continuation token carries: the value of its
/// first `mac=`, up to the next `&` or to the end.
pub open spec fn mac_of(qs: Seq<char>) -> Option<Seq<char>> {
    match first_occurrence(qs, mac_key()) {
        Some(i) => match first_char_from(qs, '&', i + 4) {
            Some(e) => Some(qs.subrange(i + 4, e)),
            None => Some(qs.subrange(i + 4, qs.len() as int)),
        },
        None => None,
    }
}

pub(crate) proof fn lemma_first_char_unique(s: Seq<char>, c: char, from: int, i: int)
    requires
        is_first_char_from(s, c, from, i),
    ensures
        first_char_from(s, c, from) == Some(i),
{
    let j = choose|j: int| #[trigger] is_first_char_from(s, c, from, j);
    assert(is_first_char_from(s, c, from, j));
    assert(!(j < i)) by {
        if j < i {
            assert(s[j] != c);
        }
    }
    assert(!(i < j)) by {
        if i < j {
            assert(s[i] != c);
        }
    }
}

proof fn lemma_first_occurrence_unique(s: Seq<char>, p: Seq<char>, i: int)
    requires
        is_first_occurrence(s, p, i),
    ensures
        first_occurrence(s, p) == Some(i),
{
    let j = choose|j: int| #[trigger] is_first_occurrence(s, p, j);
    assert(is_first_occurrence(s, p, j));
    assert(!(j < i));
    assert(!(i < j));
}

/// Returns the first index at or after `from` at which `s` holds `c`.
pub fn find_char(s: &str, c: char, from: usize) -> (r: Option<usize>)
    ensures
        r matches Some(i) ==> is_first_char_from(s@, c, from as int, i as int),
        r is None ==> char_absent_from(s@, c, from as int),
        r matches Some(i) ==> first_char_from(s@, c, from as int) == Some(i as int),
        r is None ==> first_char_from(s@, c, from as int) is None,
{
    let n = s.unicode_len();
    let mut i: usize = from;
    while i < n
        invariant
            n == s@.len(),
            from <= i || n <= i,
            forall|k: int| from <= k < i ==> s@[k] != c,
        decreases n - i,
    {
        if s.get_char(i) == c {
            proof {
                lemma_first_char_unique(s@, c, from as int, i as int);
            }
            return Some(i);
        }
        i = i + 1;
    }
    None
}

/// Tells whether `p` occurs in `s` at index `i`.
fn matches_at(s: &str, n: usize, p: &str, m: usize, i: usize) -> (r: bool)
    requires
        n == s@.len(),
        m == p@.len(),
    ensures
        r == occurs_at(s@, p@, i as int),
{
    if i > n || m > n - i {
        return false;
    }
    let mut j: usize = 0;
    while j < m
        invariant
            i + m <= n,
            n == s@.len(),
            m == p@.len(),
            j <= m,
            forall|k: int| 0 <= k < j ==> s@[i + k] == p@[k],
        decreases m - j,
    {
        if s.get_char(i + j) != p.get_char(j) {
            assert(s@.subrange(i as int, i + m)[j as int] != p@[j as int]);
            return false;
        }
        j = j + 1;
    }
    assert(s@.subrange(i as int, i + m) =~= p@);
    true
}

/// Returns the first index at which `p` occurs in `s`.
pub fn find_pattern(s: &str, p: &str) -> (r: Option<usize>)
    ensures
        r matches Some(i) ==> is_first_occurrence(s@, p@, i as int),
        r is None ==> !contains_pattern(s@, p@),
        r matches Some(i) ==> first_occurrence(s@, p@) == Some(i as int),
        r is None ==> first_occurrence(s@, p@) is None,
{
    let n = s.unicode_len();
    let m = p.unicode_len();
    let mut i: usize = 0;
    while i <= n
        invariant
            n == s@.len(),
            m == p@.len(),
            forall|k: int| 0 <= k < i ==> !occurs_at(s@, p@, k),
        decreases n + 1 - i,
    {
        if matches_at(s, n, p, m, i) {
            proof {
                lemma_first_occurrence_unique(s@, p@, i as int);
            }
            return Some(i);
        }
        if i == n {
            return None;
        }
        i = i + 1;
    }
    None
}

/// Returns the continuation token of an unauthenticated root page: the body's
/// bytes from offset 71 up to 12 bytes before its end.
pub fn extract_token(body: &str) -> (r: Option<String>)
    ensures
        r is Some <==> has_token_window(body.spec_bytes()),
        r matches Some(t) ==> encode_utf8(t@) == token_window(body.spec_bytes()),
{
    let len = body.as_bytes().len();
    if len < TOKEN_START + TOKEN_TRAILER {
        return None;
    }
    let end = len - TOKEN_TRAILER;
    if !body.is_char_boundary(TOKEN_START) || !body.is_char_boundary(end) {
        return None;
    }
    let (_, rest) = body.split_at(TOKEN_START);
    proof {
        let b = body.spec_bytes();
        encode_utf8_valid_utf8(body@);
        valid_utf8_split(b, TOKEN_START as int);
        is_char_boundary_iff_not_is_continuation_byte(b, end as int);
        is_char_boundary_iff_not_is_continuation_byte(rest.spec_bytes(), end - TOKEN_START);
    }
    let (token, _) = rest.split_at(end - TOKEN_START);
    assert(token.spec_bytes() =~= token_window(body.spec_bytes()));
    Some(token.to_owned())
}

/// Returns the session handle that a redirect URL carries.
pub fn session_handle(url: &str) -> (r: Option<String>)
    ensures
        r matches Some(h) ==> handle_of(url@) == Some(h@),
        r is None ==> handle_of(url@) is None,
{
    let n = url.unicode_len();
    match find_char(url, '?', 0) {
        None => None,
        Some(q) => match find_char(url, '=', q + 1) {
            None => None,
            Some(e) => Some(url.substring_char(e + 1, n).to_owned()),
        },
    }
}

/// Returns the hardware address that a continuation token carries in its `mac` parameter.
pub fn mac_address(query_string: &str) -> (r: Option<String>)
    ensures
        r matches Some(m) ==> mac_of(query_string@) == Some(m@),
        r is None ==> mac_of(query_string@) is None,
{
    let key = "mac=";
    proof {
        reveal_strlit("mac=");
        assert(key@ =~= mac_key());
    }
    let n = query_string.unicode_len();
    match find_pattern(query_string, key) {
        None => None,
        Some(i) => {
            let start = i + 4;
            match find_char(query_string, '&', start) {
                Some(e) => Some(query_string.substring_char(start, e).to_owned()),
                None => Some(query_string.substring_char(start, n).to_owned()),
            }
        },
    }
}

} // verus!
