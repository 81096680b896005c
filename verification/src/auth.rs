//! Identity from the forward-auth proxy's headers, with a development
//! fallback, and detection of HTMX requests.

use axum::http::{HeaderMap, HeaderValue};
use vstd::prelude::*;

verus! {

/// The request headers (`http::HeaderMap`), opaque here; what it holds is
/// named by [`header_first_values`].
#[verifier::external_type_specification]
#[verifier::external_body]
#[verifier::reject_recursive_types(T)]
pub struct ExHeaderMap<T>(HeaderMap<T>);

/// A header value (`http::HeaderValue`), opaque here.
#[verifier::external_type_specification]
#[verifier::external_body]
pub struct ExHeaderValue(HeaderValue);

#[derive(Clone, Copy, Debug)]
pub struct UserId(pub i64);

#[derive(Clone, Copy, Debug)]
pub struct HxRequest(pub bool);

/// Identity resolved from proxy headers, or the dev fallback.
#[derive(Debug, PartialEq, Eq)]
pub struct Identity {
    pub subject: String,
    pub email: Option<String>,
    pub name: Option<String>,
}

/// What a header map holds: for each header name (in lower case), the bytes
/// of the first value stored under it.
pub uninterp spec fn header_first_values(headers: HeaderMap) -> Map<Seq<char>, Seq<u8>>;

pub open spec fn ascii_lower(c: char) -> char {
    if 'A' <= c && c <= 'Z' {
        ((c as int) + 32) as char
    } else {
        c
    }
}

pub open spec fn lower_text(s: Seq<char>) -> Seq<char> {
    s.map_values(|c: char| ascii_lower(c))
}

/// A header name made of ASCII letters, digits and dashes.
pub open spec fn plain_header_name(s: Seq<char>) -> bool {
    &&& s.len() > 0
    &&& forall|i: int|
        0 <= i < s.len() ==> {
            let c = #[trigger] s[i];
            ('a' <= c && c <= 'z') || ('A' <= c && c <= 'Z') || ('0' <= c && c <= '9') || c
                == '-'
        }
}

/// A byte the header library renders as text: visible ASCII or a tab.
pub open spec fn visible_ascii(b: u8) -> bool {
    (32 <= b && b < 127) || b == 9
}

/// The header value as text, when all its bytes are visible ASCII.
pub open spec fn value_text(bytes: Seq<u8>) -> Option<Seq<char>> {
    if forall|i: int| 0 <= i < bytes.len() ==> visible_ascii(#[trigger] bytes[i]) {
        Some(bytes.map_values(|b: u8| b as char))
    } else {
        None
    }
}

/// The text of a named header as the request carries it, if any.
pub open spec fn header_text_of(headers: HeaderMap, name: Seq<char>) -> Option<Seq<char>> {
    let values = header_first_values(headers);
    let key = lower_text(name);
    if values.contains_key(key) {
        value_text(values[key])
    } else {
        None
    }
}

pub open spec fn text_of(value: Option<String>) -> Option<Seq<char>> {
    match value {
        Some(s) => Some(s@),
        None => None,
    }
}

/// Text of the first value of a header, when that value is visible ASCII.
///
/// Calls `HeaderMap::get`, which finds a header by its name ignoring ASCII
/// case and returns its first value, and `HeaderValue::to_str`, which fails
/// unless every byte is visible ASCII (32 to 126) or a tab. The contract
/// claims exactly that, over [`header_first_values`], for names made of
/// letters, digits and dashes.
#[verifier::external_body]
fn header_text(headers: &HeaderMap, name: &str) -> (r: Option<String>)
    requires
        plain_header_name(name@),
    ensures
        header_first_values(*headers).contains_key(lower_text(name@)) ==> text_of(r) == value_text(
            header_first_values(*headers)[lower_text(name@)],
        ),
        !header_first_values(*headers).contains_key(lower_text(name@)) ==> r is None,
{
    match headers.get(name) {
        Some(value) => match value.to_str() {
            Ok(text) => Some(text.to_owned()),
            Err(_) => None,
        },
        None => None,
    }
}

/// The identity a request resolves to, as (subject, email, name): the proxy's
/// `Remote-User` header when it is present and not empty, with
/// `Remote-Email` and `Remote-Name`; else the development user when set and
/// not empty, named after itself; else none.
pub open spec fn resolved_identity(headers: HeaderMap, dev_user: Option<Seq<char>>) -> Option<
    (Seq<char>, Option<Seq<char>>, Option<Seq<char>>),
> {
    match header_text_of(headers, "Remote-User"@) {
        Some(subject) if subject.len() > 0 => Some(
            (
                subject,
                header_text_of(headers, "Remote-Email"@),
                header_text_of(headers, "Remote-Name"@),
            ),
        ),
        _ => match dev_user {
            Some(d) if d.len() > 0 => Some((d, None, Some(d))),
            _ => None,
        },
    }
}

pub open spec fn identity_view(id: Option<Identity>) -> Option<
    (Seq<char>, Option<Seq<char>>, Option<Seq<char>>),
> {
    match id {
        Some(i) => Some((i.subject@, text_of(i.email), text_of(i.name))),
        None => None,
    }
}

pub open spec fn str_text(s: Option<&str>) -> Option<Seq<char>> {
    match s {
        Some(t) => Some(t@),
        None => None,
    }
}

/// A non-empty `Remote-User` header decides the identity whatever the
/// development user; without one, a non-empty development user is used;
/// with neither, the request has no identity.
pub proof fn lemma_identity_precedence(headers: HeaderMap, dev_user: Option<Seq<char>>)
    ensures
        match header_text_of(headers, "Remote-User"@) {
            Some(s) => s.len() > 0 ==> resolved_identity(headers, dev_user) == Some(
                (
                    s,
                    header_text_of(headers, "Remote-Email"@),
                    header_text_of(headers, "Remote-Name"@),
                ),
            ),
            None => true,
        },
        forall|d: Seq<char>|
            #![trigger resolved_identity(headers, Some(d))]
            !(header_text_of(headers, "Remote-User"@) matches Some(s) && s.len() > 0)
                && d.len() > 0 ==> resolved_identity(headers, Some(d)) == Some(
                (d, None::<Seq<char>>, Some(d)),
            ),
        !(header_text_of(headers, "Remote-User"@) matches Some(s) && s.len() > 0) && (
        dev_user matches Some(d) ==> d.len() == 0) ==> resolved_identity(headers, dev_user) is None,
{
}

/// Pure resolution: proxy headers win; else dev_user; else None (=> 401).
pub fn resolve_identity(headers: &HeaderMap, dev_user: Option<&str>) -> (r: Option<Identity>)
    ensures
        identity_view(r) == resolved_identity(*headers, str_text(dev_user)),
{
    proof {
        reveal_strlit("Remote-User");
        reveal_strlit("Remote-Email");
        reveal_strlit("Remote-Name");
    }
    if let Some(subject) = header_text(headers, "Remote-User") {
        if !subject.as_str().is_empty() {
            return Some(
                Identity {
                    subject,
                    email: header_text(headers, "Remote-Email"),
                    name: header_text(headers, "Remote-Name"),
                },
            );
        }
    }
    match dev_user {
        Some(d) => if d.is_empty() {
            None
        } else {
            Some(Identity { subject: d.to_owned(), email: None, name: Some(d.to_owned()) })
        },
        None => None,
    }
}

/// Character code after ASCII lower-casing.
pub open spec fn lower_code(c: char) -> int {
    if 'A' <= c && c <= 'Z' {
        (c as int) + 32
    } else {
        c as int
    }
}

proof fn lemma_lower_code(c: char)
    ensures
        ascii_lower(c) as int == lower_code(c),
{
}

/// Equality of two strings ignoring ASCII case.
pub fn eq_ignore_ascii_case(a: &str, b: &str) -> (r: bool)
    ensures
        r == (lower_text(a@) == lower_text(b@)),
{
    let n = a.unicode_len();
    if n != b.unicode_len() {
        assert(lower_text(a@).len() != lower_text(b@).len());
        return false;
    }
    let mut i: usize = 0;
    while i < n
        invariant
            n == a@.len(),
            n == b@.len(),
            0 <= i <= n,
            forall|j: int| 0 <= j < i ==> ascii_lower(a@[j]) == ascii_lower(b@[j]),
        decreases n - i,
    {
        let x = a.get_char(i);
        let y = b.get_char(i);
        let xl: u32 = if x >= 'A' && x <= 'Z' {
            x as u32 + 32
        } else {
            x as u32
        };
        let yl: u32 = if y >= 'A' && y <= 'Z' {
            y as u32 + 32
        } else {
            y as u32
        };
        proof {
            lemma_lower_code(x);
            lemma_lower_code(y);
        }
        if xl != yl {
            assert(lower_text(a@)[i as int] != lower_text(b@)[i as int]);
            return false;
        }
        i = i + 1;
    }
    assert(lower_text(a@) =~= lower_text(b@));
    true
}

/// An HTMX request: its `HX-Request` header reads `true`, in any case.
pub open spec fn hx_request(headers: HeaderMap) -> bool {
    match header_text_of(headers, "HX-Request"@) {
        Some(text) => lower_text(text) == "true"@,
        None => false,
    }
}

pub fn is_hx(headers: &HeaderMap) -> (r: bool)
    ensures
        r == hx_request(*headers),
{
    proof {
        reveal_strlit("HX-Request");
        reveal_strlit("true");
    }
    match header_text(headers, "HX-Request") {
        Some(value) => {
            let r = eq_ignore_ascii_case(value.as_str(), "true");
            assert(lower_text("true"@) =~= "true"@);
            r
        },
        None => false,
    }
}

} // verus!
