//! Request headers that carry a credential.
use crate::credentials::{Credential, CredentialView};
use crate::error::{fold_ok, fold_ok_step, invalid, seen, Error, ErrorView};
use crate::text::{has_prefix, join3, same, starts_with};
use vstd::prelude::*;
use vstd::utf8::encode_utf8;

verus! {

/// Whether a character may stand in a header's name.
pub open spec fn name_char(c: char) -> bool {
    ||| 'a' <= c <= 'z'
    ||| 'A' <= c <= 'Z'
    ||| '0' <= c <= '9'
    ||| c == '!' || c == '#' || c == '$' || c == '%' || c == '&' || c == '\''
    ||| c == '*' || c == '+' || c == '-' || c == '.'
    ||| c == '^' || c == '_' || c == '`' || c == '|' || c == '~'
}

/// A letter in lower case; any other character as it is.
pub open spec fn lower_case(c: char) -> char {
    if 'A' <= c <= 'Z' {
        ((c as u32) + 32) as char
    } else {
        c
    }
}

/// The longest name that is accepted.
pub const MAX_NAME: usize = 65_535;

/// The normalized form of a header's name, where the text is one.
pub open spec fn normal_name(text: Seq<char>) -> Option<Seq<char>> {
    if 0 < text.len() <= MAX_NAME && (forall|i: int|
        0 <= i < text.len() ==> name_char(#[trigger] text[i])) {
        Some(text.map_values(|c: char| lower_case(c)))
    } else {
        None
    }
}

/// Calls `http::HeaderName::from_bytes`, which accepts a text of 1 to 65535 characters that
/// may all stand in a name, and turns its letters to lower case.
#[verifier::external_body]
pub(crate) fn header_name(text: &str) -> (r: Option<String>)
    ensures
        r.deep_view() == normal_name(text@),
{
    reqwest::header::HeaderName::from_bytes(text.as_bytes()).ok().map(|n| n.as_str().to_owned())
}

/// Whether a byte may stand in a header's value: a tab, or any byte from the space on but for
/// the delete character.
pub open spec fn value_byte(byte: u8) -> bool {
    byte == 9 || (byte >= 32 && byte != 127)
}

pub open spec fn value_text(text: Seq<char>) -> bool {
    let bytes = encode_utf8(text);
    forall|i: int| 0 <= i < bytes.len() ==> value_byte(#[trigger] bytes[i])
}

/// Calls `http::HeaderValue::from_str`, which accepts a text if and only if each byte of it
/// may stand in a value.
#[verifier::external_body]
pub(crate) fn header_value(text: &str) -> (r: bool)
    ensures
        r == value_text(text@),
{
    reqwest::header::HeaderValue::from_str(text).is_ok()
}

/// A header, by its normalized name.
pub type HeaderView = (Seq<char>, Seq<char>);

pub open spec fn names_header(headers: Seq<HeaderView>, name: Seq<char>) -> bool {
    exists|i: int| 0 <= i < headers.len() && (#[trigger] headers[i]).0 == name
}

/// Whether a list of headers holds one of this normalized name.
pub fn has_header(headers: &Vec<(String, String)>, name: &str) -> (r: bool)
    ensures
        r == names_header(headers.deep_view(), name@),
{
    let ghost all = headers.deep_view();
    let mut i: usize = 0;
    while i < headers.len()
        invariant
            i <= headers.len(),
            all == headers.deep_view(),
            forall|j: int| 0 <= j < i ==> (#[trigger] all[j]).0 != name@,
        decreases headers.len() - i,
    {
        assert(all[i as int].0 == headers@[i as int].0@);
        if same(headers[i].0.as_str(), name) {
            return true;
        }
        i += 1;
    }
    false
}

/// The name behind the prefix that marks credential metadata as a header.
pub open spec fn marked_header(key: Seq<char>) -> Option<Seq<char>> {
    if has_prefix(key, "header:"@) {
        Some(key.skip("header:"@.len() as int))
    } else {
        None
    }
}

pub fn metadata_header(key: &str) -> (r: Option<&str>)
    ensures
        r.deep_view() == marked_header(key@),
{
    if starts_with(key, "header:") {
        let n = "header:".unicode_len();
        let len = key.unicode_len();
        let rest = key.substring_char(n, len);
        assert(rest@ =~= key@.skip(n as int));
        Some(rest)
    } else {
        None
    }
}

/// Which headers a transport sets itself, besides those already in the request.
#[derive(Clone, Copy, PartialEq, Eq, Structural)]
pub enum Controlled {
    /// Those of the WebSocket handshake.
    WebSocket,
    /// Those of an HTTP request with a body.
    Http,
}

impl Controlled {
    pub open spec fn reserves(self, name: Seq<char>) -> bool {
        match self {
            Controlled::WebSocket => has_prefix(name, "sec-websocket-"@),
            Controlled::Http => name == "host"@ || name == "content-length"@ || name
                == "content-type"@,
        }
    }

    /// How an attempt to override a controlled header is refused.
    pub open spec fn refusal(self) -> Seq<char> {
        match self {
            Controlled::WebSocket => "credential metadata overrides a controlled WebSocket header"@,
            Controlled::Http => "credential metadata overrides a controlled header"@,
        }
    }

    fn is_reserved(self, name: &str) -> (r: bool)
        ensures
            r == self.reserves(name@),
    {
        match self {
            Controlled::WebSocket => starts_with(name, "sec-websocket-"),
            Controlled::Http => same(name, "host") || same(name, "content-length") || same(
                name,
                "content-type",
            ),
        }
    }

    fn refuse(self) -> (r: Error)
        ensures
            r@ == ErrorView::Invalid(self.refusal()),
    {
        match self {
            Controlled::WebSocket => invalid(
                "credential metadata overrides a controlled WebSocket header",
            ),
            Controlled::Http => invalid("credential metadata overrides a controlled header"),
        }
    }
}

/// One entry of credential metadata is added to the headers, where it is marked as a header.
pub open spec fn add_metadata(controlled: Controlled) -> spec_fn(
    Seq<HeaderView>,
    (Seq<char>, Seq<char>),
) -> Result<Seq<HeaderView>, ErrorView> {
    |headers: Seq<HeaderView>, entry: (Seq<char>, Seq<char>)|
        match marked_header(entry.0) {
            None => Ok(headers),
            Some(key) => match normal_name(key) {
                None => Err(ErrorView::Invalid("invalid credential metadata header"@)),
                Some(name) => if names_header(headers, name) || controlled.reserves(name) {
                    Err(ErrorView::Invalid(controlled.refusal()))
                } else if !value_text(entry.1) {
                    Err(ErrorView::Invalid("invalid credential metadata value"@))
                } else {
                    Ok(headers.push((name, entry.1)))
                },
            },
        }
}

/// The headers of a request with what credential metadata adds to them. Metadata replaces no
/// header.
pub open spec fn with_metadata(
    headers: Seq<HeaderView>,
    metadata: Seq<(Seq<char>, Seq<char>)>,
    controlled: Controlled,
) -> Result<Seq<HeaderView>, ErrorView> {
    fold_ok(metadata, headers, add_metadata(controlled))
}

/// Adds the headers of credential metadata to those of a request.
pub fn metadata_headers(
    headers: Vec<(String, String)>,
    metadata: &Vec<(String, String)>,
    controlled: Controlled,
) -> (r: Result<Vec<(String, String)>, Error>)
    ensures
        seen(r) == with_metadata(headers.deep_view(), metadata.deep_view(), controlled),
{
    let ghost start = headers.deep_view();
    let ghost all = metadata.deep_view();
    let ghost step = add_metadata(controlled);
    let mut out = headers;
    let mut i: usize = 0;
    assert(all.take(0) =~= Seq::empty());
    while i < metadata.len()
        invariant
            i <= metadata.len(),
            all == metadata.deep_view(),
            step == add_metadata(controlled),
            fold_ok(all.take(i as int), start, step) == Ok::<Seq<HeaderView>, ErrorView>(
                out.deep_view(),
            ),
            start == headers.deep_view(),
        decreases metadata.len() - i,
    {
        proof {
            fold_ok_step(all, start, step, i as int);
            assert(all[i as int] == (metadata@[i as int].0@, metadata@[i as int].1@));
        }
        let (key, value) = (&metadata[i].0, &metadata[i].1);
        if let Some(key) = metadata_header(key.as_str()) {
            let name = match header_name(key) {
                Some(name) => name,
                None => return Err(invalid("invalid credential metadata header")),
            };
            if has_header(&out, name.as_str()) || controlled.is_reserved(name.as_str()) {
                return Err(controlled.refuse());
            }
            if !header_value(value.as_str()) {
                return Err(invalid("invalid credential metadata value"));
            }
            let ghost before = out.deep_view();
            let ghost added = (name@, value@);
            out.push((name, value.clone()));
            assert(out.deep_view() =~= before.push(added));
        }
        i += 1;
    }
    assert(all.take(all.len() as int) =~= all);
    Ok(out)
}

/// The value of an authorization header.
pub open spec fn authorization(credential: CredentialView) -> Seq<char> {
    credential.scheme + " "@ + credential.value
}

/// The authorization header's value, where it can be one; `refusal` says how it is refused.
pub fn authorize(credential: &Credential, refusal: &str) -> (r: Result<String, Error>)
    ensures
        seen(r) == (if value_text(authorization(credential@)) {
            Ok(authorization(credential@))
        } else {
            Err(ErrorView::Invalid(refusal@))
        }),
{
    let value = join3(credential.scheme.as_str(), " ", credential.value.as_str());
    if header_value(value.as_str()) {
        Ok(value)
    } else {
        Err(invalid(refusal))
    }
}

/// What follows a rejected attempt to connect or to send.
#[derive(Debug, PartialEq, Eq)]
pub enum Rejected {
    /// The credential is refreshed and the attempt repeated.
    Refresh,
    Fail(Error),
}

/// A first attempt that was refused as unauthorized is repeated; nothing else is.
pub open spec fn refreshes(attempt: nat, status: u16) -> bool {
    status == 401 && attempt == 0
}

/// Only a rate limit and a failure of the server are worth a retry.
pub open spec fn retryable_status(status: u16) -> bool {
    status == 429 || status >= 500
}

/// Metadata keeps every header that was there, in its place.
pub proof fn metadata_replaces_no_header(
    headers: Seq<HeaderView>,
    metadata: Seq<(Seq<char>, Seq<char>)>,
    controlled: Controlled,
)
    ensures
        with_metadata(headers, metadata, controlled) matches Ok(all) ==> headers.len() <= all.len()
            && all.take(headers.len() as int) == headers,
    decreases metadata.len(),
{
    if metadata.len() == 0 {
        assert(headers.take(headers.len() as int) =~= headers);
    } else {
        metadata_replaces_no_header(headers, metadata.drop_last(), controlled);
        if with_metadata(headers, metadata, controlled) is Ok {
            let shorter = with_metadata(headers, metadata.drop_last(), controlled)->Ok_0;
            let all = with_metadata(headers, metadata, controlled)->Ok_0;
            assert(all.take(headers.len() as int) =~= shorter.take(headers.len() as int));
        }
    }
}

/// Metadata that is marked as a header is among the headers, under its name in lower case, and
/// no header that belongs to the transport comes from metadata.
pub proof fn marked_metadata_is_sent(
    headers: Seq<HeaderView>,
    metadata: Seq<(Seq<char>, Seq<char>)>,
    controlled: Controlled,
    i: int,
    name: Seq<char>,
)
    requires
        0 <= i < metadata.len(),
        metadata[i].0 == "header:"@ + name,
        with_metadata(headers, metadata, controlled) is Ok,
    ensures
        ({
            let all = with_metadata(headers, metadata, controlled)->Ok_0;
            normal_name(name) matches Some(normal) && {
                &&& all.contains((normal, metadata[i].1))
                &&& !controlled.reserves(normal)
                &&& !names_header(headers, normal)
            }
        }),
    decreases metadata.len(),
{
    let all = with_metadata(headers, metadata, controlled)->Ok_0;
    let front = metadata.drop_last();
    let before = with_metadata(headers, front, controlled)->Ok_0;
    let step = add_metadata(controlled);
    assert(step(before, metadata.last()) == Ok::<Seq<HeaderView>, ErrorView>(all));
    metadata_replaces_no_header(headers, front, controlled);
    if i < front.len() {
        assert(front[i] == metadata[i]);
        marked_metadata_is_sent(headers, front, controlled, i, name);
        let pair = (normal_name(name)->0, metadata[i].1);
        let j = choose|j: int| 0 <= j < before.len() && before[j] == pair;
        assert(all[j] == pair);
    } else {
        let key = metadata[i].0;
        assert(key.take("header:"@.len() as int) =~= "header:"@);
        assert(key.skip("header:"@.len() as int) =~= name);
        assert(all[before.len() as int] == (normal_name(name)->0, metadata[i].1));
        assert(!names_header(headers, normal_name(name)->0)) by {
            if names_header(headers, normal_name(name)->0) {
                let j = choose|j: int|
                    0 <= j < headers.len() && (#[trigger] headers[j]).0 == normal_name(name)->0;
                assert(before.take(headers.len() as int)[j] == headers[j]);
                assert(before[j].0 == normal_name(name)->0);
            }
        }
    }
}

/// A name is normal in lower case: each of its letters is, and no other character changes.
pub proof fn names_are_normal_in_lower_case(text: Seq<char>, name: Seq<char>, i: int)
    requires
        normal_name(text) == Some(name),
        0 <= i < text.len(),
    ensures
        name.len() == text.len(),
        !('A' <= name[i] <= 'Z'),
        'A' <= text[i] <= 'Z' ==> name[i] as u32 == text[i] as u32 + 32,
        !('A' <= text[i] <= 'Z') ==> name[i] == text[i],
{
}

} // verus!
