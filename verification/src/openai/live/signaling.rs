//! Creating a Live session: what is sent to the endpoint, and what its answer decides.
use crate::credentials::{Credential, CredentialView};
use crate::error::{invalid, protocol, seen, Error, ErrorView, Failure, FailureView};
use crate::headers::{
    authorization, authorize, has_header, header_value, metadata_headers,
    metadata_replaces_no_header, names_header, refreshes, value_text, with_metadata, Controlled,
    HeaderView,
};
use crate::http::{is_success, Answered};
use crate::json::{Json, JsonView};
use crate::text::{decimal, from_utf8, join, number};
use vstd::prelude::*;
use vstd::utf8::{decode_utf8, valid_utf8};

verus! {

/// The headers that every request to create a session carries.
pub open spec fn own_headers(credential: CredentialView, session_id: Seq<char>) -> Seq<HeaderView> {
    seq![
        ("authorization"@, authorization(credential)),
        ("openai-alpha"@, "quicksilver=v2"@),
        ("originator"@, "codex_cli_rs"@),
        ("x-session-id"@, session_id),
    ]
}

/// The headers of a request to create a session. The account must be among the credential's
/// metadata.
pub open spec fn create_headers(credential: CredentialView, session_id: Seq<char>) -> Result<
    Seq<HeaderView>,
    ErrorView,
> {
    if !value_text(authorization(credential)) {
        Err(ErrorView::Invalid("invalid Live credential"@))
    } else if !value_text(session_id) {
        Err(ErrorView::Invalid("invalid session id"@))
    } else {
        match with_metadata(
            own_headers(credential, session_id),
            credential.metadata,
            Controlled::Http,
        ) {
            Err(e) => Err(e),
            Ok(headers) => if names_header(headers, "chatgpt-account-id"@) {
                Ok(headers)
            } else {
                Err(
                    ErrorView::Invalid(
                        "Live requires header:ChatGPT-Account-Id credential metadata"@,
                    ),
                )
            },
        }
    }
}

pub fn headers(credential: &Credential, session_id: &str) -> (r: Result<
    Vec<(String, String)>,
    Error,
>)
    ensures
        seen(r) == create_headers(credential@, session_id@),
{
    let value = authorize(credential, "invalid Live credential")?;
    if !header_value(session_id) {
        return Err(invalid("invalid session id"));
    }
    let mut own: Vec<(String, String)> = Vec::new();
    own.push(("authorization".to_owned(), value));
    own.push(("openai-alpha".to_owned(), "quicksilver=v2".to_owned()));
    own.push(("originator".to_owned(), "codex_cli_rs".to_owned()));
    own.push(("x-session-id".to_owned(), session_id.to_owned()));
    assert(own.deep_view() =~= own_headers(credential@, session_id@));
    let headers = metadata_headers(own, &credential.metadata, Controlled::Http)?;
    if !has_header(&headers, "chatgpt-account-id") {
        return Err(invalid("Live requires header:ChatGPT-Account-Id credential metadata"));
    }
    Ok(headers)
}

/// The body of a request to create a session.
pub fn body(sdp: &str, session: Json) -> (r: Json)
    ensures
        r@ == JsonView::empty().set("sdp"@, JsonView::text(sdp@)).set("session"@, session@),
{
    Json::empty().with_text("sdp", sdp).with("session", session)
}

/// The failure of a request that was answered with a status. None is worth a retry.
pub open spec fn create_failure(status: u16) -> FailureView {
    FailureView {
        code: "http_"@ + decimal(status as nat),
        message: "Live session creation rejected"@,
        retryable: false,
    }
}

/// What follows an answer: only the first may be refused for its credential and sent again.
pub fn created(attempt: usize, status: u16) -> (r: Result<Answered, Error>)
    ensures
        refreshes(attempt as nat, status) ==> r is Ok && r->Ok_0 == Answered::Refresh,
        !refreshes(attempt as nat, status) && is_success(status) ==> r is Ok && r->Ok_0
            == Answered::Accepted,
        !refreshes(attempt as nat, status) && !is_success(status) ==> r is Err && r->Err_0@
            == ErrorView::Model(create_failure(status)),
{
    if status == 401 && attempt == 0 {
        return Ok(Answered::Refresh);
    }
    if status < 200 || status >= 300 {
        let code = number(status as u64);
        return Err(
            Error::Model(
                Failure::new(join("http_", code.as_str()), "Live session creation rejected"),
            ),
        );
    }
    Ok(Answered::Accepted)
}

/// Takes a piece of the answer, up to a number of bytes in all.
pub fn append(data: &mut Vec<u8>, piece: &[u8], max_event_bytes: usize) -> (r: Result<(), Error>)
    ensures
        old(data)@.len() + piece@.len() <= max_event_bytes ==> r is Ok && final(data)@ == old(
            data,
        )@ + piece@,
        old(data)@.len() + piece@.len() > max_event_bytes ==> r is Err && r->Err_0@
            == ErrorView::Protocol("oversized Live SDP"@) && final(data)@ == old(data)@,
{
    if data.len() > max_event_bytes || piece.len() > max_event_bytes - data.len() {
        return Err(protocol("oversized Live SDP"));
    }
    data.extend_from_slice(piece);
    Ok(())
}

/// The description that the answer holds.
pub fn description(data: &Vec<u8>) -> (r: Result<String, Error>)
    ensures
        seen(r) == (if valid_utf8(data@) {
            Ok(decode_utf8(data@))
        } else {
            Err(ErrorView::Protocol("invalid Live SDP text"@))
        }),
{
    match from_utf8(data.as_slice()) {
        Ok(text) => Ok(text.to_owned()),
        Err(_) => Err(protocol("invalid Live SDP text")),
    }
}

/// A request to create a session carries the credential, the identity of the session and the
/// account; without an account none is made.
pub proof fn sessions_are_asked_for_by_an_account(credential: CredentialView, session_id: Seq<char>)
    ensures
        create_headers(credential, session_id) matches Ok(all) ==> {
            &&& all.len() > 4
            &&& all[0] == ("authorization"@, credential.scheme + " "@ + credential.value)
            &&& all[1] == ("openai-alpha"@, "quicksilver=v2"@)
            &&& all[2] == ("originator"@, "codex_cli_rs"@)
            &&& all[3] == ("x-session-id"@, session_id)
            &&& exists|i: int| 0 <= i < all.len() && (#[trigger] all[i]).0 == "chatgpt-account-id"@
        },
{
    let own = own_headers(credential, session_id);
    metadata_replaces_no_header(own, credential.metadata, Controlled::Http);
    if let Ok(all) = create_headers(credential, session_id) {
        assert(all.take(4) == own);
        assert(all.take(4)[0] == own[0]);
        assert(all.take(4)[1] == own[1]);
        assert(all.take(4)[2] == own[2]);
        assert(all.take(4)[3] == own[3]);
        let i = choose|i: int| 0 <= i < all.len() && (#[trigger] all[i]).0 == "chatgpt-account-id"@;
        reveal_strlit("authorization");
        reveal_strlit("openai-alpha");
        reveal_strlit("originator");
        reveal_strlit("x-session-id");
        reveal_strlit("chatgpt-account-id");
        assert("authorization"@.len() == 13 && "openai-alpha"@.len() == 12);
        assert("originator"@.len() == 10 && "x-session-id"@.len() == 12);
        assert("chatgpt-account-id"@.len() == 18);
        assert(i >= 4);
    }
}

} // verus!
