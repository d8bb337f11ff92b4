//! WebSocket messages, and what a handshake and a send decide.
use crate::credentials::{Credential, CredentialView};
use crate::error::{invalid, seen, Error, ErrorView, Failure, FailureView};
use crate::headers::{
    authorization, authorize, metadata_headers, metadata_replaces_no_header, refreshes,
    retryable_status, value_text, with_metadata, Controlled, HeaderView, Rejected,
};
use crate::text::{decimal, join, number};
use vstd::prelude::*;
use vstd::utf8::encode_utf8;

verus! {

#[derive(Debug, Clone, PartialEq, Eq)]
pub enum WireMessage {
    Text(String),
    Binary(Vec<u8>),
}

pub enum WireMessageView {
    Text(Seq<char>),
    Binary(Seq<u8>),
}

impl View for WireMessage {
    type V = WireMessageView;

    open spec fn view(&self) -> WireMessageView {
        match self {
            WireMessage::Text(text) => WireMessageView::Text(text@),
            WireMessage::Binary(bytes) => WireMessageView::Binary(bytes@),
        }
    }
}

impl WireMessageView {
    /// The bytes that the message takes on the wire.
    pub open spec fn size(self) -> nat {
        match self {
            WireMessageView::Text(text) => encode_utf8(text).len(),
            WireMessageView::Binary(bytes) => bytes.len(),
        }
    }
}

impl WireMessage {
    pub fn size(&self) -> (r: usize)
        ensures
            r == self@.size(),
    {
        match self {
            WireMessage::Text(text) => text.as_str().as_bytes().len(),
            WireMessage::Binary(bytes) => bytes.len(),
        }
    }

    /// Whether the message may be sent.
    pub fn check_size(&self, max_message_bytes: usize) -> (r: Result<(), Error>)
        ensures
            r is Ok <==> self@.size() <= max_message_bytes,
            r is Err ==> r->Err_0@ == ErrorView::Invalid(
                "outgoing WebSocket message exceeds the configured limit"@,
            ),
    {
        if self.size() > max_message_bytes {
            return Err(invalid("outgoing WebSocket message exceeds the configured limit"));
        }
        Ok(())
    }
}

/// The headers of a handshake: those of the request, the authorization, and what credential
/// metadata adds.
pub open spec fn handshake(headers: Seq<HeaderView>, credential: CredentialView) -> Result<
    Seq<HeaderView>,
    ErrorView,
> {
    if !value_text(authorization(credential)) {
        Err(ErrorView::Invalid("invalid WebSocket credential header"@))
    } else {
        with_metadata(
            headers.push(("authorization"@, authorization(credential))),
            credential.metadata,
            Controlled::WebSocket,
        )
    }
}

/// Adds a credential to the headers of a handshake, which are given by their normalized names.
pub fn handshake_headers(headers: Vec<(String, String)>, credential: &Credential) -> (r: Result<
    Vec<(String, String)>,
    Error,
>)
    ensures
        seen(r) == handshake(headers.deep_view(), credential@),
{
    let value = authorize(credential, "invalid WebSocket credential header")?;
    let ghost before = headers.deep_view();
    let mut own = headers;
    own.push(("authorization".to_owned(), value));
    assert(own.deep_view() =~= before.push(("authorization"@, authorization(credential@))));
    metadata_headers(own, &credential.metadata, Controlled::WebSocket)
}

/// The failure of a handshake that was answered with a status.
pub open spec fn handshake_failure(status: u16) -> FailureView {
    FailureView {
        code: "http_"@ + decimal(status as nat),
        message: "WebSocket handshake rejected"@,
        retryable: retryable_status(status),
    }
}

/// What follows a handshake that was answered with a status. Only the first attempt is
/// repeated: no command can have been sent before.
pub fn handshake_rejected(attempt: usize, status: u16) -> (r: Rejected)
    ensures
        refreshes(attempt as nat, status) ==> r is Refresh,
        !refreshes(attempt as nat, status) ==> r is Fail && (r->Fail_0)@ == ErrorView::Model(
            handshake_failure(status),
        ),
{
    if status == 401 && attempt == 0 {
        return Rejected::Refresh;
    }
    let code = number(status as u64);
    Rejected::Fail(
        Error::Model(
            Failure {
                code: join("http_", code.as_str()),
                message: "WebSocket handshake rejected".to_owned(),
                retryable: status == 429 || status >= 500,
            },
        ),
    )
}

/// A handshake carries its own headers, and behind them the authorization.
pub proof fn handshakes_are_authorized(headers: Seq<HeaderView>, credential: CredentialView)
    ensures
        handshake(headers, credential) matches Ok(all) ==> {
            let n = headers.len() as int;
            &&& all.len() > n
            &&& all.take(n) == headers
            &&& all[n].0 == "authorization"@
            &&& all[n].1 == credential.scheme + " "@ + credential.value
        },
{
    let own = headers.push(("authorization"@, authorization(credential)));
    metadata_replaces_no_header(own, credential.metadata, Controlled::WebSocket);
    if let Ok(all) = handshake(headers, credential) {
        let n = headers.len() as int;
        assert(all.take(own.len() as int) == own);
        assert(all[n] == own[n]);
        assert(all.take(n) =~= headers) by {
            assert forall|i: int| 0 <= i < n implies all[i] == headers[i] by {
                assert(all.take(own.len() as int)[i] == own[i]);
            }
        }
        assert(all.take(own.len() as int)[n] == own[n]);
    }
}

} // verus!
