//! Values of a WebRTC peer, and what is accepted from one.
use crate::error::{invalid, Error, ErrorView};
use crate::text::{from_utf8, join, utf8_message};
use vstd::prelude::*;
use vstd::utf8::{decode_utf8, encode_utf8, valid_utf8};

verus! {

/// A packet of received audio.
#[derive(Debug, PartialEq, Eq)]
pub struct AudioPacket {
    pub payload: Vec<u8>,
    pub timestamp: u32,
    pub sequence: u16,
    pub ssrc: u32,
}

/// The state of a peer connection.
#[derive(Clone, Copy, Debug, PartialEq, Eq, Structural)]
pub enum ConnectionState {
    New,
    Connecting,
    Connected,
    Disconnected,
    Failed,
    Closed,
}

/// A state of a connection, and when it began on the caller's clock.
#[derive(Clone, Copy, Debug, PartialEq, Eq, Structural)]
pub struct Connection {
    pub state: ConnectionState,
    pub since: u128,
}

impl Connection {
    pub fn new(state: ConnectionState, now: u128) -> (r: Connection)
        ensures
            r == (Connection { state, since: now }),
    {
        Connection { state, since: now }
    }

    /// A state that is reported anew does not begin anew.
    pub open spec fn entered(self, state: ConnectionState, now: u128) -> Connection {
        if self.state == state {
            self
        } else {
            Connection { state, since: now }
        }
    }

    /// Takes a reported state; tells whether it is another than before.
    pub fn enter(&mut self, state: ConnectionState, now: u128) -> (r: bool)
        ensures
            *final(self) == old(self).entered(state, now),
            r == (old(self).state != state),
    {
        if self.state == state {
            return false;
        }
        *self = Connection::new(state, now);
        true
    }
}

/// A STUN or TURN server: the URLs that reach it and, for TURN, its credentials.
#[derive(Debug, Clone, PartialEq, Eq)]
pub struct IceServer {
    pub urls: Vec<String>,
    pub username: String,
    pub credential: String,
}

/// The one audio codec that a peer sends and receives.
#[derive(Debug, Clone, PartialEq, Eq)]
pub struct AudioCodec {
    pub mime_type: String,
    pub clock_rate: u32,
    pub channels: u16,
    pub fmtp: String,
    pub payload_type: u8,
}

pub open spec fn failure(message: Seq<char>) -> ErrorView {
    ErrorView::Protocol("WebRTC: "@ + message)
}

/// The text of a control frame, where it is one.
pub open spec fn control_text(is_text: bool, bytes: Seq<u8>, max_event_bytes: nat) -> Result<
    Seq<char>,
    ErrorView,
> {
    if !is_text || bytes.len() > max_event_bytes {
        Err(failure("invalid control frame"@))
    } else if valid_utf8(bytes) {
        Ok(decode_utf8(bytes))
    } else {
        Err(failure(utf8_message(bytes)))
    }
}

/// Reads a control frame.
pub fn read_control(is_text: bool, bytes: &[u8], max_event_bytes: usize) -> (r: Result<
    String,
    Error,
>)
    ensures
        crate::error::seen(r) == control_text(is_text, bytes@, max_event_bytes as nat),
{
    if !is_text || bytes.len() > max_event_bytes {
        return Err(Error::Protocol(join("WebRTC: ", "invalid control frame")));
    }
    match from_utf8(bytes) {
        Ok(text) => Ok(text.to_owned()),
        Err(message) => Err(Error::Protocol(join("WebRTC: ", message.as_str()))),
    }
}

/// Whether a control frame may be sent.
pub fn check_control(text: &str, max_event_bytes: usize) -> (r: Result<(), Error>)
    ensures
        r is Ok <==> encode_utf8(text@).len() <= max_event_bytes,
        r is Err ==> r->Err_0@ == ErrorView::Invalid(
            "outgoing WebRTC control frame exceeds configured limit"@,
        ),
{
    if text.as_bytes().len() > max_event_bytes {
        return Err(invalid("outgoing WebRTC control frame exceeds configured limit"));
    }
    Ok(())
}

/// Whether a received audio packet is taken: it must not be oversized, and its bytes must have
/// been reserved.
pub fn admit_audio(size: usize, max_audio_bytes: usize, reserved: Result<(), Error>) -> (r: Result<
    (),
    Error,
>)
    ensures
        size > max_audio_bytes ==> r is Err && r->Err_0@ == failure("oversized audio packet"@),
        size <= max_audio_bytes ==> crate::error::checked(r) == crate::error::checked(
            reserved,
        ),
{
    if size > max_audio_bytes {
        return Err(Error::Protocol(join("WebRTC: ", "oversized audio packet")));
    }
    reserved
}

} // verus!
