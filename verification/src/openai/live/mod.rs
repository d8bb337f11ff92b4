//! Live conversations over a WebRTC peer. Audio chunks hold one Opus packet each.
use crate::clock::SECOND;
use crate::error::{invalid, Error, ErrorView};
use crate::text::{blank, is_blank, same};
use vstd::prelude::*;

pub mod audio;
pub mod codec;
pub mod laws;
pub mod protocol;
pub mod signaling;

verus! {

/// What `url::Url::parse` makes of a text: the scheme, the user name, and whether there are a
/// password, a host and a fragment. Nothing where it refuses the text.
pub uninterp spec fn url_parts(text: Seq<char>) -> Option<(Seq<char>, Seq<char>, bool, bool, bool)>;

/// Calls `url::Url::parse` and reads the parts of the URL.
#[verifier::external_body]
fn parse_url(text: &str) -> (r: Option<(String, String, bool, bool, bool)>)
    ensures
        r.deep_view() == url_parts(text@),
{
    reqwest::Url::parse(text).ok().map(|url| {
        (
            url.scheme().to_owned(),
            url.username().to_owned(),
            url.password().is_some(),
            url.host_str().is_some(),
            url.fragment().is_some(),
        )
    })
}

/// Settings of Live conversations. Times are in nanoseconds.
#[derive(Debug, Clone, PartialEq, Eq)]
pub struct LiveConfig {
    pub model: String,
    pub voice: String,
    pub instructions: String,
    pub endpoint: String,
    pub connect_timeout: u128,
    pub command_timeout: u128,
    /// How long a connection may take to recover once it was disconnected. No new peer is made
    /// for it.
    pub reconnect_timeout: u128,
    pub max_event_bytes: usize,
    pub ice_servers: Vec<String>,
}

impl LiveConfig {
    pub fn new() -> (r: LiveConfig)
        ensures
            r.model@ == "gpt-live-1-codex"@,
            r.voice@ == "cove"@,
            r.instructions@ == Seq::<char>::empty(),
            r.endpoint@
                == "https://chatgpt.com/backend-api/codex/realtime/calls?intent=quicksilver&architecture=avas"@,
            r.connect_timeout == 30 * SECOND,
            r.command_timeout == 15 * SECOND,
            r.reconnect_timeout == 10 * SECOND,
            r.max_event_bytes == 1024 * 1024,
            r.ice_servers@.len() == 0,
    {
        LiveConfig {
            model: "gpt-live-1-codex".to_owned(),
            voice: "cove".to_owned(),
            instructions: String::new(),
            endpoint: "https://chatgpt.com/backend-api/codex/realtime/calls?intent=quicksilver&architecture=avas".to_owned(),
            connect_timeout: 30 * SECOND,
            command_timeout: 15 * SECOND,
            reconnect_timeout: 10 * SECOND,
            max_event_bytes: 1_048_576,
            ice_servers: Vec::new(),
        }
    }

    /// What is wrong with the settings, if anything. `longest` is the longest time that the
    /// clock can still count.
    pub open spec fn fault(&self, longest: u128) -> Option<ErrorView> {
        match url_parts(self.endpoint@) {
            None => Some(ErrorView::Invalid("invalid Live endpoint"@)),
            Some((scheme, username, password, host, fragment)) => if !(scheme == "http"@ || scheme
                == "https"@) || username.len() > 0 || password || !host || fragment
                || self.connect_timeout > longest || self.command_timeout > longest
                || self.reconnect_timeout > longest || blank(self.model@) || blank(self.voice@)
                || self.connect_timeout == 0 || self.command_timeout == 0
                || self.reconnect_timeout == 0 || self.max_event_bytes == 0 {
                Some(ErrorView::Invalid("invalid Live configuration"@))
            } else {
                None
            },
        }
    }

    pub fn validate(&self, longest: u128) -> (r: Result<(), Error>)
        ensures
            match self.fault(longest) {
                Some(e) => r is Err && r->Err_0@ == e,
                None => r is Ok,
            },
    {
        let (scheme, username, password, host, fragment) = match parse_url(self.endpoint.as_str()) {
            Some(parts) => parts,
            None => return Err(invalid("invalid Live endpoint")),
        };
        let web = same(scheme.as_str(), "http") || same(scheme.as_str(), "https");
        if !web || username.as_str().unicode_len() > 0 || password || !host || fragment
            || self.connect_timeout > longest || self.command_timeout > longest
            || self.reconnect_timeout > longest || is_blank(self.model.as_str())
            || is_blank(self.voice.as_str()) || self.connect_timeout == 0 || self.command_timeout
            == 0 || self.reconnect_timeout == 0 || self.max_event_bytes == 0 {
            return Err(invalid("invalid Live configuration"));
        }
        Ok(())
    }
}

} // verus!
