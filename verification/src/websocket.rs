//! WebSocket sessions: what the driver of one does next, apart from the wire protocol.
use crate::clock::SECOND;
use crate::command::{
    MediaChunk, MediaChunkView, SessionCommandBody, SessionEventBody, SessionEventBodyView,
};
use crate::error::{checked, invalid, uncertain, Error, ErrorView};
use crate::model::{ModelDelta, ModelDeltaView};
use crate::native::outputs::{Outputs, OutputsView};
use crate::text::same;
use crate::transport::websocket::{WireMessage, WireMessageView};
use vstd::prelude::*;

verus! {

// ---------------------------------------------------------------------------------------
// Actions
// ---------------------------------------------------------------------------------------
/// What a protocol asks of its driver.
#[derive(Debug, PartialEq, Eq)]
pub enum Action {
    Send(WireMessage),
    Event(SessionEventBody),
    Observe(ModelDelta),
    Media(MediaChunk),
    Fail(Error),
    Close,
}

pub enum ActionView {
    Send(WireMessageView),
    Event(SessionEventBodyView),
    Observe(ModelDeltaView),
    Media(MediaChunkView),
    Fail(ErrorView),
    Close,
}

impl View for Action {
    type V = ActionView;

    open spec fn view(&self) -> ActionView {
        match self {
            Action::Send(message) => ActionView::Send(message@),
            Action::Event(body) => ActionView::Event(body@),
            Action::Observe(delta) => ActionView::Observe(delta@),
            Action::Media(chunk) => ActionView::Media(chunk@),
            Action::Fail(error) => ActionView::Fail(error@),
            Action::Close => ActionView::Close,
        }
    }
}

impl DeepView for Action {
    type V = ActionView;

    open spec fn deep_view(&self) -> ActionView {
        self@
    }
}

// ---------------------------------------------------------------------------------------
// Settings
// ---------------------------------------------------------------------------------------
/// The scheme of the request that `tungstenite` makes of a URL: nothing where it refuses the
/// URL, `Some(None)` where the URL has no scheme.
pub uninterp spec fn client_scheme(url: Seq<char>) -> Option<Option<Seq<char>>>;

/// Calls `tungstenite::client::IntoClientRequest::into_client_request` and reads the scheme of
/// the request's URI.
#[verifier::external_body]
fn request_scheme(url: &str) -> (r: Option<Option<String>>)
    ensures
        client_scheme(url@) == (match r {
            Some(scheme) => Some(scheme.deep_view()),
            None => None,
        }),
{
    tokio_tungstenite::tungstenite::client::IntoClientRequest::into_client_request(url)
        .ok()
        .map(|request| request.uri().scheme_str().map(str::to_owned))
}

/// Connection settings. Times are in nanoseconds.
#[derive(Debug, Clone, PartialEq, Eq)]
pub struct WebSocketConfig {
    pub url: String,
    /// Covers credential resolution and the one refresh after a refused handshake.
    pub connect_timeout: u128,
    pub write_timeout: u128,
    /// The longest wait for the start, a flush, a cancellation or the end of a protocol.
    pub command_timeout: u128,
    /// How often an idle connection is pinged.
    pub heartbeat_interval: u128,
    pub max_message_bytes: usize,
}

impl WebSocketConfig {
    pub fn new(url: String) -> (r: WebSocketConfig)
        ensures
            r.url@ == url@,
            r.connect_timeout == 15 * SECOND,
            r.write_timeout == 15 * SECOND,
            r.command_timeout == 30 * SECOND,
            r.heartbeat_interval == 30 * SECOND,
            r.max_message_bytes == 4 * 1024 * 1024,
    {
        WebSocketConfig {
            url,
            connect_timeout: 15 * SECOND,
            write_timeout: 15 * SECOND,
            command_timeout: 30 * SECOND,
            heartbeat_interval: 30 * SECOND,
            max_message_bytes: 4_194_304,
        }
    }

    /// What is wrong with the settings, if anything. `longest` is the longest time that the
    /// clock can still count.
    pub open spec fn fault(&self, longest: u128) -> Option<ErrorView> {
        match client_scheme(self.url@) {
            None => Some(ErrorView::Invalid("invalid WebSocket URL"@)),
            Some(scheme) => if !(scheme == Some("ws"@) || scheme == Some("wss"@))
                || self.connect_timeout == 0 || self.connect_timeout > longest
                || self.write_timeout == 0 || self.write_timeout > longest
                || self.command_timeout == 0 || self.command_timeout > longest
                || self.heartbeat_interval == 0 || self.heartbeat_interval > longest
                || self.max_message_bytes == 0 {
                Some(ErrorView::Invalid("invalid WebSocket connection settings"@))
            } else {
                None
            },
        }
    }

    pub fn validate(&self, longest: u128) -> (r: Result<(), Error>)
        ensures
            match self.fault(longest) {
                Some(e) => r is Err && r->Err_0@ == e,
                None => r is Ok,
            },
    {
        let scheme = match request_scheme(self.url.as_str()) {
            Some(scheme) => scheme,
            None => return Err(invalid("invalid WebSocket URL")),
        };
        let known = match &scheme {
            Some(scheme) => same(scheme.as_str(), "ws") || same(scheme.as_str(), "wss"),
            None => false,
        };
        if !known || self.connect_timeout == 0 || self.connect_timeout > longest
            || self.write_timeout == 0 || self.write_timeout > longest || self.command_timeout == 0
            || self.command_timeout > longest || self.heartbeat_interval == 0
            || self.heartbeat_interval > longest || self.max_message_bytes == 0 {
            return Err(invalid("invalid WebSocket connection settings"));
        }
        Ok(())
    }
}

// ---------------------------------------------------------------------------------------
// The driver
// ---------------------------------------------------------------------------------------
/// What a protocol tells its driver of itself.
#[derive(Clone, Copy)]
pub struct ProtocolStatus {
    pub commands_allowed: bool,
    pub finished: bool,
}

/// What the driver may wait for.
#[derive(Debug, Clone, Copy, PartialEq, Eq, Structural)]
pub struct Ready {
    /// The session ends here.
    pub done: bool,
    pub flush: bool,
    pub command: bool,
    pub message: bool,
    pub heartbeat: bool,
}

/// What the driver does on the wire for an action.
#[derive(Debug, PartialEq, Eq)]
pub enum Wire {
    Nothing,
    Send(WireMessage),
    Close,
}

pub enum WireView {
    Nothing,
    Send(WireMessageView),
    Close,
}

impl View for Wire {
    type V = WireView;

    open spec fn view(&self) -> WireView {
        match self {
            Wire::Nothing => WireView::Nothing,
            Wire::Send(message) => WireView::Send(message@),
            Wire::Close => WireView::Close,
        }
    }
}

pub struct DriverView {
    pub outputs: OutputsView,
    pub socket_closed: bool,
    pub closing: bool,
}

impl DriverView {
    pub open spec fn ready(self, protocol: ProtocolStatus) -> Ready {
        Ready {
            done: self.closing && !self.outputs.busy(),
            flush: self.outputs.busy(),
            command: !self.closing && protocol.commands_allowed,
            message: !self.socket_closed && !self.closing && !self.outputs.busy(),
            heartbeat: !self.socket_closed && !protocol.finished,
        }
    }

    /// The remote side closed the connection: the end of a finished protocol, a loss before.
    pub open spec fn hung_up(self, finished: bool) -> Result<DriverView, ErrorView> {
        if finished {
            Ok(DriverView { socket_closed: true, ..self })
        } else {
            Err(ErrorView::Uncertain("WebSocket ended before protocol completion"@))
        }
    }

    /// An action is carried out: queued, or left to the wire.
    pub open spec fn applied(
        self,
        action: ActionView,
        generation: Option<Seq<char>>,
        valid: Result<(), ErrorView>,
    ) -> Result<(DriverView, WireView), ErrorView> {
        match action {
            ActionView::Send(message) => Ok((self, WireView::Send(message))),
            ActionView::Observe(delta) => match self.outputs.with_event(
                SessionEventBodyView::Delta { turn_id: generation, delta },
            ) {
                Ok(outputs) => Ok((DriverView { outputs, ..self }, WireView::Nothing)),
                Err(e) => Err(e),
            },
            ActionView::Event(body) => match self.outputs.with_event(body) {
                Ok(outputs) => Ok((DriverView { outputs, ..self }, WireView::Nothing)),
                Err(e) => Err(e),
            },
            ActionView::Media(chunk) => match valid {
                Err(e) => Err(e),
                Ok(_) => match self.outputs.with_media(chunk, false) {
                    Ok(outputs) => Ok((DriverView { outputs, ..self }, WireView::Nothing)),
                    Err(e) => Err(e),
                },
            },
            ActionView::Fail(e) => Err(e),
            ActionView::Close => Ok(
                (
                    DriverView { closing: true, ..self },
                    if self.socket_closed {
                        WireView::Nothing
                    } else {
                        WireView::Close
                    },
                ),
            ),
        }
    }

    /// The actions of one step were carried out.
    pub open spec fn settled(self, finished: bool) -> DriverView {
        if finished {
            DriverView { outputs: OutputsView { ending: true, ..self.outputs }, ..self }
        } else {
            self
        }
    }
}

/// The epoch that a command begins, where it interrupts the output.
pub open spec fn interrupting_epoch(body: SessionCommandBody) -> Option<u64> {
    match body {
        SessionCommandBody::InterruptOutput { output_epoch, .. } => Some(output_epoch),
        _ => None,
    }
}

pub fn begun_epoch(body: &SessionCommandBody) -> (r: Option<u64>)
    ensures
        r == interrupting_epoch(*body),
{
    match body {
        SessionCommandBody::InterruptOutput { output_epoch, .. } => Some(*output_epoch),
        _ => None,
    }
}

/// The state of a session's driver.
pub struct Driver {
    pub outputs: Outputs,
    socket_closed: bool,
    closing: bool,
}

impl View for Driver {
    type V = DriverView;

    closed spec fn view(&self) -> DriverView {
        DriverView {
            outputs: self.outputs@,
            socket_closed: self.socket_closed,
            closing: self.closing,
        }
    }
}

impl Driver {
    pub closed spec fn wf(&self) -> bool {
        self.outputs.wf()
    }

    pub fn new(outputs: Outputs) -> (r: Driver)
        requires
            outputs.wf(),
        ensures
            r.wf(),
            r@ == (DriverView { outputs: outputs@, socket_closed: false, closing: false }),
    {
        Driver { outputs, socket_closed: false, closing: false }
    }

    /// What to wait for next.
    pub fn ready(&self, protocol: ProtocolStatus) -> (r: Ready)
        ensures
            r == self@.ready(protocol),
    {
        let pending = self.outputs.pending();
        Ready {
            done: self.closing && !pending,
            flush: pending,
            command: !self.closing && protocol.commands_allowed,
            message: !self.socket_closed && !self.closing && self.outputs.can_receive(),
            heartbeat: !self.socket_closed && !protocol.finished,
        }
    }

    /// After a command was taken: an interruption drops the media before its epoch.
    pub fn command_taken(&mut self, epoch: Option<u64>)
        requires
            old(self).wf(),
        ensures
            final(self).wf(),
            final(self)@ == (match epoch {
                Some(epoch) => DriverView {
                    outputs: old(self)@.outputs.from_epoch(epoch),
                    ..old(self)@
                },
                None => old(self)@,
            }),
    {
        if let Some(epoch) = epoch {
            self.outputs.invalidate_before(epoch);
        }
    }

    /// The remote side closed the connection.
    pub fn hang_up(&mut self, finished: bool) -> (r: Result<(), Error>)
        requires
            old(self).wf(),
        ensures
            final(self).wf(),
            match old(self)@.hung_up(finished) {
                Ok(next) => r is Ok && final(self)@ == next,
                Err(e) => r is Err && r->Err_0@ == e && final(self)@ == old(self)@,
            },
    {
        if !finished {
            return Err(uncertain("WebSocket ended before protocol completion"));
        }
        self.socket_closed = true;
        Ok(())
    }

    /// Carries out an action; `valid` is what the validation of a chunk said.
    pub fn apply(
        &mut self,
        action: Action,
        generation: Option<String>,
        valid: Result<(), Error>,
    ) -> (r: Result<Wire, Error>)
        requires
            old(self).wf(),
        ensures
            final(self).wf(),
            match old(self)@.applied(action@, generation.deep_view(), checked(valid)) {
                Ok(next) => r is Ok && (r->Ok_0)@ == next.1 && final(self)@ == next.0,
                Err(e) => r is Err && r->Err_0@ == e && final(self)@ == old(self)@,
            },
    {
        match action {
            Action::Send(message) => Ok(Wire::Send(message)),
            Action::Observe(delta) => {
                self.outputs.event(SessionEventBody::Delta { turn_id: generation, delta })?;
                Ok(Wire::Nothing)
            },
            Action::Event(body) => {
                self.outputs.event(body)?;
                Ok(Wire::Nothing)
            },
            Action::Media(chunk) => {
                self.outputs.queue_media(chunk, false, valid)?;
                Ok(Wire::Nothing)
            },
            Action::Fail(error) => Err(error),
            Action::Close => {
                self.closing = true;
                if self.socket_closed {
                    Ok(Wire::Nothing)
                } else {
                    Ok(Wire::Close)
                }
            },
        }
    }

    /// After the actions of a step: no media follows a finished protocol.
    pub fn settle(&mut self, finished: bool)
        requires
            old(self).wf(),
        ensures
            final(self).wf(),
            final(self)@ == old(self)@.settled(finished),
    {
        if finished {
            self.outputs.end_media();
        }
    }
}

/// A session that is asked to close takes no further command or message, and ends once all
/// its output was handed out.
pub proof fn closing_drains_and_ends(
    driver: DriverView,
    generation: Option<Seq<char>>,
    protocol: ProtocolStatus,
)
    ensures
        driver.applied(ActionView::Close, generation, Ok(())) matches Ok((next, _)) ==> ({
            let ready = next.ready(protocol);
            !ready.command && !ready.message && ready.flush == next.outputs.busy() && ready.done
                == !next.outputs.busy()
        }),
{
}

/// Every action reaches its place: what is to be sent goes to the wire, what is observed and
/// what is told stands behind all events, media behind all media, unless it belongs to a past
/// epoch; and a failure is one.
pub proof fn actions_reach_their_place(
    driver: DriverView,
    action: ActionView,
    generation: Option<Seq<char>>,
    valid: Result<(), ErrorView>,
)
    ensures
        match driver.applied(action, generation, valid) {
            Ok((next, wire)) => match action {
                ActionView::Send(message) => next == driver && wire == WireView::Send(message),
                ActionView::Observe(delta) => {
                    &&& wire is Nothing
                    &&& next.outputs.events.len() == driver.outputs.events.len() + 1
                    &&& next.outputs.events.drop_last() == driver.outputs.events
                    &&& next.outputs.events.last().body == (SessionEventBodyView::Delta {
                        turn_id: generation,
                        delta,
                    })
                    &&& next.outputs.media == driver.outputs.media
                },
                ActionView::Event(body) => {
                    &&& wire is Nothing
                    &&& next.outputs.events.len() == driver.outputs.events.len() + 1
                    &&& next.outputs.events.drop_last() == driver.outputs.events
                    &&& next.outputs.events.last().body == body
                    &&& next.outputs.media == driver.outputs.media
                },
                ActionView::Media(chunk) => {
                    &&& wire is Nothing
                    &&& valid is Ok
                    &&& next.outputs.events == driver.outputs.events
                    &&& if chunk.epoch < driver.outputs.min_epoch {
                        next.outputs.media == driver.outputs.media
                    } else {
                        &&& next.outputs.media.len() == driver.outputs.media.len() + 1
                        &&& next.outputs.media.drop_last() == driver.outputs.media
                        &&& next.outputs.media.last().chunk == chunk
                    }
                },
                ActionView::Fail(_) => false,
                ActionView::Close => next.closing && next.outputs == driver.outputs && (wire is Close
                    <==> !driver.socket_closed),
            },
            Err(error) => match action {
                ActionView::Send(_) => false,
                ActionView::Close => false,
                ActionView::Fail(e) => error == e,
                ActionView::Media(_) => valid is Err ==> error == valid->Err_0,
                _ => true,
            },
        },
{
    if let Ok((next, _)) = driver.applied(action, generation, valid) {
        if next.outputs.events.len() > driver.outputs.events.len() {
            assert(next.outputs.events.drop_last() =~= driver.outputs.events);
        }
        if next.outputs.media.len() > driver.outputs.media.len() {
            assert(next.outputs.media.drop_last() =~= driver.outputs.media);
        }
    }
}

/// A connection that closes ends a finished protocol, and is a loss before.
pub proof fn hanging_up_early_is_a_loss(driver: DriverView)
    ensures
        driver.hung_up(false) matches Err(ErrorView::Uncertain(_)),
        driver.hung_up(true) matches Ok(next) && next.socket_closed && next.outputs
            == driver.outputs,
{
}

} // verus!
