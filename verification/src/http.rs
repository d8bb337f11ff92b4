//! Models behind an HTTP endpoint: what is sent, and what an answer decides.
use crate::capabilities::{
    holds_text, push_constraint, validate_capabilities, with_pushed, CapabilitySet,
    CapabilitySetView,
};
use crate::clock::SECOND;
use crate::codec::adapter::{endpoint, endpoint_path};
use crate::codec::conversation::conversed;
use crate::codec::decode::turn;
use crate::codec::encode::{choice_is_settable, encoded_request, Answers};
use crate::codec::exchange::{
    asked_in_order, decode_with, encode_with, item_log, items_asked,
    native_list, transcript, unanswered,
};
use crate::credentials::{Credential, CredentialView};
use crate::error::{invalid, seen, Error, ErrorView, Failure, FailureView};
use crate::extension::{ask_change, ask_response, changed, AnswerView, Asked, ProtocolExtension};
use crate::headers::{authorization, marked_header, metadata_header, refreshes, HeaderView};
use crate::json::{Json, JsonView};
use crate::message::{Message, MessageView, OutputView, RuntimeToolOutcome};
use crate::model::{ModelRequest, Protocol, TurnOutput};
use crate::profiles::{
    check_fields, controlled, controlled_fields_stand, fields, find_mapping, holds_fields,
    mapping_of, negotiate, ControlledView, ProfileMapping, ProfileMappingView, Selected,
};
use crate::text::{chars, decimal, join, join3, number};
use vstd::prelude::*;

verus! {

// ---------------------------------------------------------------------------------------
// The model
// ---------------------------------------------------------------------------------------
/// Where a model is found. The timeout is in nanoseconds.
#[derive(Debug, Clone, PartialEq, Eq)]
pub struct ModelConfig {
    pub base_url: String,
    pub model: String,
    pub timeout: u128,
}

impl ModelConfig {
    pub fn new(base_url: String, model: String) -> (r: ModelConfig)
        ensures
            r.base_url@ == base_url@,
            r.model@ == model@,
            r.timeout == 120 * SECOND,
    {
        ModelConfig { base_url, model, timeout: 120 * SECOND }
    }
}

/// A model behind an HTTP endpoint.
#[derive(Clone)]
pub struct HttpModel {
    config: ModelConfig,
    protocol: Protocol,
    capabilities: CapabilitySet,
    mappings: Vec<ProfileMapping>,
}

pub struct HttpModelView {
    pub base_url: Seq<char>,
    pub model: Seq<char>,
    pub timeout: u128,
    pub protocol: Protocol,
    pub capabilities: CapabilitySetView,
    pub mappings: Seq<ProfileMappingView>,
}

impl View for HttpModel {
    type V = HttpModelView;

    closed spec fn view(&self) -> HttpModelView {
        HttpModelView {
            base_url: self.config.base_url@,
            model: self.config.model@,
            timeout: self.config.timeout,
            protocol: self.protocol,
            capabilities: self.capabilities@,
            mappings: self.mappings.deep_view(),
        }
    }
}

impl DeepView for HttpModel {
    type V = HttpModelView;

    open spec fn deep_view(&self) -> HttpModelView {
        self@
    }
}

impl HttpModelView {
    /// The model with one mapping more: its value is listed among those that are supported.
    pub open spec fn mapped(self, mapping: ProfileMappingView) -> Result<HttpModelView, ErrorView> {
        if mapping_of(self.mappings, mapping.key, mapping.value) is Some {
            Err(ErrorView::Invalid("duplicate profile mapping"@))
        } else {
            Ok(
                HttpModelView {
                    capabilities: CapabilitySetView {
                        constraints: with_pushed(
                            self.capabilities.constraints,
                            mapping.key,
                            mapping.value,
                        ),
                        ..self.capabilities
                    },
                    mappings: self.mappings.push(mapping),
                    ..self
                },
            )
        }
    }
}

impl HttpModel {
    /// A model at an endpoint; `capabilities` are those of its protocol.
    pub fn new(config: ModelConfig, protocol: Protocol, capabilities: CapabilitySet) -> (r: Result<
        HttpModel,
        Error,
    >)
        ensures
            seen(r) == (if config.model@.len() == 0 || config.base_url@.len() == 0 {
                Err(ErrorView::Invalid("model and base URL are required"@))
            } else {
                Ok(
                    HttpModelView {
                        base_url: config.base_url@,
                        model: config.model@,
                        timeout: config.timeout,
                        protocol,
                        capabilities: capabilities@,
                        mappings: Seq::empty(),
                    },
                )
            }),
    {
        if config.model.as_str().unicode_len() == 0 || config.base_url.as_str().unicode_len()
            == 0 {
            return Err(invalid("model and base URL are required"));
        }
        let mappings: Vec<ProfileMapping> = Vec::new();
        assert(mappings.deep_view() =~= Seq::empty());
        Ok(HttpModel { config, protocol, capabilities, mappings })
    }

    /// Adds a mapping, of which there is one at most for each value of a key.
    pub fn with_profile_mapping(self, mapping: ProfileMapping) -> (r: Result<HttpModel, Error>)
        ensures
            seen(r) == self@.mapped(mapping@),
    {
        if find_mapping(&self.mappings, mapping.key.as_str(), &mapping.value).is_some() {
            return Err(invalid("duplicate profile mapping"));
        }
        let mut model = self;
        push_constraint(
            &mut model.capabilities.constraints,
            mapping.key.as_str(),
            mapping.value.clone(),
        );
        let ghost before = model.mappings.deep_view();
        let ghost added = mapping@;
        model.mappings.push(mapping);
        assert(model.mappings.deep_view() =~= before.push(added));
        Ok(model)
    }

    pub fn with_capabilities(self, capabilities: CapabilitySet) -> (r: HttpModel)
        ensures
            r@ == (HttpModelView { capabilities: capabilities@, ..self@ }),
    {
        let mut model = self;
        model.capabilities = capabilities;
        model
    }

    pub fn capabilities(&self) -> (r: &CapabilitySet)
        ensures
            r@ == self@.capabilities,
    {
        &self.capabilities
    }

    pub fn protocol(&self) -> (r: Protocol)
        ensures
            r == self@.protocol,
    {
        self.protocol
    }

    pub fn timeout(&self) -> (r: u128)
        ensures
            r == self@.timeout,
    {
        self.config.timeout
    }

    /// Checks what general negotiation selected: the model keeps to single exchanges, and its
    /// endpoint carries every selected value.
    pub fn negotiate(&self, selected: &Vec<Selected>) -> (r: Result<(), Error>)
        ensures
            crate::error::checked(r) == (if !self@.capabilities.features.disjoint(
                crate::capabilities::beyond_exchanges(),
            ) {
                Err(
                    ErrorView::Invalid(
                        "exchange session advertises unsupported session capabilities"@,
                    ),
                )
            } else {
                crate::profiles::first_unmapped(
                    selected.deep_view(),
                    self@.mappings,
                    carries_fidelity(self@.protocol),
                )
            }),
    {
        validate_capabilities(&self.capabilities)?;
        negotiate(selected, &self.mappings, supports_fidelity(self.protocol))
    }

    /// The URL that requests are posted to.
    pub fn url(&self) -> (r: String)
        ensures
            r@ == without_trailing(self@.base_url, '/') + "/"@ + endpoint_path(self@.protocol),
    {
        let base = trim_trailing(self.config.base_url.as_str(), '/');
        join3(base.as_str(), "/", endpoint(self.protocol))
    }

    /// Whether the model can be told of tool failures, which are text.
    pub fn check_failures(&self, messages: &Vec<Message>) -> (r: Result<(), Error>)
        ensures
            r is Err <==> !self@.capabilities.input_modalities.contains("text"@)
                && reports_failures(messages.deep_view()),
            r is Err ==> r->Err_0@ == ErrorView::Invalid(
                "model cannot receive textual tool failures"@,
            ),
    {
        if !holds_text(&self.capabilities.input_modalities, "text") && has_failures(messages) {
            return Err(invalid("model cannot receive textual tool failures"));
        }
        Ok(())
    }

    /// Prepares the body of a request, once its fidelities were applied: it is encoded, what
    /// was negotiated is set in it, and the extension may change all but that. The result is
    /// none where the extension selected a tool with a value that takes no setting.
    pub fn prepare(
        &self,
        extension: &mut Option<Box<dyn ProtocolExtension>>,
        request: &ModelRequest,
        selected: &Vec<Selected>,
    ) -> (r: Option<Result<Json, Error>>)
        ensures
            !self@.capabilities.input_modalities.contains("text"@) && reports_failures(
                request.messages.deep_view(),
            ) ==> (r matches Some(Err(e)) && e@ == ErrorView::Invalid(
                "model cannot receive textual tool failures"@,
            )),
            *old(extension) is None && (self@.capabilities.input_modalities.contains("text"@)
                || !reports_failures(request.messages.deep_view())) ==> exists|answers: Answers|
                #[trigger] unanswered(answers) && r is Some && self@.prepared(
                    true,
                    *request,
                    selected.deep_view(),
                    answers,
                    seen(r->0),
                ),
            *final(extension) is Some <==> *old(extension) is Some,
            *old(extension) is Some && (self@.capabilities.input_modalities.contains("text"@)
                || !reports_failures(request.messages.deep_view())) ==> exists|
                answers: Answers,
                xs: Seq<&mut dyn ProtocolExtension>,
                states: Seq<&dyn ProtocolExtension>,
            |
                {
                    &&& #[trigger] conversed(
                        xs,
                        states,
                        self@.protocol,
                        transcript(self@.protocol, *request, answers),
                    )
                    &&& asked_in_order(self@.protocol, *request, answers)
                    &&& states[0] == &*(old(extension)->0)
                    &&& forall|i: int|
                        0 <= i < xs.len() ==> &*final(#[trigger] xs[i]) == states[i + 1]
                    &&& match (r, self@.encoded(*request, selected.deep_view(), answers)) {
                        (None, _) => {
                            &&& !choice_is_settable(self@.protocol, *request, answers)
                            &&& states.last() == &*(final(extension)->0)
                        },
                        (Some(result), Err(e)) => {
                            &&& seen(result) == Err::<JsonView, ErrorView>(e)
                            &&& states.last() == &*(final(extension)->0)
                        },
                        (Some(result), Ok(state)) => exists|
                            x: &mut dyn ProtocolExtension,
                            b: &mut Json,
                            outcome: Result<(), ErrorView>,
                        |
                            {
                                &&& #[trigger] changed(x, self@.protocol, *request, b, outcome)
                                &&& b@ == state.body
                                &&& &*x == states.last()
                                &&& &*final(x) == &*(final(extension)->0)
                                &&& seen(result) == released(outcome, final(b)@, state.fields)
                            },
                    }
                },
    {
        if let Err(e) = self.check_failures(&request.messages) {
            return Some(Err(e));
        }
        let plain = extension.is_none();
        let encoded = encode_with(extension, self.protocol, self.config.model.as_str(), request);
        match encoded {
            None => None,
            Some(Err(e)) => Some(Err(e)),
            Some(Ok(body)) => Some(self.set_negotiated(extension, plain, request, selected, body)),
        }
    }

    fn set_negotiated(
        &self,
        extension: &mut Option<Box<dyn ProtocolExtension>>,
        plain: bool,
        request: &ModelRequest,
        selected: &Vec<Selected>,
        body: Json,
    ) -> (r: Result<Json, Error>)
        requires
            body@ is Object,
            plain == (*old(extension) is None),
        ensures
            self@.settled(
                plain,
                Ok::<JsonView, ErrorView>(body@),
                selected.deep_view(),
                seen(r),
            ),
            *final(extension) is Some <==> *old(extension) is Some,
            *old(extension) is Some ==> match controlled(
                body@,
                selected.deep_view(),
                self@.mappings,
            ) {
                Err(e) => seen(r) == Err::<JsonView, ErrorView>(e) && &*(final(extension)->0) == &*(
                old(extension)->0),
                Ok(state) => exists|
                    x: &mut dyn ProtocolExtension,
                    b: &mut Json,
                    outcome: Result<(), ErrorView>,
                |
                    {
                        &&& #[trigger] changed(x, self@.protocol, *request, b, outcome)
                        &&& b@ == state.body
                        &&& &*x == &*(old(extension)->0)
                        &&& &*final(x) == &*(final(extension)->0)
                        &&& seen(r) == released(outcome, final(b)@, state.fields)
                    },
            },
    {
        let ghost start = body@;
        let (mut body, set) = fields(body, selected, &self.mappings)?;
        proof {
            controlled_fields_stand(start, selected.deep_view(), self@.mappings);
        }
        if let Some(hooks) = extension {
            ask_change(&mut **hooks, self.protocol, request, &mut body)?;
        }
        check_fields(&body, &set)?;
        Ok(body)
    }
}

impl HttpModelView {
    /// Whether a result is what preparing a request comes to, given the extension's answers:
    /// the encoded body with what was negotiated set in it. Without an extension it is just
    /// that; an extension may have refused it, or changed all but the negotiated fields.
    pub open spec fn prepared(
        self,
        plain: bool,
        request: ModelRequest,
        selected: Seq<crate::profiles::SelectedView>,
        answers: Answers,
        result: Result<JsonView, ErrorView>,
    ) -> bool {
        self.settled(
            plain,
            encoded_request(self.protocol, self.model, request, answers),
            selected,
            result,
        )
    }

    /// The encoded body with what was negotiated set in it, before an extension is handed it.
    pub open spec fn encoded(
        self,
        request: ModelRequest,
        selected: Seq<crate::profiles::SelectedView>,
        answers: Answers,
    ) -> Result<ControlledView, ErrorView> {
        match encoded_request(self.protocol, self.model, request, answers) {
            Err(e) => Err(e),
            Ok(body) => controlled(body, selected, self.mappings),
        }
    }

    /// What setting the negotiated fields in an encoded body comes to.
    pub open spec fn settled(
        self,
        plain: bool,
        encoded: Result<JsonView, ErrorView>,
        selected: Seq<crate::profiles::SelectedView>,
        result: Result<JsonView, ErrorView>,
    ) -> bool {
        match encoded {
            Err(e) => result == Err::<JsonView, ErrorView>(e),
            Ok(body) => match controlled(body, selected, self.mappings) {
                Err(e) => result == Err::<JsonView, ErrorView>(e),
                Ok(state) => {
                    &&& plain ==> result == Ok::<JsonView, ErrorView>(state.body)
                    &&& result matches Ok(sent) ==> holds_fields(sent, state.fields)
                },
            },
        }
    }
}

/// What is sent once an extension was handed the body: nothing where it failed or changed a
/// negotiated field.
pub open spec fn released(
    outcome: Result<(), ErrorView>,
    body: JsonView,
    fields: Seq<(Seq<char>, JsonView)>,
) -> Result<JsonView, ErrorView> {
    match outcome {
        Err(e) => Err(e),
        Ok(_) => if holds_fields(body, fields) {
            Ok(body)
        } else {
            Err(ErrorView::Invalid("extension changed negotiated profile"@))
        },
    }
}

/// Whether a protocol carries the fidelity of an image with it.
pub open spec fn carries_fidelity(protocol: Protocol) -> bool {
    protocol != Protocol::Messages
}

pub fn supports_fidelity(protocol: Protocol) -> (r: bool)
    ensures
        r == carries_fidelity(protocol),
{
    protocol != Protocol::Messages
}

/// A text without the characters of one kind at its end.
pub open spec fn without_trailing(s: Seq<char>, c: char) -> Seq<char>
    decreases s.len(),
{
    if s.len() > 0 && s.last() == c {
        without_trailing(s.drop_last(), c)
    } else {
        s
    }
}

fn trim_trailing(s: &str, c: char) -> (r: String)
    ensures
        r@ == without_trailing(s@, c),
{
    let cs = chars(s);
    let mut n: usize = cs.len();
    assert(s@.take(n as int) =~= s@);
    while n > 0 && cs[n - 1] == c
        invariant
            n <= cs@.len(),
            cs@ == s@,
            without_trailing(s@, c) == without_trailing(s@.take(n as int), c),
        decreases n,
    {
        proof {
            assert(s@.take(n as int).last() == s@[n - 1]);
            assert(s@.take(n as int).drop_last() =~= s@.take(n - 1));
        }
        n -= 1;
    }
    proof {
        if n > 0 {
            assert(s@.take(n as int).last() == s@[n - 1]);
        }
    }
    let kept = s.substring_char(0, n);
    assert(kept@ =~= s@.take(n as int));
    kept.to_owned()
}

pub open spec fn is_failure(message: MessageView) -> bool {
    message matches MessageView::RuntimeTool { outcome, .. } && outcome is Failure
}

/// Whether any message tells of a tool that failed.
pub open spec fn reports_failures(messages: Seq<MessageView>) -> bool {
    exists|i: int| 0 <= i < messages.len() && is_failure(#[trigger] messages[i])
}

fn has_failures(messages: &Vec<Message>) -> (r: bool)
    ensures
        r == reports_failures(messages.deep_view()),
{
    let ghost all = messages.deep_view();
    let mut i: usize = 0;
    while i < messages.len()
        invariant
            i <= messages.len(),
            all == messages.deep_view(),
            forall|j: int| 0 <= j < i ==> !is_failure(#[trigger] all[j]),
        decreases messages.len() - i,
    {
        assert(all[i as int] == messages@[i as int]@);
        if let Message::RuntimeTool { outcome: RuntimeToolOutcome::Failure { .. }, .. } =
            &messages[i] {
            assert(is_failure(all[i as int]));
            return true;
        }
        i += 1;
    }
    false
}

// ---------------------------------------------------------------------------------------
// Requests and answers
// ---------------------------------------------------------------------------------------
/// The headers that carry a credential: what the protocol asks for, and those of its metadata.
pub open spec fn credential_headers(protocol: Protocol, credential: CredentialView) -> Seq<
    HeaderView,
> {
    let own = match protocol {
        Protocol::Messages => seq![
            ("x-api-key"@, credential.value),
            ("anthropic-version"@, "2023-06-01"@),
        ],
        _ => seq![("authorization"@, authorization(credential))],
    };
    own + metadata_pairs(credential.metadata)
}

/// The headers that credential metadata holds.
pub open spec fn metadata_pairs(metadata: Seq<(Seq<char>, Seq<char>)>) -> Seq<HeaderView>
    decreases metadata.len(),
{
    if metadata.len() == 0 {
        Seq::empty()
    } else {
        let before = metadata_pairs(metadata.drop_last());
        match marked_header(metadata.last().0) {
            Some(name) => before.push((name, metadata.last().1)),
            None => before,
        }
    }
}

pub fn request_headers(protocol: Protocol, credential: &Credential) -> (r: Vec<(String, String)>)
    ensures
        r.deep_view() == credential_headers(protocol, credential@),
{
    let mut headers: Vec<(String, String)> = Vec::new();
    match protocol {
        Protocol::Messages => {
            headers.push(("x-api-key".to_owned(), credential.value.clone()));
            headers.push(("anthropic-version".to_owned(), "2023-06-01".to_owned()));
            assert(headers.deep_view() =~= seq![
                ("x-api-key"@, credential.value@),
                ("anthropic-version"@, "2023-06-01"@),
            ]);
        },
        _ => {
            let value = join3(credential.scheme.as_str(), " ", credential.value.as_str());
            headers.push(("authorization".to_owned(), value));
            assert(headers.deep_view() =~= seq![("authorization"@, authorization(credential@))]);
        },
    }
    let ghost own = headers.deep_view();
    let ghost all = credential.metadata.deep_view();
    let mut i: usize = 0;
    assert(all.take(0) =~= Seq::empty());
    assert(own + metadata_pairs(all.take(0)) =~= own);
    while i < credential.metadata.len()
        invariant
            i <= credential.metadata.len(),
            all == credential.metadata.deep_view(),
            headers.deep_view() == own + metadata_pairs(all.take(i as int)),
        decreases credential.metadata.len() - i,
    {
        let (key, value) = (&credential.metadata[i].0, &credential.metadata[i].1);
        proof {
            assert(all[i as int] == (key@, value@));
            assert(all.take(i + 1).drop_last() =~= all.take(i as int));
            assert(all.take(i + 1).last() == all[i as int]);
        }
        if let Some(name) = metadata_header(key.as_str()) {
            let ghost before = metadata_pairs(all.take(i as int));
            let ghost listed = headers.deep_view();
            headers.push((name.to_owned(), value.clone()));
            assert(headers.deep_view() =~= listed.push((name@, value@)));
            assert(own + before.push((name@, value@)) =~= (own + before).push((name@, value@)));
        }
        i += 1;
    }
    assert(all.take(all.len() as int) =~= all);
    headers
}

pub open spec fn is_success(status: u16) -> bool {
    200 <= status < 300
}

/// The failure that an answer with a status reports. A rate limit and a failure of the server
/// are worth a retry.
pub open spec fn status_failure(status: u16, text: Seq<char>) -> FailureView {
    FailureView {
        code: "http_"@ + decimal(status as nat),
        message: text,
        retryable: status == 429 || 500 <= status < 600,
    }
}

pub fn http_error(status: u16, text: String) -> (r: Error)
    ensures
        r@ == ErrorView::Model(status_failure(status, text@)),
{
    let code = number(status as u64);
    Error::Model(
        Failure {
            code: join("http_", code.as_str()),
            message: text,
            retryable: status == 429 || (status >= 500 && status < 600),
        },
    )
}

/// What follows an answer.
#[derive(Debug, Clone, Copy, PartialEq, Eq, Structural)]
pub enum Answered {
    /// The credential is refreshed and the request sent again.
    Refresh,
    Accepted,
    /// The answer is an error; its text is yet to be read.
    Rejected,
}

pub fn answered(attempt: usize, status: u16) -> (r: Answered)
    ensures
        r == (if refreshes(attempt as nat, status) {
            Answered::Refresh
        } else if is_success(status) {
            Answered::Accepted
        } else {
            Answered::Rejected
        }),
{
    if status == 401 && attempt == 0 {
        Answered::Refresh
    } else if status >= 200 && status < 300 {
        Answered::Accepted
    } else {
        Answered::Rejected
    }
}

/// Decodes a response, and lets the extension map it where there is one.
pub fn decode_exchange(
    extension: &mut Option<Box<dyn ProtocolExtension>>,
    protocol: Protocol,
    response: &Json,
) -> (r: Result<TurnOutput, Error>)
    ensures
        *old(extension) is None ==> exists|answers: Seq<AnswerView<Seq<OutputView>>>|
            seen(r) == #[trigger] turn(protocol, response@, answers) && answers.len() == 0,
        *final(extension) is Some <==> *old(extension) is Some,
        *old(extension) is Some ==> exists|
            answers: Seq<AnswerView<Seq<OutputView>>>,
            xs: Seq<&mut dyn ProtocolExtension>,
            states: Seq<&dyn ProtocolExtension>,
            x: &mut dyn ProtocolExtension,
        |
            {
                &&& #[trigger] conversed(
                    xs,
                    states,
                    protocol,
                    item_log(native_list(protocol, response@), response@, answers),
                )
                &&& items_asked(protocol, response@, answers)
                &&& #[trigger] crate::extension::answered(
                    x,
                    protocol,
                    Asked::Response {
                        raw: response@,
                        decoded: turn(protocol, response@, answers),
                        mapped: seen(r),
                    },
                )
                &&& states[0] == &*(old(extension)->0)
                &&& states.last() == &*x
                &&& &*final(x) == &*(final(extension)->0)
                &&& forall|i: int| 0 <= i < xs.len() ==> &*final(#[trigger] xs[i]) == states[i + 1]
            },
{
    let decoded = decode_with(extension, protocol, response);
    match extension {
        Some(hooks) => ask_response(&mut **hooks, protocol, response, decoded),
        None => decoded,
    }
}

/// Requests are sent twice at most: only the first may be refused for its credential and sent
/// again.
pub proof fn at_most_one_refresh(attempt: nat, status: u16)
    ensures
        attempt > 0 ==> !refreshes(attempt, status),
        status != 401 ==> !refreshes(attempt, status),
{
}

/// A credential is sent where the protocol looks for it: as the key of the Messages protocol,
/// next to the version, and behind its scheme in the others.
pub proof fn credentials_are_sent(protocol: Protocol, credential: CredentialView)
    ensures
        ({
            let headers = credential_headers(protocol, credential);
            let value = headers[0].1;
            if protocol == Protocol::Messages {
                &&& headers.len() >= 2
                &&& headers[0] == ("x-api-key"@, credential.value)
                &&& headers[1] == ("anthropic-version"@, "2023-06-01"@)
            } else {
                &&& headers.len() >= 1
                &&& headers[0].0 == "authorization"@
                &&& value.len() == credential.scheme.len() + 1 + credential.value.len()
                &&& value.take(credential.scheme.len() as int) == credential.scheme
                &&& value[credential.scheme.len() as int] == ' '
                &&& value.skip(credential.scheme.len() as int + 1) == credential.value
            }
        }),
{
    reveal_strlit(" ");
    let value = authorization(credential);
    let n = credential.scheme.len() as int;
    assert(value.take(n) =~= credential.scheme);
    assert(value.skip(n + 1) =~= credential.value);
}

/// Metadata that is marked as a header is sent as one, and other metadata is not.
pub proof fn marked_metadata_is_sent(
    protocol: Protocol,
    credential: CredentialView,
    i: int,
    name: Seq<char>,
)
    requires
        0 <= i < credential.metadata.len(),
        credential.metadata[i].0 == "header:"@ + name,
    ensures
        credential_headers(protocol, credential).contains((name, credential.metadata[i].1)),
{
    let pairs = metadata_pairs(credential.metadata);
    let all = credential_headers(protocol, credential);
    let pair = (name, credential.metadata[i].1);
    pairs_hold(credential.metadata, i, name);
    let j = choose|j: int| 0 <= j < pairs.len() && pairs[j] == pair;
    assert(all[all.len() - pairs.len() + j] == pair);
}

proof fn pairs_hold(metadata: Seq<(Seq<char>, Seq<char>)>, i: int, name: Seq<char>)
    requires
        0 <= i < metadata.len(),
        metadata[i].0 == "header:"@ + name,
    ensures
        metadata_pairs(metadata).contains((name, metadata[i].1)),
    decreases metadata.len(),
{
    let front = metadata.drop_last();
    let before = metadata_pairs(front);
    let all = metadata_pairs(metadata);
    let pair = (name, metadata[i].1);
    if i < front.len() {
        assert(front[i] == metadata[i]);
        pairs_hold(front, i, name);
        let j = choose|j: int| 0 <= j < before.len() && before[j] == pair;
        assert(all[j] == pair);
    } else {
        let key = metadata[i].0;
        assert(key.take("header:"@.len() as int) =~= "header:"@);
        assert(key.skip("header:"@.len() as int) =~= name);
        assert(all[before.len() as int] == pair);
    }
}

/// A failure of an answer names its status and holds its words. It is worth another try where
/// the rate was limited or the server failed, and only there.
pub proof fn failures_name_their_status(status: u16, text: Seq<char>)
    ensures
        status_failure(status, text).code == "http_"@ + decimal(status as nat),
        status_failure(status, text).message == text,
        status == 429 ==> status_failure(status, text).retryable,
        500 <= status < 600 ==> status_failure(status, text).retryable,
        status < 500 && status != 429 ==> !status_failure(status, text).retryable,
        200 <= status < 300 <==> is_success(status),
{
}

/// A base without its slashes at the end is the same base, and has none at its end.
pub proof fn slashes_at_the_end_go(s: Seq<char>, c: char)
    ensures
        ({
            let left = without_trailing(s, c);
            &&& left.len() <= s.len()
            &&& left == s.take(left.len() as int)
            &&& left.len() > 0 ==> left.last() != c
            &&& forall|i: int| left.len() <= i < s.len() ==> (#[trigger] s[i]) == c
        }),
    decreases s.len(),
{
    if s.len() > 0 && s.last() == c {
        slashes_at_the_end_go(s.drop_last(), c);
        let left = without_trailing(s, c);
        assert(left =~= s.take(left.len() as int));
        assert forall|i: int| left.len() <= i < s.len() implies (#[trigger] s[i]) == c by {
            if i < s.len() - 1 {
                assert(s.drop_last()[i] == s[i]);
            }
        }
    } else {
        assert(s.take(s.len() as int) =~= s);
    }
}

} // verus!
