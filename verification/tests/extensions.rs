use std::sync::atomic::{AtomicU64, Ordering};
use std::sync::Arc;
use zhir_models::codec::exchange::{ask, decode_with};
use zhir_models::error::Error;
use zhir_models::extension::{Answer, ExtensionChain, ProtocolExtension};
use zhir_models::json::Json;
use zhir_models::message::{Message, Output, ProviderToolCall, ProviderToolStatus};
use zhir_models::model::{
    InputSpec, ModelDelta, ModelRequest, Profile, Protocol, ProviderToolSpec, ResponseFormat,
    RuntimeToolSpec, ToolChoice,
};
use zhir_models::transport::SseEvent;

/// Leaves its mark on what it is handed, and counts what it is asked.
struct Step {
    mark: &'static str,
    fails_at: u64,
    asked: u64,
}

fn declared(n: u64) -> Json {
    Json::empty().with("n", Json::uint(n))
}

fn step(mark: &'static str, fails_at: u64) -> Step {
    Step { mark, fails_at, asked: 0 }
}

impl Step {
    fn next(&mut self) -> Result<u64, Error> {
        self.asked += 1;
        if self.asked == self.fails_at {
            return Err(Error::Invalid(self.mark.into()));
        }
        Ok(self.asked)
    }
}

impl ProtocolExtension for Step {
    fn encode_provider_tool(
        &mut self,
        _: Protocol,
        _: &ProviderToolSpec,
    ) -> Result<Option<Json>, Error> {
        Ok(Some(declared(self.next()?)))
    }

    fn encode_provider_choice(
        &mut self,
        _: Protocol,
        tool: &ProviderToolSpec,
    ) -> Result<Option<Json>, Error> {
        Ok(Some(Json::empty().with(&tool.name, Json::uint(self.next()?))))
    }

    fn encode_provider_history(
        &mut self,
        _: Protocol,
        _: &ProviderToolCall,
    ) -> Result<Option<Vec<Json>>, Error> {
        let asked = self.next()?;
        Ok(if self.mark == "silent" { None } else { Some(vec![Json::uint(asked)]) })
    }

    fn decode_output_item(
        &mut self,
        _: Protocol,
        _: &Json,
        _: &Json,
    ) -> Result<Option<Vec<Output>>, Error> {
        self.next()?;
        Ok(Some(vec![Output::text(&format!("{}{}", self.mark, self.asked))]))
    }

    fn encode_request(
        &mut self,
        _: Protocol,
        _: &ModelRequest,
        body: &mut Json,
    ) -> Result<(), Error> {
        let asked = self.next()?;
        *body = body.clone().with(self.mark, Json::uint(asked));
        Ok(())
    }

    fn decode_event(
        &mut self,
        _: Protocol,
        event: &mut SseEvent,
    ) -> Result<Vec<ModelDelta>, Error> {
        self.next()?;
        event.data.push_str(self.mark);
        Ok(vec![text(&event.data)])
    }
}

fn text(text: &str) -> ModelDelta {
    ModelDelta::Text { output_index: 0, text: text.into() }
}

fn frame(data: &str) -> SseEvent {
    SseEvent { data: data.into(), event: None, id: None, retry: None }
}

fn tool(name: &str) -> ProviderToolSpec {
    ProviderToolSpec { provider: "p".into(), name: name.into(), options: Json::empty() }
}

fn request(choice: ToolChoice) -> ModelRequest {
    ModelRequest {
        messages: vec![],
        runtime_tools: vec![],
        provider_tools: vec![tool("one"), tool("two")],
        tool_choice: choice,
        response_format: None,
        profile: Profile {
            temperature: None,
            max_output_tokens: None,
            seed: None,
            parallel_runtime_tools: None,
            extensions: Json::empty(),
        },
        stream: false,
    }
}

fn second() -> ToolChoice {
    ToolChoice::ProviderTool { provider: "p".into(), name: "two".into() }
}

#[test]
fn an_event_goes_through_the_chain() {
    let mut chain =
        ExtensionChain::new().push(Box::new(step("a", 2))).push(Box::new(step("b", 9)));
    let mut event = frame("x");
    assert_eq!(
        chain.decode_event(Protocol::Chat, &mut event),
        Ok(vec![text("xa"), text("xab")])
    );
    assert_eq!(event.data, "xab");
    assert_eq!(
        chain.decode_event(Protocol::Chat, &mut event),
        Err(Error::Invalid("a".into()))
    );
    assert_eq!(event.data, "xab");
}

#[test]
fn a_body_goes_through_the_chain() {
    let mut chain =
        ExtensionChain::new().push(Box::new(step("a", 9))).push(Box::new(step("b", 2)));
    let mut body = Json::empty();
    let asked = request(ToolChoice::Auto);
    assert_eq!(chain.encode_request(Protocol::Chat, &asked, &mut body), Ok(()));
    assert_eq!(body.print(), r#"{"a":1,"b":1}"#);
    assert_eq!(
        chain.encode_request(Protocol::Chat, &asked, &mut body),
        Err(Error::Invalid("b".into()))
    );
    assert_eq!(body.print(), r#"{"a":2,"b":1}"#);
}

/// Answers every question alike, and counts them.
struct Fixed {
    answer: Result<Option<Json>, Error>,
    asked: Arc<AtomicU64>,
}

impl ProtocolExtension for Fixed {
    fn encode_provider_tool(
        &mut self,
        _: Protocol,
        _: &ProviderToolSpec,
    ) -> Result<Option<Json>, Error> {
        self.asked.fetch_add(1, Ordering::SeqCst);
        self.answer.clone()
    }
}

#[test]
fn asking_stops_once_a_claim_is_decided() {
    let claim = Ok(Some(declared(1)));
    let failure = Err(Error::Invalid("broken".into()));
    let twice = Err(Error::Invalid("multiple extensions claimed the same protocol item".into()));
    for (answers, expected, count) in [
        (vec![Ok(None), claim.clone(), Ok(None)], claim.clone(), 3),
        (vec![Ok(None), Ok(None)], Ok(None), 2),
        (vec![claim.clone(), claim.clone(), failure.clone(), Ok(None)], twice, 2),
        (vec![claim.clone(), failure.clone(), claim], failure, 2),
    ] {
        let asked = Arc::new(AtomicU64::new(0));
        let mut chain = ExtensionChain::new();
        for answer in answers {
            chain = chain.push(Box::new(Fixed { answer, asked: asked.clone() }));
        }
        assert_eq!(chain.encode_provider_tool(Protocol::Chat, &tool("one")), expected);
        assert_eq!(asked.load(Ordering::SeqCst), count);
    }
}

#[test]
fn an_extension_is_asked_in_order() {
    let answers = ask(&mut step("a", 9), Protocol::Responses, &request(second()));
    assert_eq!(
        answers.tools,
        vec![Answer::Claimed(declared(1)), Answer::Claimed(declared(2))]
    );
    assert_eq!(answers.choice, Answer::Claimed(Json::empty().with("two", Json::uint(3))));
    assert_eq!(answers.history.len(), 0);
    let answers = ask(&mut step("a", 9), Protocol::Responses, &request(ToolChoice::Auto));
    assert_eq!(answers.choice, Answer::Unclaimed);
}

#[test]
fn a_failure_ends_the_questions() {
    let failed = Error::Invalid("a".into());
    let answers = ask(&mut step("a", 2), Protocol::Responses, &request(second()));
    assert_eq!(
        answers.tools,
        vec![Answer::Claimed(declared(1)), Answer::Failed(failed)]
    );
    assert_eq!(answers.choice, Answer::Unclaimed);
}

fn call(id: &str) -> Output {
    Output::ProviderToolCall(ProviderToolCall {
        id: id.into(),
        provider: "p".into(),
        name: "one".into(),
        status: ProviderToolStatus::Completed,
        output: vec![],
        data: Json::Null,
    })
}

fn delegation() -> Output {
    Output::Delegation { id: "d".into(), prompt: "".into() }
}

fn said(output: Vec<Output>) -> Message {
    Message::Assistant { output, provider_data: Json::Null }
}

fn items(n: u64) -> Answer<Vec<Json>> {
    Answer::Claimed(vec![Json::uint(n)])
}

#[test]
fn nothing_is_asked_past_what_cannot_be_encoded() {
    let mut first = request(second());
    first.messages = vec![said(vec![call("a"), delegation(), call("b")]), said(vec![call("c")])];
    let mut extension = step("a", 99);
    let answers = ask(&mut extension, Protocol::Responses, &first);
    assert_eq!(answers.history, vec![vec![items(1)]]);
    assert_eq!(answers.tools, vec![]);
    assert_eq!(answers.choice, Answer::Unclaimed);
    assert_eq!(extension.asked, 1);
    let mut whole = request(second());
    whole.messages = vec![said(vec![call("a"), call("b")]), said(vec![call("c")])];
    let answers = ask(&mut step("a", 99), Protocol::Responses, &whole);
    assert_eq!(answers.history, vec![vec![items(1), items(2)], vec![items(3)]]);
    assert_eq!(answers.choice, Answer::Claimed(Json::empty().with("two", Json::uint(6))));
    let mut unclaimed = step("silent", 99);
    let answers = ask(&mut unclaimed, Protocol::Responses, &whole);
    assert_eq!(answers.history, vec![vec![Answer::Unclaimed]]);
    assert_eq!(unclaimed.asked, 1);
}

#[test]
fn tools_are_asked_for_once_all_else_is_taken() {
    let mut format = request(second());
    format.response_format = Some(ResponseFormat::Json);
    let mut extension = step("a", 99);
    assert_eq!(ask(&mut extension, Protocol::Messages, &format).tools, vec![]);
    let mut freeform = request(second());
    freeform.runtime_tools = vec![RuntimeToolSpec {
        name: "run".into(),
        description: "".into(),
        input: InputSpec::Freeform(None),
    }];
    assert_eq!(ask(&mut extension, Protocol::Chat, &freeform).tools, vec![]);
    assert_eq!(extension.asked, 0);
}

#[test]
fn an_item_names_its_kind_before_it_is_shown() {
    let raw = Json::parse(r#"{"output":[{"type":"message"},{"id":"x"},{"type":"message"}]}"#);
    let mut extension: Option<Box<dyn ProtocolExtension>> = Some(Box::new(step("a", 2)));
    assert_eq!(
        decode_with(&mut extension, Protocol::Responses, &raw.unwrap()),
        Err(Error::Protocol("missing type".into()))
    );
}
