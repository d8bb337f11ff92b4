//! One exchange with its extension: the extension is asked in the order in which its answers
//! are used.
use crate::codec::conversation::{
    conversation_begins, conversation_goes_on, conversations_join, conversed,
};
use crate::codec::decode::{
    decode, decode_one, decoded_item, decoded_items, item_list, items_key, make_turn, marks,
    outputs, text, text_field, turn, with_marks,
};
use crate::codec::encode::{
    choice_is_settable, encode, encoded_message, encoded_messages, encoded_request, encoded_step,
    nothing_encoded, provider_tool, provider_tool_json, provider_tools_json, runtime_tools,
    set_format, tools_json, with_format, with_history, Answers, Encoded, History, Writer,
};
use crate::codec::questions::{ask_history, asked, call_log};
use crate::error::{
    all_ok, all_ok_culprit, all_ok_each, all_ok_step, fold_ok, fold_ok_error, seen, Error,
    ErrorView,
};
use crate::extension::{
    answer, answer_at, ask_choice, ask_declaration, ask_item, Answer, AnswerView, Asked,
    ProtocolExtension,
};
use crate::json::{Json, JsonView};
use crate::message::{MessageView, Output, OutputView};
use crate::model::{
    ModelRequest, Protocol, ProviderToolSpecView, ToolChoice, ToolChoiceView, TurnOutput,
};
use crate::text::same;
use vstd::prelude::*;

verus! {

// ---------------------------------------------------------------------------------------
// Asking
// ---------------------------------------------------------------------------------------
/// Whether the messages in front of a position were encoded.
pub open spec fn encoded_before(
    protocol: Protocol,
    messages: Seq<MessageView>,
    history: Seq<History>,
    n: int,
) -> bool {
    encoded_messages(protocol, messages.take(n), history.take(n)) is Ok
}

/// Whether an extension was asked for the history: for the calls of each message, up to the
/// first message that could not be encoded.
pub open spec fn history_asked(
    protocol: Protocol,
    messages: Seq<MessageView>,
    history: Seq<History>,
) -> bool {
    &&& history.len() <= messages.len()
    &&& forall|i: int|
        0 <= i < history.len() ==> #[trigger] encoded_before(protocol, messages, history, i)
            && history[i].len() == asked(protocol, messages[i], history[i]).len()
    &&& history.len() < messages.len() ==> !encoded_before(
        protocol,
        messages,
        history,
        history.len() as int,
    )
}

/// Whether encoding comes to the provider tools: the messages, the runtime tools and the
/// response format are taken.
pub open spec fn tools_reached(
    protocol: Protocol,
    request: ModelRequest,
    history: Seq<History>,
) -> bool {
    &&& encoded_messages(protocol, request.messages.deep_view(), history) is Ok
    &&& tools_json(protocol, request.runtime_tools.deep_view()) is Ok
    &&& with_format(protocol, JsonView::empty(), request.response_format.deep_view()) is Ok
}

/// Whether an extension was asked how the tools are declared, up to the first that it did not
/// declare.
pub open spec fn tools_asked(
    tools: Seq<ProviderToolSpecView>,
    answers: Seq<AnswerView<JsonView>>,
) -> bool {
    &&& answers.len() <= tools.len()
    &&& forall|i: int|
        0 <= i < answers.len() - 1 ==> provider_tool_json(tools[i], #[trigger] answers[i]) is Ok
    &&& answers.len() < tools.len() ==> answers.len() > 0 && provider_tool_json(
        tools[answers.len() - 1],
        answers.last(),
    ) is Err
}

/// The first tool with that identity.
pub open spec fn tool_of(
    tools: Seq<ProviderToolSpecView>,
    provider: Seq<char>,
    name: Seq<char>,
) -> Option<ProviderToolSpecView>
    decreases tools.len(),
{
    if tools.len() == 0 {
        None
    } else {
        match tool_of(tools.drop_last(), provider, name) {
            Some(tool) => Some(tool),
            None => if tools.last().provider == provider && tools.last().name == name {
                Some(tools.last())
            } else {
                None
            },
        }
    }
}

proof fn first_tool(
    tools: Seq<ProviderToolSpecView>,
    provider: Seq<char>,
    name: Seq<char>,
    n: int,
)
    requires
        0 <= n <= tools.len(),
        tool_of(tools.take(n), provider, name) is Some,
    ensures
        tool_of(tools, provider, name) == tool_of(tools.take(n), provider, name),
    decreases tools.len() - n,
{
    if n < tools.len() {
        assert(tools.take(n + 1).drop_last() =~= tools.take(n));
        first_tool(tools, provider, name, n + 1);
    } else {
        assert(tools.take(n) =~= tools);
    }
}

/// The provider tool that a request selects, where it offers that tool.
pub open spec fn selected_tool(request: ModelRequest) -> Option<ProviderToolSpecView> {
    match request.tool_choice@ {
        ToolChoiceView::ProviderTool { provider, name } => tool_of(
            request.provider_tools.deep_view(),
            provider,
            name,
        ),
        _ => None,
    }
}

/// Whether the extension was asked how to select a tool: encoding came to the tools, each was
/// declared, and one of them is selected.
pub open spec fn choice_asked(protocol: Protocol, request: ModelRequest, answers: Answers) -> bool {
    &&& tools_reached(protocol, request, answers.history.deep_view())
    &&& provider_tools_json(
        request.provider_tools.deep_view(),
        answers.tools.deep_view(),
    ) is Ok
    &&& selected_tool(request) is Some
}

/// Whether an extension was asked for all that the encoding of a request comes to, and for
/// nothing else.
#[verifier::opaque]
pub open spec fn asked_in_order(
    protocol: Protocol,
    request: ModelRequest,
    answers: Answers,
) -> bool {
    &&& history_asked(protocol, request.messages.deep_view(), answers.history.deep_view())
    &&& if tools_reached(protocol, request, answers.history.deep_view()) {
        tools_asked(request.provider_tools.deep_view(), answers.tools.deep_view())
    } else {
        answers.tools.deep_view().len() == 0
    }
    &&& !choice_asked(protocol, request, answers) ==> answers.choice is Unclaimed
}

/// The questions of all messages, in order.
pub open spec fn history_log(
    protocol: Protocol,
    messages: Seq<MessageView>,
    history: Seq<History>,
) -> Seq<Asked>
    decreases history.len(),
{
    if history.len() == 0 {
        Seq::empty()
    } else {
        history_log(protocol, messages, history.drop_last()) + call_log(
            asked(protocol, messages[history.len() - 1], history.last()),
            history.last(),
        )
    }
}

/// The questions of the tools.
pub open spec fn tool_log(
    tools: Seq<ProviderToolSpecView>,
    answers: Seq<AnswerView<JsonView>>,
) -> Seq<Asked> {
    Seq::new(answers.len(), |i: int| Asked::Declaration(tools[i], answers[i]))
}

/// All that an extension was asked for a request, in order: the calls of the history, the
/// tools, and the one that is selected.
pub open spec fn transcript(protocol: Protocol, request: ModelRequest, answers: Answers) -> Seq<
    Asked,
> {
    let before = history_log(
        protocol,
        request.messages.deep_view(),
        answers.history.deep_view(),
    ) + tool_log(request.provider_tools.deep_view(), answers.tools.deep_view());
    if choice_asked(protocol, request, answers) {
        before.push(Asked::Choice(selected_tool(request)->0, answers.choice.deep_view()))
    } else {
        before
    }
}

/// Where the messages in front cannot be encoded, all of them cannot.
proof fn unencoded_front(
    protocol: Protocol,
    messages: Seq<MessageView>,
    history: Seq<History>,
    n: int,
)
    requires
        0 <= n <= messages.len(),
        history.len() == n,
        !encoded_before(protocol, messages, history, n),
    ensures
        encoded_messages(protocol, messages, history) is Err,
{
    let all = with_history(messages, history);
    assert(history.take(n) =~= history);
    assert(all.take(n) =~= with_history(messages.take(n), history));
    fold_ok_error(all, nothing_encoded(), encoded_step(protocol), n);
}

/// A tool that was not declared stops the declarations.
proof fn undeclared(tools: Seq<ProviderToolSpecView>, answers: Seq<AnswerView<JsonView>>, n: int)
    requires
        0 <= n < tools.len(),
        answers.len() == n + 1,
        provider_tool_json(tools[n], answers[n]) is Err,
    ensures
        provider_tools_json(tools, answers) is Err,
{
    let results = Seq::new(
        tools.len(),
        |i: int| provider_tool_json(tools[i], answer_at(answers, i)),
    );
    if provider_tools_json(tools, answers) is Ok {
        all_ok_each(results);
        assert(results[n] is Ok);
    }
}

/// Where each tool was declared, all are.
proof fn all_declared(tools: Seq<ProviderToolSpecView>, answers: Seq<AnswerView<JsonView>>)
    requires
        answers.len() == tools.len(),
        forall|i: int|
            0 <= i < answers.len() ==> provider_tool_json(tools[i], #[trigger] answers[i]) is Ok,
    ensures
        provider_tools_json(tools, answers) is Ok,
{
    let results = Seq::new(
        tools.len(),
        |i: int| provider_tool_json(tools[i], answer_at(answers, i)),
    );
    if provider_tools_json(tools, answers) is Err {
        let i = all_ok_culprit(results);
        assert(provider_tool_json(tools[i], answers[i]) is Ok);
    }
}

/// A longer history encodes the messages in front alike.
proof fn front_stands(
    protocol: Protocol,
    messages: Seq<MessageView>,
    history: Seq<History>,
    more: History,
)
    requires
        history_asked_so_far(protocol, messages, history),
    ensures
        forall|i: int|
            0 <= i < history.len() ==> #[trigger] encoded_before(
                protocol,
                messages,
                history.push(more),
                i,
            ),
{
    assert forall|i: int| 0 <= i < history.len() implies #[trigger] encoded_before(
        protocol,
        messages,
        history.push(more),
        i,
    ) by {
        assert(history.push(more).take(i) =~= history.take(i));
        assert(encoded_before(protocol, messages, history, i));
    }
}

spec fn history_asked_so_far(
    protocol: Protocol,
    messages: Seq<MessageView>,
    history: Seq<History>,
) -> bool {
    &&& history.len() <= messages.len()
    &&& forall|i: int|
        0 <= i < history.len() ==> #[trigger] encoded_before(protocol, messages, history, i)
            && history[i].len() == asked(protocol, messages[i], history[i]).len()
}

/// Asks an extension for all that the encoding of a request comes to. It is asked no more
/// where something in front could not be encoded.
pub fn ask<E: ProtocolExtension + ?Sized>(
    extension: &mut E,
    protocol: Protocol,
    request: &ModelRequest,
) -> (r: Answers)
    ensures
        asked_in_order(protocol, *request, r),
        exists|xs: Seq<&mut E>, states: Seq<&E>|
            {
                &&& #[trigger] conversed(
                    xs,
                    states,
                    protocol,
                    transcript(protocol, *request, r),
                )
                &&& states[0] == &*old(extension)
                &&& states.last() == &*final(extension)
                &&& forall|i: int| 0 <= i < xs.len() ==> &*final(#[trigger] xs[i]) == states[i + 1]
            },
{
    let ghost messages = request.messages.deep_view();
    let ghost tools = request.provider_tools.deep_view();
    let ghost step = encoded_step(protocol);
    let mut writer = Writer::new();
    let mut answers = Answers {
        tools: Vec::new(),
        choice: Answer::Unclaimed,
        history: Vec::new(),
    };
    let mut i: usize = 0;
    proof {
        conversation_begins(&*extension, protocol);
        assert(answers.history.deep_view() =~= Seq::empty());
        assert(with_history(messages.take(0), answers.history.deep_view()) =~= Seq::empty());
        assert(history_log(protocol, messages, answers.history.deep_view()) =~= Seq::empty());
    }
    while i < request.messages.len()
        invariant
            i <= request.messages@.len(),
            messages == request.messages.deep_view(),
            tools == request.provider_tools.deep_view(),
            step == encoded_step(protocol),
            answers.history@.len() == i,
            answers.tools@.len() == 0,
            answers.choice is Unclaimed,
            history_asked_so_far(protocol, messages, answers.history.deep_view()),
            fold_ok(
                with_history(messages.take(i as int), answers.history.deep_view()),
                nothing_encoded(),
                step,
            ) == Ok::<Encoded, ErrorView>(writer@),
            exists|xs: Seq<&mut E>, states: Seq<&E>|
                {
                    &&& #[trigger] conversed(
                        xs,
                        states,
                        protocol,
                        history_log(protocol, messages, answers.history.deep_view()),
                    )
                    &&& states[0] == &*old(extension)
                    &&& states.last() == &*extension
                    &&& forall|i: int|
                        0 <= i < xs.len() ==> &*final(#[trigger] xs[i]) == states[i + 1]
                },
        decreases request.messages@.len() - i,
    {
        let ghost before: &E = &*extension;
        let ghost given = answers.history.deep_view();
        let ghost state = writer@;
        let more = ask_history(&mut *extension, protocol, &request.messages[i]);
        let ghost said = more.deep_view();
        answers.history.push(more);
        proof {
            let all = answers.history.deep_view();
            let front = with_history(messages.take(i as int), given);
            let next = with_history(messages.take(i + 1), all);
            assert(all =~= given.push(said));
            assert(messages[i as int] == request.messages@[i as int]@);
            assert(all.drop_last() =~= given);
            conversations_join(
                &*old(extension),
                before,
                &*extension,
                protocol,
                history_log(protocol, messages, given),
                call_log(asked(protocol, messages[i as int], said), said),
            );
            assert(history_log(protocol, messages, all) == history_log(protocol, messages, given)
                + call_log(asked(protocol, messages[i as int], said), said));
            front_stands(protocol, messages, given, said);
            assert(all.take(i as int) =~= given);
            assert(encoded_before(protocol, messages, all, i as int));
            assert forall|j: int| 0 <= j < all.len() implies all[j].len() == asked(
                protocol,
                messages[j],
                all[j],
            ).len() && #[trigger] encoded_before(protocol, messages, all, j) by {
                if j < i {
                    assert(encoded_before(protocol, messages, given, j));
                    assert(all[j] == given[j]);
                }
            }
            assert(next.drop_last() =~= front);
            assert(next.last() == (messages[i as int], said));
            assert(step(state, next.last()) == encoded_message(
                protocol,
                state,
                messages[i as int],
                said,
            ));
            assert(answers.history@[i as int].deep_view() == said);
        }
        let written = writer.message(protocol, &request.messages[i], &answers.history[i]);
        if written.is_err() {
            proof {
                let all = answers.history.deep_view();
                assert(answers.tools.deep_view() =~= Seq::empty());
                assert(tool_log(tools, answers.tools.deep_view()) =~= Seq::empty());
                assert(all.take(all.len() as int) =~= all);
                assert(!encoded_before(protocol, messages, all, i + 1));
                unencoded_front(protocol, messages, all, i + 1);
                assert(!tools_reached(protocol, *request, all));
                reveal(asked_in_order);
                assert(transcript(protocol, *request, answers)
                    =~= history_log(protocol, messages, answers.history.deep_view()));
            }
            return answers;
        }
        i += 1;
    }
    let ghost told = history_log(protocol, messages, answers.history.deep_view());
    proof {
        let all = answers.history.deep_view();
        assert(messages.take(i as int) =~= messages);
        assert(all.take(all.len() as int) =~= all);
        assert(answers.tools.deep_view() =~= Seq::empty());
        assert(told + tool_log(tools, answers.tools.deep_view()) =~= told);
    }
    let mut scratch = Json::empty();
    let listed = runtime_tools(protocol, &request.runtime_tools);
    let formatted = set_format(protocol, &mut scratch, &request.response_format);
    if listed.is_err() || formatted.is_err() {
        proof {
            assert(!tools_reached(protocol, *request, answers.history.deep_view()));
            reveal(asked_in_order);
            assert(transcript(protocol, *request, answers) =~= told);
        }
        return answers;
    }
    assert(tools_reached(protocol, *request, answers.history.deep_view()));
    let mut i: usize = 0;
    while i < request.provider_tools.len()
        invariant
            i <= request.provider_tools@.len(),
            messages == request.messages.deep_view(),
            tools == request.provider_tools.deep_view(),
            answers.tools@.len() == i,
            answers.choice is Unclaimed,
            history_asked(protocol, messages, answers.history.deep_view()),
            tools_reached(protocol, *request, answers.history.deep_view()),
            told == history_log(protocol, messages, answers.history.deep_view()),
            forall|j: int|
                0 <= j < i ==> provider_tool_json(
                    tools[j],
                    #[trigger] answers.tools.deep_view()[j],
                ) is Ok,
            exists|xs: Seq<&mut E>, states: Seq<&E>|
                {
                    &&& #[trigger] conversed(
                        xs,
                        states,
                        protocol,
                        told + tool_log(tools, answers.tools.deep_view()),
                    )
                    &&& states[0] == &*old(extension)
                    &&& states.last() == &*extension
                    &&& forall|i: int|
                        0 <= i < xs.len() ==> &*final(#[trigger] xs[i]) == states[i + 1]
                },
        decreases request.provider_tools@.len() - i,
    {
        let ghost before: &E = &*extension;
        let ghost given = answers.tools.deep_view();
        let next = answer(ask_declaration(&mut *extension, protocol, &request.provider_tools[i]));
        let ghost reply = next.deep_view();
        answers.tools.push(next);
        proof {
            let all = answers.tools.deep_view();
            let question = Asked::Declaration(tools[i as int], reply);
            assert(all =~= given.push(reply));
            assert(tools[i as int] == request.provider_tools@[i as int]@);
            conversation_goes_on(
                &*old(extension),
                before,
                &*extension,
                protocol,
                told + tool_log(tools, given),
                question,
            );
            assert((told + tool_log(tools, given)).push(question) =~= told + tool_log(tools, all));
            assert forall|j: int| 0 <= j < i implies provider_tool_json(
                tools[j],
                #[trigger] all[j],
            ) is Ok by {
                assert(all[j] == given[j]);
            }
        }
        let declared = provider_tool(&request.provider_tools[i], &answers.tools, i);
        if declared.is_err() {
            proof {
                undeclared(tools, answers.tools.deep_view(), i as int);
                reveal(asked_in_order);
                assert(!choice_asked(protocol, *request, answers));
                assert(transcript(protocol, *request, answers)
                    == told + tool_log(tools, answers.tools.deep_view()));
            }
            return answers;
        }
        i += 1;
    }
    proof {
        all_declared(tools, answers.tools.deep_view());
    }
    match &request.tool_choice {
        ToolChoice::ProviderTool { provider, name } => {
            let mut i: usize = 0;
            assert(tools.take(0) =~= Seq::empty());
            while i < request.provider_tools.len()
                invariant
                    i <= request.provider_tools@.len(),
                    messages == request.messages.deep_view(),
                    tools == request.provider_tools.deep_view(),
                    answers.choice is Unclaimed,
                    history_asked(protocol, messages, answers.history.deep_view()),
                    tools_reached(protocol, *request, answers.history.deep_view()),
                    tools_asked(tools, answers.tools.deep_view()),
                    provider_tools_json(tools, answers.tools.deep_view()) is Ok,
                    told == history_log(protocol, messages, answers.history.deep_view()),
                    request.tool_choice == (ToolChoice::ProviderTool {
                        provider: *provider,
                        name: *name,
                    }),
                    tool_of(tools.take(i as int), provider@, name@) is None,
                    exists|xs: Seq<&mut E>, states: Seq<&E>|
                        {
                            &&& #[trigger] conversed(
                                xs,
                                states,
                                protocol,
                                told + tool_log(tools, answers.tools.deep_view()),
                            )
                            &&& states[0] == &*old(extension)
                            &&& states.last() == &*extension
                            &&& forall|i: int|
                                0 <= i < xs.len() ==> &*final(#[trigger] xs[i]) == states[i + 1]
                        },
                decreases request.provider_tools@.len() - i,
            {
                let tool = &request.provider_tools[i];
                proof {
                    assert(tools.take(i + 1).drop_last() =~= tools.take(i as int));
                    assert(tools.take(i + 1).last() == tool@);
                }
                if same(tool.provider.as_str(), provider.as_str()) && same(
                    tool.name.as_str(),
                    name.as_str(),
                ) {
                    let ghost before: &E = &*extension;
                    let result = ask_choice(&mut *extension, protocol, tool);
                    answers.choice = answer(result);
                    proof {
                        first_tool(tools, provider@, name@, i + 1);
                        assert(selected_tool(*request) == Some(tool@));
                        assert(choice_asked(protocol, *request, answers));
                        reveal(asked_in_order);
                        conversation_goes_on(
                            &*old(extension),
                            before,
                            &*extension,
                            protocol,
                            told + tool_log(tools, answers.tools.deep_view()),
                            Asked::Choice(tool@, answers.choice.deep_view()),
                        );
                        let heard = told + tool_log(tools, answers.tools.deep_view());
                        assert(transcript(protocol, *request, answers) == heard.push(
                            Asked::Choice(tool@, answers.choice.deep_view()),
                        ));
                    }
                    return answers;
                }
                i += 1;
            }
            assert(tools.take(tools.len() as int) =~= tools);
        },
        _ => {},
    }
    assert(!choice_asked(protocol, *request, answers));
    proof {
        reveal(asked_in_order);
    }
    assert(transcript(protocol, *request, answers)
        == told + tool_log(tools, answers.tools.deep_view()));
    assert(&*final(extension) == &*extension);
    assert(exists|xs: Seq<&mut E>, states: Seq<&E>|
        {
            &&& #[trigger] conversed(
                xs,
                states,
                protocol,
                transcript(protocol, *request, answers),
            )
            &&& states[0] == &*old(extension)
            &&& states.last() == &*final(extension)
            &&& forall|i: int| 0 <= i < xs.len() ==> &*final(#[trigger] xs[i]) == states[i + 1]
        });
    answers
}

/// The answers where there is no extension.
pub open spec fn unanswered(answers: Answers) -> bool {
    answers.tools@.len() == 0 && answers.choice is Unclaimed && answers.history@.len() == 0
}

/// Encodes a request, asking the extension where there is one. The result is none where the
/// extension selected a tool with a value that takes no setting.
pub fn encode_with(
    extension: &mut Option<Box<dyn ProtocolExtension>>,
    protocol: Protocol,
    model: &str,
    request: &ModelRequest,
) -> (r: Option<Result<Json, Error>>)
    ensures
        r matches Some(Ok(body)) ==> body@ is Object,
        *old(extension) is None ==> exists|answers: Answers|
            #[trigger] unanswered(answers) && r is Some && seen(r->0) == encoded_request(
                protocol,
                model@,
                *request,
                answers,
            ),
        *final(extension) is Some <==> *old(extension) is Some,
        *old(extension) is Some ==> exists|
            answers: Answers,
            xs: Seq<&mut dyn ProtocolExtension>,
            states: Seq<&dyn ProtocolExtension>,
        |
            {
                &&& #[trigger] conversed(
                    xs,
                    states,
                    protocol,
                    transcript(protocol, *request, answers),
                )
                &&& asked_in_order(protocol, *request, answers)
                &&& match r {
                    Some(result) => seen(result) == encoded_request(
                        protocol,
                        model@,
                        *request,
                        answers,
                    ),
                    None => !choice_is_settable(protocol, *request, answers),
                }
                &&& states[0] == &*(old(extension)->0)
                &&& states.last() == &*(final(extension)->0)
                &&& forall|i: int| 0 <= i < xs.len() ==> &*final(#[trigger] xs[i]) == states[i + 1]
            },
{
    let answers = match extension {
        Some(extension) => ask(&mut **extension, protocol, request),
        None => Answers { tools: Vec::new(), choice: Answer::Unclaimed, history: Vec::new() },
    };
    assert(*old(extension) is None ==> unanswered(answers));
    let settable = match (&protocol, &answers.choice) {
        (Protocol::Messages, Answer::Claimed(value)) => value.is_assignable() || match (
            &request.tool_choice,
            &request.profile.parallel_runtime_tools,
        ) {
            (ToolChoice::ProviderTool { .. }, Some(_)) => false,
            _ => true,
        },
        _ => true,
    };
    if !settable {
        return None;
    }
    Some(encode(protocol, model, request, &answers))
}

/// The native items of a response that an extension is asked about: those that it lists,
/// unless it reports an error. A reply without native items lists none.
pub open spec fn native_list(protocol: Protocol, response: JsonView) -> Seq<JsonView> {
    if protocol == Protocol::Chat || response.present("error"@) is Some {
        Seq::empty()
    } else {
        match response.get_array(items_key(protocol)) {
            Some(items) => items,
            None => Seq::empty(),
        }
    }
}

/// Whether an item names its kind, where the protocol asks for that before all else.
pub open spec fn names_its_kind(protocol: Protocol, item: JsonView) -> bool {
    protocol != Protocol::Responses || text_field(item, "type"@) is Ok
}

/// Whether an extension was asked about the items of a response, up to the first that could
/// not be decoded. About an item that does not name its kind it is not asked.
pub open spec fn items_asked(
    protocol: Protocol,
    response: JsonView,
    answers: Seq<AnswerView<Seq<OutputView>>>,
) -> bool {
    let items = native_list(protocol, response);
    let decoded = decoded_items(protocol, items, answers);
    &&& answers.len() <= items.len()
    &&& forall|i: int| 0 <= i < answers.len() ==> names_its_kind(protocol, #[trigger] items[i])
    &&& forall|i: int| 0 <= i < answers.len() - 1 ==> (#[trigger] decoded[i]) is Ok
    &&& answers.len() < items.len() ==> (answers.len() > 0 && decoded[answers.len() - 1] is Err)
        || !names_its_kind(protocol, items[answers.len() as int])
}

/// The questions about the items of a response, in order.
pub open spec fn item_log(
    items: Seq<JsonView>,
    response: JsonView,
    answers: Seq<AnswerView<Seq<OutputView>>>,
) -> Seq<Asked> {
    Seq::new(answers.len(), |i: int| Asked::Item { item: items[i], response, answer: answers[i] })
}

fn decode_asking<E: ProtocolExtension + ?Sized>(
    hooks: &mut E,
    protocol: Protocol,
    response: &Json,
) -> (r: Result<TurnOutput, Error>)
    ensures
        exists|
            answers: Seq<AnswerView<Seq<OutputView>>>,
            xs: Seq<&mut E>,
            states: Seq<&E>,
        |
            {
                &&& #[trigger] conversed(
                    xs,
                    states,
                    protocol,
                    item_log(native_list(protocol, response@), response@, answers),
                )
                &&& items_asked(protocol, response@, answers)
                &&& seen(r) == turn(protocol, response@, answers)
                &&& states[0] == &*old(hooks)
                &&& states.last() == &*final(hooks)
                &&& forall|i: int| 0 <= i < xs.len() ==> &*final(#[trigger] xs[i]) == states[i + 1]
            },
{
    let ghost mut answers: Seq<AnswerView<Seq<OutputView>>> = Seq::empty();
    proof {
        conversation_begins(&*hooks, protocol);
        assert(item_log(native_list(protocol, response@), response@, answers) =~= Seq::empty());
    }
    match &protocol {
        Protocol::Chat => {
            let none: Vec<Answer<Vec<Output>>> = Vec::new();
            assert(none.deep_view() =~= answers);
            let r = decode(protocol, response, &none);
            assert(seen(r) == turn(protocol, response@, answers));
            return r;
        },
        _ => {},
    }
    match response.present("error") {
        Some(error) => {
            let r = Err(Error::Protocol(error.print()));
            assert(seen(r) == turn(protocol, response@, answers));
            return r;
        },
        None => {},
    }
    let items = match item_list(protocol, response) {
        Ok(items) => items,
        Err(e) => {
            let r = Err(e);
            assert(seen(r) == turn(protocol, response@, answers));
            return r;
        },
    };
    let ghost views = items.deep_view();
    let ghost mut decoded: Seq<(Seq<OutputView>, JsonView)> = Seq::empty();
    let mut output: Vec<Output> = Vec::new();
    let mut kept: Vec<Json> = Vec::new();
    let mut i: usize = 0;
    assert(decoded_items(protocol, views, answers).take(0) =~= Seq::empty());
    assert(output.deep_view() =~= outputs(decoded));
    assert(kept.deep_view() =~= marks(decoded));
    while i < items.len()
        invariant
            i <= items@.len(),
            protocol != Protocol::Chat,
            response@.present("error"@) is None,
            views == items.deep_view(),
            response@.get_array(items_key(protocol)) == Some(views),
            answers.len() == i,
            all_ok(decoded_items(protocol, views, answers).take(i as int)) == Ok::<
                Seq<(Seq<OutputView>, JsonView)>,
                ErrorView,
            >(decoded),
            output.deep_view() == outputs(decoded),
            kept.deep_view() == marks(decoded),
            native_list(protocol, response@) == views,
            forall|j: int|
                0 <= j < i ==> (#[trigger] decoded_items(protocol, views, answers)[j]) is Ok,
            forall|j: int| 0 <= j < i ==> names_its_kind(protocol, #[trigger] views[j]),
            exists|xs: Seq<&mut E>, states: Seq<&E>|
                {
                    &&& #[trigger] conversed(
                        xs,
                        states,
                        protocol,
                        item_log(views, response@, answers),
                    )
                    &&& states[0] == &*old(hooks)
                    &&& states.last() == &*hooks
                    &&& forall|i: int|
                        0 <= i < xs.len() ==> &*final(#[trigger] xs[i]) == states[i + 1]
                },
        decreases items@.len() - i,
    {
        let ghost state: &E = &*hooks;
        let ghost log = item_log(views, response@, answers);
        assert(views[i as int] == items@[i as int]@);
        if protocol == Protocol::Responses {
            match text(&items[i], "type") {
                Ok(_) => {},
                Err(e) => {
                    let r = Err(e);
                    proof {
                        let results = decoded_items(protocol, views, answers);
                        all_ok_step(results, i as int);
                        assert(!names_its_kind(protocol, views[i as int]));
                        assert(seen(r) == turn(protocol, response@, answers));
                    }
                    return r;
                },
            }
        }
        let answered = answer(ask_item(&mut *hooks, protocol, &items[i], response));
        let ghost more = answers.push(answered.deep_view());
        proof {
            let asked = Asked::Item {
                item: views[i as int],
                response: response@,
                answer: answered.deep_view(),
            };
            assert(views[i as int] == items@[i as int]@);
            conversation_goes_on(&*old(hooks), state, &*hooks, protocol, log, asked);
            assert(item_log(views, response@, more) =~= log.push(asked));
            assert forall|j: int| 0 <= j < i implies (#[trigger] decoded_items(
                protocol,
                views,
                more,
            )[j]) is Ok by {
                assert(decoded_items(protocol, views, answers)[j] is Ok);
            }
            let results = decoded_items(protocol, views, more);
            assert(results.take(i as int) =~= decoded_items(protocol, views, answers).take(
                i as int,
            ));
            all_ok_step(results, i as int);
            assert(results[i as int] == decoded_item(
                protocol,
                items@[i as int]@,
                answered.deep_view(),
            ));
            answers = more;
        }
        let ghost before = kept.deep_view();
        let mark = match decode_one(protocol, &items[i], &answered, &mut output) {
            Ok(mark) => mark,
            Err(e) => {
                let r = Err(e);
                assert(seen(r) == turn(protocol, response@, answers));
                return r;
            },
        };
        kept.push(mark);
        proof {
            let next = decoded_items(protocol, views, answers)[i as int]->Ok_0;
            assert(decoded.push(next).drop_last() =~= decoded);
            decoded = decoded.push(next);
            assert(kept.deep_view() =~= before.push(mark@));
            assert(kept.deep_view() =~= marks(decoded));
        }
        i += 1;
    }
    proof {
        let results = decoded_items(protocol, views, answers);
        assert(results.take(results.len() as int) =~= results);
    }
    let replay = with_marks(protocol, response, kept);
    let r = Ok(make_turn(protocol, response, output, replay));
    assert(seen(r) == turn(protocol, response@, answers));
    r
}

/// Decodes a response, asking the extension of each native item before it is decoded.
pub fn decode_with(
    extension: &mut Option<Box<dyn ProtocolExtension>>,
    protocol: Protocol,
    response: &Json,
) -> (r: Result<TurnOutput, Error>)
    ensures
        exists|answers: Seq<AnswerView<Seq<OutputView>>>|
            {
                &&& seen(r) == #[trigger] turn(protocol, response@, answers)
                &&& *old(extension) is None ==> answers.len() == 0
            },
        *final(extension) is Some <==> *old(extension) is Some,
        *old(extension) is Some ==> exists|
            answers: Seq<AnswerView<Seq<OutputView>>>,
            xs: Seq<&mut dyn ProtocolExtension>,
            states: Seq<&dyn ProtocolExtension>,
        |
            {
                &&& #[trigger] conversed(
                    xs,
                    states,
                    protocol,
                    item_log(native_list(protocol, response@), response@, answers),
                )
                &&& items_asked(protocol, response@, answers)
                &&& seen(r) == turn(protocol, response@, answers)
                &&& states[0] == &*(old(extension)->0)
                &&& states.last() == &*(final(extension)->0)
                &&& forall|i: int| 0 <= i < xs.len() ==> &*final(#[trigger] xs[i]) == states[i + 1]
            },
{
    match extension {
        None => {
            let none: Vec<Answer<Vec<Output>>> = Vec::new();
            assert(none.deep_view() =~= Seq::empty());
            decode(protocol, response, &none)
        },
        Some(hooks) => decode_asking(&mut **hooks, protocol, response),
    }
}

} // verus!
