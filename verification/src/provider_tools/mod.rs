//! Provider tool codecs that users own, composed within one model invocation.
pub mod output;
pub mod record;

use crate::error::{invalid, protocol, seen, Error, ErrorView};
use crate::extension::{
    answer, as_answer, asked_one_more, asked_while_open, call3, call4, failed, gathered, in_turn,
    item_of, join_answers, owned_among, owner, settle, untouched, Answer, AnswerView,
    ProtocolExtension,
};
use crate::json::{Json, JsonView};
use crate::message::{Output, OutputView, ProviderToolCall, ProviderToolCallView};
use crate::model::{
    ModelDelta, ModelDeltaView, Protocol, ProviderToolSpec, ProviderToolSpecView,
};
use crate::provider_tools::output::{replayed, ProviderOutput};
use crate::text::{before, is_empty, precedes, same};
use crate::transport::sse::{SseEvent, SseEventView};
use vstd::prelude::*;

verus! {

/// One provider capability. Native types, the meaning of statuses and replay belong to
/// whoever implements it.
pub trait ProviderToolAdapter: Send {
    /// The provider and the name of the tool.
    fn identity(&self) -> (&str, &str);

    /// Declares the tool.
    fn encode(&mut self, protocol: Protocol, tool: &ProviderToolSpec) -> Result<Json, Error>;

    /// Reads an output item, where it is one of this tool.
    fn decode(&mut self, protocol: Protocol, item: &Json, response: &Json) -> Result<
        Option<Vec<Output>>,
        Error,
    >;

    /// The native items that stand for a call in the history.
    fn replay(&mut self, protocol: Protocol, call: &ProviderToolCall) -> (r: Result<
        Vec<Json>,
        Error,
    >)
        default_ensures
            seen(r) == replayed(call@),
    {
        ProviderOutput::replay(call)
    }

    /// Selects the tool.
    fn choice(&mut self, protocol: Protocol, tool: &ProviderToolSpec) -> (r: Result<Json, Error>)
        default_ensures
            seen(r) == Err::<crate::json::JsonView, ErrorView>(
                ErrorView::Invalid("provider adapter does not define explicit tool selection"@),
            ),
    {
        Err(invalid("provider adapter does not define explicit tool selection"))
    }

    /// Progress that a wire event reports.
    fn event(&mut self, protocol: Protocol, event: &SseEvent) -> (r: Result<
        Vec<ModelDelta>,
        Error,
    >)
        default_ensures
            r is Ok && r->Ok_0@.len() == 0,
    {
        Ok(Vec::new())
    }
}

// ---------------------------------------------------------------------------------------
// The registry
// ---------------------------------------------------------------------------------------
struct Entry<A: ?Sized> {
    provider: String,
    name: String,
    enabled: bool,
    adapter: Box<A>,
}

/// An adapter by its identity, and whether the request declared its tool.
pub struct Registered {
    pub provider: Seq<char>,
    pub name: Seq<char>,
    pub enabled: bool,
}

/// Adapters by identity, in the order of their identities.
pub struct ProviderTools {
    entries: Vec<Entry<dyn ProviderToolAdapter>>,
}

spec fn registered<A: ?Sized>(entry: Entry<A>) -> Registered {
    Registered { provider: entry.provider@, name: entry.name@, enabled: entry.enabled }
}

impl ProviderTools {
    /// The adapters, in order.
    pub closed spec fn adapters(self) -> Seq<Box<dyn ProviderToolAdapter>> {
        self.entries@.map_values(|e: Entry<dyn ProviderToolAdapter>| e.adapter)
    }
}

impl View for ProviderTools {
    type V = Seq<Registered>;

    closed spec fn view(&self) -> Seq<Registered> {
        self.entries@.map_values(|e: Entry<dyn ProviderToolAdapter>| registered(e))
    }
}

/// Whether an identity comes before that of an adapter.
pub open spec fn sooner(provider: Seq<char>, name: Seq<char>, entry: Registered) -> bool {
    before(provider, entry.provider) || (provider == entry.provider && before(name, entry.name))
}

/// Where an identity is placed: in front of the first adapter that follows it.
pub open spec fn slot(entries: Seq<Registered>, provider: Seq<char>, name: Seq<char>) -> nat
    decreases entries.len(),
{
    if entries.len() == 0 || sooner(provider, name, entries[0]) {
        0
    } else {
        1 + slot(entries.skip(1), provider, name)
    }
}

proof fn slot_bound(entries: Seq<Registered>, provider: Seq<char>, name: Seq<char>)
    ensures
        slot(entries, provider, name) <= entries.len(),
    decreases entries.len(),
{
    if entries.len() > 0 && !sooner(provider, name, entries[0]) {
        slot_bound(entries.skip(1), provider, name);
    }
}

/// Whether an adapter has that identity.
pub open spec fn known(entries: Seq<Registered>, provider: Seq<char>, name: Seq<char>) -> bool {
    exists|i: int| #[trigger] at(entries, provider, name, i)
}

/// Whether the adapter at a position has that identity.
pub open spec fn at(entries: Seq<Registered>, provider: Seq<char>, name: Seq<char>, i: int) -> bool {
    0 <= i < entries.len() && entries[i].provider == provider && entries[i].name == name
}

/// The adapters with one more.
pub open spec fn with_adapter(entries: Seq<Registered>, provider: Seq<char>, name: Seq<char>) -> Result<
    Seq<Registered>,
    ErrorView,
> {
    if provider.len() == 0 || name.len() == 0 || known(entries, provider, name) {
        Err(ErrorView::Invalid("provider adapter identities must be nonempty and unique"@))
    } else {
        Ok(
            entries.insert(
                slot(entries, provider, name) as int,
                Registered { provider, name, enabled: false },
            ),
        )
    }
}

/// Whether no two adapters have one identity.
pub open spec fn distinct(entries: Seq<Registered>) -> bool {
    forall|i: int, j: int|
        0 <= i < j < entries.len() ==> (#[trigger] entries[i]).provider != (
        #[trigger] entries[j]).provider || entries[i].name != entries[j].name
}

/// No identity is registered twice.
pub proof fn identities_stay_distinct(
    entries: Seq<Registered>,
    provider: Seq<char>,
    name: Seq<char>,
)
    requires
        distinct(entries),
        with_adapter(entries, provider, name) is Ok,
    ensures
        distinct(with_adapter(entries, provider, name)->Ok_0),
        known(with_adapter(entries, provider, name)->Ok_0, provider, name),
{
    let k = slot(entries, provider, name) as int;
    let more = with_adapter(entries, provider, name)->Ok_0;
    slot_bound(entries, provider, name);
    assert(at(more, provider, name, k));
    assert forall|i: int, j: int| 0 <= i < j < more.len() implies (#[trigger] more[i]).provider != (
    #[trigger] more[j]).provider || more[i].name != more[j].name by {
        let from = |n: int|
            if n < k {
                n
            } else {
                n - 1
            };
        if i == k {
            assert(!at(entries, provider, name, from(j)));
        } else if j == k {
            assert(!at(entries, provider, name, from(i)));
        } else {
            assert(more[i] == entries[from(i)]);
            assert(more[j] == entries[from(j)]);
        }
    }
}

/// Whether an adapter stands at a position, with the others around it in their order.
pub open spec fn placed<A: ?Sized>(
    adapter: &A,
    i: int,
    before: Seq<Box<A>>,
    after: Seq<Box<A>>,
) -> bool {
    &&& after.len() == before.len() + 1
    &&& forall|j: int|
        0 <= j < after.len() ==> &*(#[trigger] after[j]) == (if j < i {
            &*before[j]
        } else if j == i {
            adapter
        } else {
            &*before[j - 1]
        })
}

/// Whether an adapter names that identity.
pub open spec fn named<A: ProviderToolAdapter + ?Sized>(
    adapter: &A,
    provider: Seq<char>,
    name: Seq<char>,
) -> bool {
    exists|p: &str, n: &str|
        #[trigger] call_ensures(A::identity, (adapter,), (p, n)) && p@ == provider && n@ == name
}

fn call1<A, R, F: FnOnce(A) -> R>(f: F, a: A) -> (r: R)
    requires
        f.requires((a,)),
    ensures
        f.ensures((a,), r),
{
    f(a)
}

/// Asks an adapter for its identity.
fn ask_identity<A: ProviderToolAdapter + ?Sized>(adapter: &A) -> (r: (&str, &str))
    ensures
        named(adapter, r.0@, r.1@),
{
    let r = call1(A::identity, adapter);
    assert(call_ensures(A::identity, (adapter,), (r.0, r.1)));
    r
}

fn place<T>(items: &mut Vec<T>, i: usize, item: T)
    requires
        i <= old(items)@.len(),
    ensures
        final(items)@ == old(items)@.insert(i as int, item),
        final(items)@.len() == old(items)@.len() + 1,
        forall|j: int|
            0 <= j < final(items)@.len() ==> #[trigger] final(items)@[j] == (if j < i {
                old(items)@[j]
            } else if j == i {
                item
            } else {
                old(items)@[j - 1]
            }),
{
    items.insert(i, item);
}

impl ProviderTools {
    pub fn new() -> (r: ProviderTools)
        ensures
            r@ == Seq::<Registered>::empty(),
    {
        ProviderTools { entries: Vec::new() }
    }

    fn find(&self, provider: &str, name: &str) -> (r: Option<usize>)
        ensures
            match r {
                Some(i) => at(self@, provider@, name@, i as int),
                None => !known(self@, provider@, name@),
            },
    {
        let mut i: usize = 0;
        while i < self.entries.len()
            invariant
                i <= self.entries@.len(),
                forall|j: int| 0 <= j < i ==> !#[trigger] at(self@, provider@, name@, j),
            decreases self.entries@.len() - i,
        {
            if same(&self.entries[i].provider, provider) && same(&self.entries[i].name, name) {
                return Some(i);
            }
            i += 1;
        }
        None
    }

    fn slot_for(&self, provider: &str, name: &str) -> (r: usize)
        ensures
            r == slot(self@, provider@, name@),
            r <= self.entries@.len(),
    {
        let mut i: usize = 0;
        assert(self@.skip(0) =~= self@);
        while i < self.entries.len()
            invariant
                i <= self.entries@.len(),
                slot(self@, provider@, name@) == i + slot(self@.skip(i as int), provider@, name@),
            decreases self.entries@.len() - i,
        {
            let entry = &self.entries[i];
            assert(self@.skip(i as int)[0] == registered(*entry));
            assert(self@.skip(i as int).skip(1) =~= self@.skip(i + 1));
            if precedes(provider, &entry.provider) || (same(provider, &entry.provider) && precedes(
                name,
                &entry.name,
            )) {
                return i;
            }
            i += 1;
        }
        i
    }

    fn enroll(&mut self, entry: Entry<dyn ProviderToolAdapter>) -> (r: Result<(), Error>)
        requires
            !entry.enabled,
        ensures
            match with_adapter(old(self)@, entry.provider@, entry.name@) {
                Ok(entries) => r is Ok && final(self)@ == entries && placed(
                    &*entry.adapter,
                    slot(old(self)@, entry.provider@, entry.name@) as int,
                    old(self).adapters(),
                    final(self).adapters(),
                ),
                Err(e) => r is Err && r->Err_0@ == e && *final(self) == *old(self),
            },
    {
        if is_empty(&entry.provider) || is_empty(&entry.name) || self.find(
            &entry.provider,
            &entry.name,
        ).is_some() {
            return Err(invalid("provider adapter identities must be nonempty and unique"));
        }
        let i: usize = self.slot_for(&entry.provider, &entry.name);
        place(&mut self.entries, i, entry);
        assert(self@ =~= old(self)@.insert(i as int, registered(entry)));
        assert(placed(&*entry.adapter, i as int, old(self).adapters(), self.adapters()));
        Ok(())
    }

    /// Registers an adapter under an identity.
    pub fn register_as(
        &mut self,
        provider: String,
        name: String,
        adapter: Box<dyn ProviderToolAdapter>,
    ) -> (r: Result<(), Error>)
        ensures
            match with_adapter(old(self)@, provider@, name@) {
                Ok(entries) => r is Ok && final(self)@ == entries && placed(
                    &*adapter,
                    slot(old(self)@, provider@, name@) as int,
                    old(self).adapters(),
                    final(self).adapters(),
                ),
                Err(e) => r is Err && r->Err_0@ == e && *final(self) == *old(self),
            },
    {
        let entry = Entry { provider, name, enabled: false, adapter };
        self.enroll(entry)
    }

    /// Registers an adapter under the identity that it names.
    pub fn register(&mut self, adapter: Box<dyn ProviderToolAdapter>) -> (r: Result<(), Error>)
        ensures
            exists|provider: Seq<char>, name: Seq<char>|
                #[trigger] named(&*adapter, provider, name) && match with_adapter(
                    old(self)@,
                    provider,
                    name,
                ) {
                    Ok(entries) => r is Ok && final(self)@ == entries && placed(
                        &*adapter,
                        slot(old(self)@, provider, name) as int,
                        old(self).adapters(),
                        final(self).adapters(),
                    ),
                    Err(e) => r is Err && r->Err_0@ == e && *final(self) == *old(self),
                },
    {
        let (provider, name) = ask_identity(&*adapter);
        let provider = provider.to_owned();
        let name = name.to_owned();
        let entry = Entry { provider, name, enabled: false, adapter };
        self.enroll(entry)
    }
}

// ---------------------------------------------------------------------------------------
// What an adapter may answer
// ---------------------------------------------------------------------------------------
/// Whether an output item is a call of that tool.
pub open spec fn of_tool(output: OutputView, provider: Seq<char>, name: Seq<char>) -> bool {
    output matches OutputView::ProviderToolCall(call) && call.provider == provider && call.name
        == name
}

/// Whether all output items are calls of that tool.
pub open spec fn all_of_tool(outputs: Seq<OutputView>, provider: Seq<char>, name: Seq<char>) -> bool {
    forall|i: int| 0 <= i < outputs.len() ==> #[trigger] of_tool(outputs[i], provider, name)
}

/// What is made of an adapter's answer: output only of a tool that was enabled, and only
/// under its own identity.
pub open spec fn admitted(entry: Registered, decoded: AnswerView<Seq<OutputView>>) -> AnswerView<
    Seq<OutputView>,
> {
    match decoded {
        AnswerView::Claimed(outputs) => if !entry.enabled {
            AnswerView::Failed(
                ErrorView::Protocol("provider returned a tool that was not enabled"@),
            )
        } else if !all_of_tool(outputs, entry.provider, entry.name) {
            AnswerView::Failed(
                ErrorView::Protocol("provider adapter returned another execution identity"@),
            )
        } else {
            decoded
        },
        _ => decoded,
    }
}

fn are_of_tool(outputs: &Vec<Output>, provider: &str, name: &str) -> (r: bool)
    ensures
        r == all_of_tool(outputs.deep_view(), provider@, name@),
{
    let mut i: usize = 0;
    while i < outputs.len()
        invariant
            i <= outputs@.len(),
            forall|j: int|
                0 <= j < i ==> #[trigger] of_tool(outputs.deep_view()[j], provider@, name@),
        decreases outputs@.len() - i,
    {
        assert(outputs.deep_view()[i as int] == outputs@[i as int]@);
        let own = match &outputs[i] {
            Output::ProviderToolCall(call) => same(&call.provider, provider) && same(
                &call.name,
                name,
            ),
            _ => false,
        };
        if !own {
            assert(!of_tool(outputs.deep_view()[i as int], provider@, name@));
            return false;
        }
        i += 1;
    }
    true
}

/// Holds an adapter's answer to its identity.
pub fn hold_to_identity(provider: &str, name: &str, enabled: bool, decoded: Answer<Vec<Output>>) -> (r: Answer<
    Vec<Output>,
>)
    ensures
        r.deep_view() == admitted(
            Registered { provider: provider@, name: name@, enabled },
            decoded.deep_view(),
        ),
{
    match decoded {
        Answer::Claimed(outputs) => if !enabled {
            Answer::Failed(protocol("provider returned a tool that was not enabled"))
        } else if !are_of_tool(&outputs, provider, name) {
            Answer::Failed(protocol("provider adapter returned another execution identity"))
        } else {
            Answer::Claimed(outputs)
        },
        other => other,
    }
}

/// Holds an adapter's declaration to an object.
pub fn check_declaration(encoded: Result<Json, Error>) -> (r: Result<Json, Error>)
    ensures
        seen(r) == (match seen(encoded) {
            Ok(value) => if value is Object {
                Ok(value)
            } else {
                Err(ErrorView::Invalid("provider declaration must encode an object"@))
            },
            Err(e) => Err(e),
        }),
{
    let value = encoded?;
    if !value.is_object() {
        return Err(invalid("provider declaration must encode an object"));
    }
    Ok(value)
}

/// Whether a delta is progress of that tool.
pub open spec fn progress_of(delta: ModelDeltaView, provider: Seq<char>, name: Seq<char>) -> bool {
    delta matches ModelDeltaView::ProviderToolProgress { provider: p, name: n, .. } && p == provider
        && n == name
}

/// Whether all deltas are progress of that tool.
pub open spec fn all_progress_of(
    deltas: Seq<ModelDeltaView>,
    provider: Seq<char>,
    name: Seq<char>,
) -> bool {
    forall|i: int| 0 <= i < deltas.len() ==> #[trigger] progress_of(deltas[i], provider, name)
}

/// Holds the deltas of an adapter to its identity.
pub fn check_progress(provider: &str, name: &str, deltas: Vec<ModelDelta>) -> (r: Result<
    Vec<ModelDelta>,
    Error,
>)
    ensures
        seen(r) == (if all_progress_of(deltas.deep_view(), provider@, name@) {
            Ok(deltas.deep_view())
        } else {
            Err(ErrorView::Protocol("provider adapter emitted another execution identity"@))
        }),
{
    let mut i: usize = 0;
    while i < deltas.len()
        invariant
            i <= deltas@.len(),
            forall|j: int|
                0 <= j < i ==> #[trigger] progress_of(deltas.deep_view()[j], provider@, name@),
        decreases deltas@.len() - i,
    {
        assert(deltas.deep_view()[i as int] == deltas@[i as int]@);
        let own = match &deltas[i] {
            ModelDelta::ProviderToolProgress { provider: p, name: n, .. } => same(p, provider)
                && same(n, name),
            _ => false,
        };
        if !own {
            assert(!progress_of(deltas.deep_view()[i as int], provider@, name@));
            return Err(protocol("provider adapter emitted another execution identity"));
        }
        i += 1;
    }
    Ok(deltas)
}

/// Whether an adapter, from the state that `x` refers to, gave that declaration of a tool.
pub open spec fn declared<A: ProviderToolAdapter + ?Sized>(
    x: &mut A,
    protocol: Protocol,
    tool: ProviderToolSpecView,
    outcome: Result<JsonView, ErrorView>,
) -> bool {
    exists|t: &ProviderToolSpec, r: Result<Json, Error>|
        #[trigger] call_ensures(A::encode, (x, protocol, t), r) && t@ == tool && seen(r) == outcome
}

/// Asks an adapter to declare its tool.
fn ask_declared<A: ProviderToolAdapter + ?Sized>(
    adapter: &mut A,
    protocol: Protocol,
    tool: &ProviderToolSpec,
) -> (r: Result<Json, Error>)
    ensures
        exists|x: &mut A|
            #[trigger] declared(x, protocol, tool@, seen(r)) && &*x == &*old(adapter) && &*final(x)
                == &*final(adapter),
{
    let r = call3(A::encode, adapter, protocol, tool);
    proof {
        let x = choose|x: &mut A|
            #[trigger] call_ensures(A::encode, (x, protocol, tool), r) && &*x == &*old(adapter)
                && &*final(x) == &*adapter;
        assert(declared(x, protocol, tool@, seen(r)));
    }
    r
}

/// Whether an adapter, from the state that `x` refers to, gave that selection of a tool.
pub open spec fn selected<A: ProviderToolAdapter + ?Sized>(
    x: &mut A,
    protocol: Protocol,
    tool: ProviderToolSpecView,
    outcome: Result<JsonView, ErrorView>,
) -> bool {
    exists|t: &ProviderToolSpec, r: Result<Json, Error>|
        #[trigger] call_ensures(A::choice, (x, protocol, t), r) && t@ == tool && seen(r) == outcome
}

/// Asks an adapter to select its tool.
fn ask_selected<A: ProviderToolAdapter + ?Sized>(
    adapter: &mut A,
    protocol: Protocol,
    tool: &ProviderToolSpec,
) -> (r: Result<Json, Error>)
    ensures
        exists|x: &mut A|
            #[trigger] selected(x, protocol, tool@, seen(r)) && &*x == &*old(adapter) && &*final(x)
                == &*final(adapter),
{
    let r = call3(A::choice, adapter, protocol, tool);
    proof {
        let x = choose|x: &mut A|
            #[trigger] call_ensures(A::choice, (x, protocol, tool), r) && &*x == &*old(adapter)
                && &*final(x) == &*adapter;
        assert(selected(x, protocol, tool@, seen(r)));
    }
    r
}

/// Whether an adapter, from the state that `x` refers to, gave those items for a call.
pub open spec fn repeated<A: ProviderToolAdapter + ?Sized>(
    x: &mut A,
    protocol: Protocol,
    call: ProviderToolCallView,
    outcome: Result<Seq<JsonView>, ErrorView>,
) -> bool {
    exists|c: &ProviderToolCall, r: Result<Vec<Json>, Error>|
        #[trigger] call_ensures(A::replay, (x, protocol, c), r) && c@ == call && seen(r) == outcome
}

/// Asks an adapter for the items that stand for a call.
fn ask_repeated<A: ProviderToolAdapter + ?Sized>(
    adapter: &mut A,
    protocol: Protocol,
    call: &ProviderToolCall,
) -> (r: Result<Vec<Json>, Error>)
    ensures
        exists|x: &mut A|
            #[trigger] repeated(x, protocol, call@, seen(r)) && &*x == &*old(adapter) && &*final(x)
                == &*final(adapter),
{
    let r = call3(A::replay, adapter, protocol, call);
    proof {
        let x = choose|x: &mut A|
            #[trigger] call_ensures(A::replay, (x, protocol, call), r) && &*x == &*old(adapter)
                && &*final(x) == &*adapter;
        assert(repeated(x, protocol, call@, seen(r)));
    }
    r
}

/// Whether an adapter, from the state that `x` refers to, gave that answer to an output item.
pub open spec fn recognized<A: ProviderToolAdapter + ?Sized>(
    x: &mut A,
    protocol: Protocol,
    item: JsonView,
    response: JsonView,
    answer: AnswerView<Seq<OutputView>>,
) -> bool {
    exists|i: &Json, all: &Json, r: Result<Option<Vec<Output>>, Error>|
        #[trigger] call_ensures(A::decode, (x, protocol, i, all), r) && i@ == item && all@
            == response && as_answer(r) == answer
}

/// Asks an adapter to read an output item.
fn ask_recognized<A: ProviderToolAdapter + ?Sized>(
    adapter: &mut A,
    protocol: Protocol,
    item: &Json,
    response: &Json,
) -> (r: Result<Option<Vec<Output>>, Error>)
    ensures
        exists|x: &mut A|
            #[trigger] recognized(x, protocol, item@, response@, as_answer(r)) && &*x == &*old(
                adapter
            ) && &*final(x) == &*final(adapter),
{
    let r = call4(A::decode, adapter, protocol, item, response);
    proof {
        let x = choose|x: &mut A|
            #[trigger] call_ensures(A::decode, (x, protocol, item, response), r) && &*x == &*old(adapter)
                && &*final(x) == &*adapter;
        assert(recognized(x, protocol, item@, response@, as_answer(r)));
    }
    r
}

/// Whether the answers are those of the first adapters, in order.
pub open spec fn recognized_by<A: ProviderToolAdapter + ?Sized>(
    xs: Seq<&mut A>,
    before: Seq<Box<A>>,
    protocol: Protocol,
    item: JsonView,
    response: JsonView,
    answers: Seq<AnswerView<Seq<OutputView>>>,
) -> bool {
    &&& xs.len() == answers.len()
    &&& answers.len() <= before.len()
    &&& forall|i: int|
        0 <= i < answers.len() ==> &*(#[trigger] xs[i]) == &*before[i] && recognized(
            xs[i],
            protocol,
            item,
            response,
            answers[i],
        )
}

/// One adapter more was asked.
proof fn one_more_recognized<A: ProviderToolAdapter + ?Sized>(
    first: Seq<Box<A>>,
    prior: Seq<Box<A>>,
    next: Seq<Box<A>>,
    n: int,
    protocol: Protocol,
    item: JsonView,
    response: JsonView,
    answers: Seq<AnswerView<Seq<OutputView>>>,
    answer: AnswerView<Seq<OutputView>>,
)
    requires
        0 <= n < first.len(),
        answers.len() == n,
        untouched(first, prior, n as nat),
        others_kept(n, prior, next),
        exists|xs: Seq<&mut A>|
            #[trigger] recognized_by(xs, first, protocol, item, response, answers) && forall|i: int|
                0 <= i < xs.len() ==> &*final(#[trigger] xs[i]) == &*prior[i],
        exists|x: &mut A|
            #[trigger] recognized(x, protocol, item, response, answer) && &*x == &*prior[n]
                && &*final(x) == &*next[n],
    ensures
        untouched(first, next, (n + 1) as nat),
        exists|xs: Seq<&mut A>|
            #[trigger] recognized_by(xs, first, protocol, item, response, answers.push(answer))
                && forall|i: int|
                0 <= i < xs.len() ==> &*final(#[trigger] xs[i]) == &*next[i],
{
    let xs = choose|xs: Seq<&mut A>|
        #[trigger] recognized_by(xs, first, protocol, item, response, answers) && forall|i: int|
            0 <= i < xs.len() ==> &*final(#[trigger] xs[i]) == &*prior[i];
    let x = choose|x: &mut A|
        #[trigger] recognized(x, protocol, item, response, answer) && &*x == &*prior[n]
            && &*final(x) == &*next[n];
    let ys = xs.push(x);
    let more = answers.push(answer);
    assert(recognized_by(ys, first, protocol, item, response, more)) by {
        assert forall|i: int| 0 <= i < more.len() implies &*(#[trigger] ys[i]) == &*first[i]
            && recognized(ys[i], protocol, item, response, more[i]) by {
            if i < n {
                assert(ys[i] == xs[i]);
            } else {
                assert(prior[n] == first[n]);
            }
        }
    }
    assert forall|i: int| 0 <= i < ys.len() implies &*final(#[trigger] ys[i]) == &*next[i] by {
        if i < n {
            assert(ys[i] == xs[i]);
            assert(next[i] == prior[i]);
        }
    }
}

/// Whether all adapters but the one at a position are as they were.
pub open spec fn others_kept<A: ?Sized>(i: int, before: Seq<Box<A>>, after: Seq<Box<A>>) -> bool {
    &&& before.len() == after.len()
    &&& forall|j: int| 0 <= j < before.len() && j != i ==> #[trigger] after[j] == before[j]
}

/// What is made of an adapter's declaration.
pub open spec fn declaration(outcome: Result<JsonView, ErrorView>) -> AnswerView<JsonView> {
    match outcome {
        Ok(value) => if value is Object {
            AnswerView::Claimed(value)
        } else {
            AnswerView::Failed(ErrorView::Invalid("provider declaration must encode an object"@))
        },
        Err(e) => AnswerView::Failed(e),
    }
}

/// What is made of an outcome that is handed on as it is.
pub open spec fn handed_on<T>(outcome: Result<T, ErrorView>) -> AnswerView<T> {
    match outcome {
        Ok(value) => AnswerView::Claimed(value),
        Err(e) => AnswerView::Failed(e),
    }
}

/// What is made of an adapter's report: progress only under its own identity.
pub open spec fn held(
    entry: Registered,
    outcome: Result<Seq<ModelDeltaView>, ErrorView>,
) -> Result<Seq<ModelDeltaView>, ErrorView> {
    match outcome {
        Ok(deltas) => if all_progress_of(deltas, entry.provider, entry.name) {
            outcome
        } else {
            Err(ErrorView::Protocol("provider adapter emitted another execution identity"@))
        },
        Err(_) => outcome,
    }
}

/// What is made of the reports of all adapters, in order.
pub open spec fn all_held(
    entries: Seq<Registered>,
    outcomes: Seq<Result<Seq<ModelDeltaView>, ErrorView>>,
) -> Seq<Result<Seq<ModelDeltaView>, ErrorView>> {
    Seq::new(outcomes.len(), |i: int| held(entries[i], outcomes[i]))
}

/// Whether an adapter, in the state that `x` refers to, gave that outcome for a wire event
/// and was left in the state that `x` refers to at last.
pub open spec fn reported<A: ProviderToolAdapter + ?Sized>(
    x: &mut A,
    protocol: Protocol,
    event: SseEventView,
    outcome: Result<Seq<ModelDeltaView>, ErrorView>,
) -> bool {
    exists|e: &SseEvent, r: Result<Vec<ModelDelta>, Error>|
        #[trigger] call_ensures(A::event, (x, protocol, e), r) && e@ == event && seen(r) == outcome
}

/// Whether the outcomes are those of the first adapters, in order. One whose tool is not
/// enabled is not asked and reports nothing.
pub open spec fn reported_by<A: ProviderToolAdapter + ?Sized>(
    xs: Seq<&mut A>,
    before: Seq<Box<A>>,
    entries: Seq<Registered>,
    protocol: Protocol,
    event: SseEventView,
    outcomes: Seq<Result<Seq<ModelDeltaView>, ErrorView>>,
) -> bool {
    &&& xs.len() == outcomes.len()
    &&& outcomes.len() <= before.len()
    &&& forall|i: int|
        0 <= i < outcomes.len() && entries[i].enabled ==> &*(#[trigger] xs[i]) == &*before[i]
            && reported(xs[i], protocol, event, outcomes[i])
    &&& forall|i: int|
        0 <= i < outcomes.len() && !entries[i].enabled ==> #[trigger] outcomes[i] == Ok::<
            Seq<ModelDeltaView>,
            ErrorView,
        >(Seq::empty())
}

/// Whether the adapters that were not asked are as they were: those whose tool is not
/// enabled, and those after the first ones.
pub open spec fn left_alone<A: ?Sized>(
    entries: Seq<Registered>,
    before: Seq<Box<A>>,
    after: Seq<Box<A>>,
    first: nat,
) -> bool {
    &&& before.len() == after.len()
    &&& forall|i: int|
        0 <= i < before.len() && (first <= i || !entries[i].enabled) ==> #[trigger] after[i]
            == before[i]
}

/// Asks an adapter what a wire event reports.
fn ask_progress<A: ProviderToolAdapter + ?Sized>(
    adapter: &mut A,
    protocol: Protocol,
    event: &SseEvent,
) -> (r: Result<Vec<ModelDelta>, Error>)
    ensures
        exists|x: &mut A|
            #[trigger] reported(x, protocol, event@, seen(r)) && &*x == &*old(adapter)
                && &*final(x) == &*final(adapter),
{
    let r = call3(A::event, adapter, protocol, event);
    proof {
        let x = choose|x: &mut A|
            #[trigger] call_ensures(A::event, (x, protocol, event), r) && &*x == &*old(adapter)
                && &*final(x) == &*adapter;
        assert(reported(x, protocol, event@, seen(r)));
    }
    r
}

/// One adapter more: it was asked, or its tool is not enabled.
proof fn one_more_reported<A: ProviderToolAdapter + ?Sized>(
    first: Seq<Box<A>>,
    prior: Seq<Box<A>>,
    next: Seq<Box<A>>,
    entries: Seq<Registered>,
    n: int,
    protocol: Protocol,
    event: SseEventView,
    outcomes: Seq<Result<Seq<ModelDeltaView>, ErrorView>>,
    outcome: Result<Seq<ModelDeltaView>, ErrorView>,
)
    requires
        0 <= n < first.len(),
        outcomes.len() == n,
        left_alone(entries, first, prior, n as nat),
        next.len() == first.len(),
        forall|i: int| 0 <= i < first.len() && i != n ==> #[trigger] next[i] == prior[i],
        exists|xs: Seq<&mut A>|
            #[trigger] reported_by(xs, first, entries, protocol, event, outcomes) && forall|i: int|
                0 <= i < xs.len() && entries[i].enabled ==> &*final(#[trigger] xs[i]) == &*prior[i],
        if entries[n].enabled {
            exists|x: &mut A|
                #[trigger] reported(x, protocol, event, outcome) && &*x == &*prior[n] && &*final(x)
                    == &*next[n]
        } else {
            next[n] == prior[n] && outcome == Ok::<Seq<ModelDeltaView>, ErrorView>(Seq::empty())
        },
    ensures
        left_alone(entries, first, next, (n + 1) as nat),
        exists|xs: Seq<&mut A>|
            #[trigger] reported_by(xs, first, entries, protocol, event, outcomes.push(outcome))
                && forall|i: int|
                0 <= i < xs.len() && entries[i].enabled ==> &*final(#[trigger] xs[i]) == &*next[i],
{
    let xs = choose|xs: Seq<&mut A>|
        #[trigger] reported_by(xs, first, entries, protocol, event, outcomes) && forall|i: int|
            0 <= i < xs.len() && entries[i].enabled ==> &*final(#[trigger] xs[i]) == &*prior[i];
    let x: &mut A = if entries[n].enabled {
        choose|x: &mut A|
            #[trigger] reported(x, protocol, event, outcome) && &*x == &*prior[n] && &*final(x)
                == &*next[n]
    } else {
        arbitrary()
    };
    let ys = xs.push(x);
    let more = outcomes.push(outcome);
    assert(reported_by(ys, first, entries, protocol, event, more)) by {
        assert forall|i: int| 0 <= i < more.len() && entries[i].enabled implies &*(
        #[trigger] ys[i]) == &*first[i] && reported(ys[i], protocol, event, more[i]) by {
            if i < n {
                assert(ys[i] == xs[i]);
            } else {
                assert(prior[n] == first[n]);
            }
        }
        assert forall|i: int| 0 <= i < more.len() && !entries[i].enabled implies
            #[trigger] more[i] == Ok::<Seq<ModelDeltaView>, ErrorView>(Seq::empty()) by {
            if i < n {
                assert(more[i] == outcomes[i]);
            }
        }
    }
    assert forall|i: int| 0 <= i < ys.len() && entries[i].enabled implies &*final(
        #[trigger] ys[i]
    ) == &*next[i] by {
        if i < n {
            assert(ys[i] == xs[i]);
            assert(next[i] == prior[i]);
        }
    }
}

/// What is made of the answers of all adapters, in order.
pub open spec fn all_admitted(
    entries: Seq<Registered>,
    decoded: Seq<AnswerView<Seq<OutputView>>>,
) -> Seq<AnswerView<Seq<OutputView>>> {
    Seq::new(decoded.len(), |i: int| admitted(entries[i], decoded[i]))
}

/// Whether each delta is progress of a tool that is enabled.
pub open spec fn enabled_progress(deltas: Seq<ModelDeltaView>, entries: Seq<Registered>) -> bool {
    forall|i: int| 0 <= i < deltas.len() ==> #[trigger] of_enabled(deltas[i], entries)
}

pub open spec fn of_enabled(delta: ModelDeltaView, entries: Seq<Registered>) -> bool {
    exists|k: int|
        0 <= k < entries.len() && (#[trigger] entries[k]).enabled && progress_of(
            delta,
            entries[k].provider,
            entries[k].name,
        )
}

/// The adapters with the one of an identity enabled.
pub open spec fn enable(entries: Seq<Registered>, i: int) -> Seq<Registered> {
    entries.update(i, Registered { enabled: true, ..entries[i] })
}

// ---------------------------------------------------------------------------------------
// As a protocol extension
// ---------------------------------------------------------------------------------------
impl ProtocolExtension for ProviderTools {
    fn encode_provider_tool(&mut self, protocol: Protocol, tool: &ProviderToolSpec) -> (r: Result<
        Option<Json>,
        Error,
    >)
        ensures
            r is Ok && r->Ok_0 is None <==> !known(old(self)@, tool.provider@, tool.name@),
            r matches Ok(Some(value)) ==> value@ is Object && exists|i: int|
                #[trigger] at(old(self)@, tool.provider@, tool.name@, i) && final(self)@ == enable(
                    old(self)@,
                    i,
                ),
            !(r matches Ok(Some(_))) ==> final(self)@ == old(self)@,
            known(old(self)@, tool.provider@, tool.name@) ==> exists|
                i: int,
                x: &mut dyn ProviderToolAdapter,
                outcome: Result<JsonView, ErrorView>,
            |
                {
                    &&& #[trigger] declared(x, protocol, tool@, outcome)
                    &&& #[trigger] at(old(self)@, tool.provider@, tool.name@, i)
                    &&& as_answer(r) == declaration(outcome)
                    &&& &*x == &*old(self).adapters()[i]
                    &&& &*final(x) == &*final(self).adapters()[i]
                    &&& others_kept(i, old(self).adapters(), final(self).adapters())
                },
            !known(old(self)@, tool.provider@, tool.name@) ==> *final(self) == *old(self),
    {
        let i: usize = match self.find(&tool.provider, &tool.name) {
            Some(i) => i,
            None => {
                return Ok(None);
            },
        };
        let encoded = ask_declared(&mut *item_of(&mut self.entries, i).adapter, protocol, tool);
        assert(self@ =~= old(self)@);
        assert(others_kept(i as int, old(self).adapters(), self.adapters()));
        let value = check_declaration(encoded)?;
        let ghost declared_by = self.adapters();
        item_of(&mut self.entries, i).enabled = true;
        assert(self.adapters() =~= declared_by);
        assert(self@ =~= enable(old(self)@, i as int));
        Ok(Some(value))
    }

    fn encode_provider_choice(&mut self, protocol: Protocol, tool: &ProviderToolSpec) -> (r: Result<
        Option<Json>,
        Error,
    >)
        ensures
            r is Ok && r->Ok_0 is None <==> !known(old(self)@, tool.provider@, tool.name@),
            final(self)@ == old(self)@,
            known(old(self)@, tool.provider@, tool.name@) ==> exists|
                i: int,
                x: &mut dyn ProviderToolAdapter,
                outcome: Result<JsonView, ErrorView>,
            |
                {
                    &&& #[trigger] selected(x, protocol, tool@, outcome)
                    &&& #[trigger] at(old(self)@, tool.provider@, tool.name@, i)
                    &&& as_answer(r) == handed_on(outcome)
                    &&& &*x == &*old(self).adapters()[i]
                    &&& &*final(x) == &*final(self).adapters()[i]
                    &&& others_kept(i, old(self).adapters(), final(self).adapters())
                },
            !known(old(self)@, tool.provider@, tool.name@) ==> *final(self) == *old(self),
    {
        let i: usize = match self.find(&tool.provider, &tool.name) {
            Some(i) => i,
            None => {
                return Ok(None);
            },
        };
        let chosen = ask_selected(&mut *item_of(&mut self.entries, i).adapter, protocol, tool);
        assert(self@ =~= old(self)@);
        assert(others_kept(i as int, old(self).adapters(), self.adapters()));
        Ok(Some(chosen?))
    }

    fn decode_output_item(&mut self, protocol: Protocol, item: &Json, response: &Json) -> (r: Result<
        Option<Vec<Output>>,
        Error,
    >)
        ensures
            final(self)@ == old(self)@,
            exists|
                xs: Seq<&mut dyn ProviderToolAdapter>,
                answers: Seq<AnswerView<Seq<OutputView>>>,
            |
                {
                    &&& #[trigger] recognized_by(
                        xs,
                        old(self).adapters(),
                        protocol,
                        item@,
                        response@,
                        answers,
                    )
                    &&& owned_among(r, all_admitted(old(self)@, answers), old(self)@.len())
                    &&& untouched(old(self).adapters(), final(self).adapters(), answers.len())
                    &&& forall|i: int|
                        0 <= i < xs.len() ==> &*final(#[trigger] xs[i]) == &*final(
                            self
                        ).adapters()[i]
                },
    {
        let ghost first = self.adapters();
        let ghost mut answers: Seq<AnswerView<Seq<OutputView>>> = Seq::empty();
        let mut found: Answer<Vec<Output>> = Answer::Unclaimed;
        let mut i: usize = 0;
        assert(all_admitted(self@, answers) =~= Seq::empty());
        assert(recognized_by(
            Seq::<&mut dyn ProviderToolAdapter>::empty(),
            first,
            protocol,
            item@,
            response@,
            answers,
        ));
        while i < self.entries.len() && !failed(&found)
            invariant
                i <= self.entries@.len(),
                first == old(self).adapters(),
                first.len() == self.entries@.len(),
                self@ == old(self)@,
                answers.len() == i,
                owner(all_admitted(self@, answers)) == found.deep_view(),
                asked_while_open(all_admitted(self@, answers)),
                untouched(first, self.adapters(), i as nat),
                exists|xs: Seq<&mut dyn ProviderToolAdapter>|
                    #[trigger] recognized_by(xs, first, protocol, item@, response@, answers)
                        && forall|j: int|
                        0 <= j < xs.len() ==> &*final(#[trigger] xs[j]) == &*self.adapters()[j],
            decreases self.entries@.len() - i,
        {
            let ghost entries = self@;
            let ghost prior = self.adapters();
            let result = ask_recognized(
                &mut *item_of(&mut self.entries, i).adapter,
                protocol,
                item,
                response,
            );
            let own = answer(result);
            let ghost more = answers.push(own.deep_view());
            proof {
                assert(self@ =~= entries);
                assert(prior[i as int] == first[i as int]);
                assert(others_kept(i as int, prior, self.adapters()));
                one_more_recognized(
                    first,
                    prior,
                    self.adapters(),
                    i as int,
                    protocol,
                    item@,
                    response@,
                    answers,
                    own.deep_view(),
                );
            }
            let entry = &self.entries[i];
            assert(registered(*entry) == self@[i as int]);
            let next = hold_to_identity(&entry.provider, &entry.name, entry.enabled, own);
            proof {
                assert(all_admitted(self@, more).drop_last() =~= all_admitted(self@, answers));
                asked_one_more(all_admitted(self@, more));
                answers = more;
            }
            found = join_answers(found, next);
            i += 1;
        }
        let r = settle(found);
        assert(owned_among(r, all_admitted(old(self)@, answers), old(self)@.len()));
        r
    }

    fn encode_provider_history(&mut self, protocol: Protocol, call: &ProviderToolCall) -> (r: Result<
        Option<Vec<Json>>,
        Error,
    >)
        ensures
            r is Ok && r->Ok_0 is None <==> !known(old(self)@, call.provider@, call.name@),
            final(self)@ == old(self)@,
            known(old(self)@, call.provider@, call.name@) ==> exists|
                i: int,
                x: &mut dyn ProviderToolAdapter,
                outcome: Result<Seq<JsonView>, ErrorView>,
            |
                {
                    &&& #[trigger] repeated(x, protocol, call@, outcome)
                    &&& #[trigger] at(old(self)@, call.provider@, call.name@, i)
                    &&& as_answer(r) == handed_on(outcome)
                    &&& &*x == &*old(self).adapters()[i]
                    &&& &*final(x) == &*final(self).adapters()[i]
                    &&& others_kept(i, old(self).adapters(), final(self).adapters())
                },
            !known(old(self)@, call.provider@, call.name@) ==> *final(self) == *old(self),
    {
        let i: usize = match self.find(&call.provider, &call.name) {
            Some(i) => i,
            None => {
                return Ok(None);
            },
        };
        let items = ask_repeated(&mut *item_of(&mut self.entries, i).adapter, protocol, call);
        assert(self@ =~= old(self)@);
        assert(others_kept(i as int, old(self).adapters(), self.adapters()));
        Ok(Some(items?))
    }

    fn decode_event(&mut self, protocol: Protocol, event: &mut SseEvent) -> (r: Result<
        Vec<ModelDelta>,
        Error,
    >)
        ensures
            final(self)@ == old(self)@,
            final(event)@ == old(event)@,
            r is Ok ==> enabled_progress(r->Ok_0.deep_view(), old(self)@),
            (forall|i: int| 0 <= i < old(self)@.len() ==> !(#[trigger] old(self)@[i]).enabled) ==> r
                is Ok,
            exists|
                xs: Seq<&mut dyn ProviderToolAdapter>,
                outcomes: Seq<Result<Seq<ModelDeltaView>, ErrorView>>,
            |
                {
                    &&& #[trigger] reported_by(
                        xs,
                        old(self).adapters(),
                        old(self)@,
                        protocol,
                        old(event)@,
                        outcomes,
                    )
                    &&& in_turn(all_held(old(self)@, outcomes), old(self)@.len())
                    &&& seen(r) == gathered(all_held(old(self)@, outcomes))
                    &&& left_alone(
                        old(self)@,
                        old(self).adapters(),
                        final(self).adapters(),
                        outcomes.len(),
                    )
                    &&& forall|i: int|
                        0 <= i < xs.len() && old(self)@[i].enabled ==> &*final(
                            #[trigger] xs[i]
                        ) == &*final(self).adapters()[i]
                },
    {
        let ghost first = self.adapters();
        let ghost entries = self@;
        let ghost mut outcomes: Seq<Result<Seq<ModelDeltaView>, ErrorView>> = Seq::empty();
        let mut deltas: Vec<ModelDelta> = Vec::new();
        let mut i: usize = 0;
        proof {
            assert(deltas.deep_view() =~= Seq::empty());
            assert(all_held(entries, outcomes) =~= Seq::empty());
            assert(reported_by(
                Seq::<&mut dyn ProviderToolAdapter>::empty(),
                first,
                entries,
                protocol,
                event@,
                outcomes,
            ));
        }
        while i < self.entries.len()
            invariant
                i <= self.entries@.len(),
                entries == old(self)@,
                first == old(self).adapters(),
                first.len() == self.entries@.len(),
                self@ == entries,
                event@ == old(event)@,
                outcomes.len() == i,
                in_turn(all_held(entries, outcomes), i as nat),
                forall|j: int| 0 <= j < i ==> (#[trigger] all_held(entries, outcomes)[j]) is Ok,
                gathered(all_held(entries, outcomes)) == Ok::<Seq<ModelDeltaView>, ErrorView>(
                    deltas.deep_view(),
                ),
                enabled_progress(deltas.deep_view(), entries),
                left_alone(entries, first, self.adapters(), i as nat),
                exists|xs: Seq<&mut dyn ProviderToolAdapter>|
                    #[trigger] reported_by(xs, first, entries, protocol, event@, outcomes)
                        && forall|j: int|
                        0 <= j < xs.len() && entries[j].enabled ==> &*final(
                            #[trigger] xs[j]
                        ) == &*self.adapters()[j],
            decreases self.entries@.len() - i,
        {
            let ghost prior = self.adapters();
            let ghost given = deltas.deep_view();
            assert(entries[i as int] == registered(self.entries@[i as int]));
            let result = if self.entries[i].enabled {
                ask_progress(&mut *item_of(&mut self.entries, i).adapter, protocol, &*event)
            } else {
                let nothing: Vec<ModelDelta> = Vec::new();
                assert(nothing.deep_view() =~= Seq::empty());
                Ok(nothing)
            };
            let ghost outcome = seen(result);
            let ghost told = all_held(entries, outcomes);
            proof {
                assert(self@ =~= entries);
                assert(prior[i as int] == first[i as int]);
                one_more_reported(
                    first,
                    prior,
                    self.adapters(),
                    entries,
                    i as int,
                    protocol,
                    event@,
                    outcomes,
                    outcome,
                );
                outcomes = outcomes.push(outcome);
                assert(all_held(entries, outcomes) =~= told.push(held(entries[i as int], outcome)));
                assert(told.push(held(entries[i as int], outcome)).drop_last() =~= told);
            }
            let deltas_of = result?;
            let entry = &self.entries[i];
            let mut more = check_progress(&entry.provider, &entry.name, deltas_of)?;
            let ghost second = more.deep_view();
            deltas.append(&mut more);
            proof {
                let all = deltas.deep_view();
                assert(all =~= given + second);
                assert forall|j: int| 0 <= j < all.len() implies #[trigger] of_enabled(
                    all[j],
                    entries,
                ) by {
                    if j < given.len() {
                        assert(of_enabled(given[j], entries));
                    } else {
                        let k = j - given.len();
                        assert(progress_of(second[k], entry.provider@, entry.name@));
                        assert(entries[i as int].enabled);
                    }
                }
            }
            i += 1;
        }
        Ok(deltas)
    }
}

/// Output of an adapter is handed on if and only if its tool was enabled and all of it is of
/// that tool; progress if and only if all of it is.
pub proof fn adapters_speak_for_their_tool(
    entry: Registered,
    outputs: Seq<OutputView>,
    deltas: Seq<ModelDeltaView>,
)
    ensures
        match admitted(entry, AnswerView::Claimed(outputs)) {
            AnswerView::Claimed(given) => {
                &&& given == outputs
                &&& entry.enabled
                &&& forall|i: int|
                    0 <= i < outputs.len() ==> ((
                    #[trigger] outputs[i]) matches OutputView::ProviderToolCall(call)
                        && call.provider == entry.provider && call.name == entry.name)
            },
            AnswerView::Unclaimed => false,
            AnswerView::Failed(_) => !entry.enabled || exists|i: int|
                0 <= i < outputs.len() && !((
                #[trigger] outputs[i]) matches OutputView::ProviderToolCall(call) && call.provider
                    == entry.provider && call.name == entry.name),
        },
        admitted(entry, AnswerView::Unclaimed) == AnswerView::<Seq<OutputView>>::Unclaimed,
        match held(entry, Ok(deltas)) {
            Ok(given) => given == deltas && forall|i: int|
                0 <= i < deltas.len() ==> ((
                #[trigger] deltas[i]) matches ModelDeltaView::ProviderToolProgress {
                    provider,
                    name,
                    ..
                } && provider == entry.provider && name == entry.name),
            Err(_) => exists|i: int|
                0 <= i < deltas.len() && !((
                #[trigger] deltas[i]) matches ModelDeltaView::ProviderToolProgress {
                    provider,
                    name,
                    ..
                } && provider == entry.provider && name == entry.name),
        },
{
    if all_of_tool(outputs, entry.provider, entry.name) {
        assert forall|i: int| 0 <= i < outputs.len() implies ((
        #[trigger] outputs[i]) matches OutputView::ProviderToolCall(call) && call.provider
            == entry.provider && call.name == entry.name) by {
            assert(of_tool(outputs[i], entry.provider, entry.name));
        }
    }
    if all_progress_of(deltas, entry.provider, entry.name) {
        assert forall|i: int| 0 <= i < deltas.len() implies ((
        #[trigger] deltas[i]) matches ModelDeltaView::ProviderToolProgress { provider, name, .. }
            && provider == entry.provider && name == entry.name) by {
            assert(progress_of(deltas[i], entry.provider, entry.name));
        }
    }
}

/// A new adapter is not enabled, and leaves all others as they were.
pub proof fn a_new_adapter_is_not_enabled(
    entries: Seq<Registered>,
    provider: Seq<char>,
    name: Seq<char>,
    entry: Registered,
)
    ensures
        match with_adapter(entries, provider, name) {
            Ok(all) => {
                &&& all.len() == entries.len() + 1
                &&& all.contains(entry) <==> entries.contains(entry) || entry == (Registered {
                    provider,
                    name,
                    enabled: false,
                })
                &&& provider.len() > 0 && name.len() > 0
            },
            Err(_) => provider.len() == 0 || name.len() == 0 || exists|i: int|
                0 <= i < entries.len() && (#[trigger] entries[i]).provider == provider
                    && entries[i].name == name,
        },
{
    if let Ok(all) = with_adapter(entries, provider, name) {
        let n = slot(entries, provider, name) as int;
        slot_is_within(entries, provider, name);
        assert(all[n] == (Registered { provider, name, enabled: false }));
        if entries.contains(entry) {
            let i = choose|i: int| 0 <= i < entries.len() && entries[i] == entry;
            if i < n {
                assert(all[i] == entry);
            } else {
                assert(all[i + 1] == entry);
            }
        }
        if all.contains(entry) {
            let i = choose|i: int| 0 <= i < all.len() && all[i] == entry;
            if i < n {
                assert(entries[i] == entry);
            } else if i > n {
                assert(entries[i - 1] == entry);
            }
        }
    } else if provider.len() > 0 && name.len() > 0 {
        let i = choose|i: int| #[trigger] at(entries, provider, name, i);
        assert(entries[i].provider == provider && entries[i].name == name);
    }
}

proof fn slot_is_within(entries: Seq<Registered>, provider: Seq<char>, name: Seq<char>)
    ensures
        slot(entries, provider, name) <= entries.len(),
    decreases entries.len(),
{
    if entries.len() > 0 {
        slot_is_within(entries.skip(1), provider, name);
    }
}

} // verus!
