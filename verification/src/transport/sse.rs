//! Server-sent events: incremental framing with LF, CRLF and CR line ends and data that
//! spans lines.
use crate::error::{seen, Error, ErrorView};
use crate::text::{chars, from_utf8, parse_number, parsed_number, same, utf8_message};
use vstd::prelude::*;
use vstd::utf8::{
    decode_utf8, encode_utf8, encode_utf8_decode_utf8, encode_utf8_valid_utf8, valid_utf8,
};

verus! {

/// One frame. The fields are those that are present in this frame; nothing is carried over
/// from an earlier one.
#[derive(Debug, PartialEq, Eq)]
pub struct SseEvent {
    pub data: String,
    pub event: Option<String>,
    pub id: Option<String>,
    pub retry: Option<u64>,
}

pub struct SseEventView {
    pub data: Seq<char>,
    pub event: Option<Seq<char>>,
    pub id: Option<Seq<char>>,
    pub retry: Option<u64>,
}

impl View for SseEvent {
    type V = SseEventView;

    open spec fn view(&self) -> SseEventView {
        SseEventView {
            data: self.data@,
            event: self.event.deep_view(),
            id: self.id.deep_view(),
            retry: self.retry,
        }
    }
}

impl DeepView for SseEvent {
    type V = SseEventView;

    open spec fn deep_view(&self) -> SseEventView {
        self@
    }
}

impl SseEventView {
    pub open spec fn empty() -> SseEventView {
        SseEventView { data: Seq::empty(), event: None, id: None, retry: None }
    }
}

impl Default for SseEvent {
    fn default() -> (r: SseEvent)
        ensures
            r@ == SseEventView::empty(),
    {
        SseEvent { data: String::new(), event: None, id: None, retry: None }
    }
}

/// The state of a decoder: the bytes of the line that is still open, the data lines and the
/// other fields of the frame, and whether a line feed belongs to a line end already seen.
pub struct SseState {
    pub line: Seq<u8>,
    pub data: Seq<Seq<char>>,
    pub frame: SseEventView,
    pub skip_lf: bool,
}

/// The position of the first colon, or the length where there is none.
pub open spec fn colon(line: Seq<char>) -> nat
    decreases line.len(),
{
    if line.len() == 0 || line[0] == ':' {
        0
    } else {
        1 + colon(line.skip(1))
    }
}

pub open spec fn field_name(line: Seq<char>) -> Seq<char> {
    line.take(colon(line) as int)
}

/// What follows the first colon, without one leading space.
pub open spec fn field_value(line: Seq<char>) -> Seq<char> {
    if colon(line) >= line.len() {
        Seq::empty()
    } else {
        let value = line.skip(colon(line) as int + 1);
        if value.len() > 0 && value[0] == ' ' {
            value.skip(1)
        } else {
            value
        }
    }
}

/// The data lines, a line feed between them.
pub open spec fn joined(data: Seq<Seq<char>>) -> Seq<char>
    decreases data.len(),
{
    if data.len() == 0 {
        Seq::empty()
    } else if data.len() == 1 {
        data[0]
    } else {
        joined(data.drop_last()) + "\n"@ + data.last()
    }
}

impl SseState {
    pub open spec fn initial() -> SseState {
        SseState {
            line: Seq::empty(),
            data: Seq::empty(),
            frame: SseEventView::empty(),
            skip_lf: false,
        }
    }

    /// A field of the frame. A field that is unknown, or does not read, changes nothing.
    pub open spec fn with_field(self, name: Seq<char>, value: Seq<char>) -> SseState {
        if name == "data"@ {
            SseState { data: self.data.push(value), ..self }
        } else if name == "event"@ {
            SseState { frame: SseEventView { event: Some(value), ..self.frame }, ..self }
        } else if name == "id"@ && !value.contains('\0') {
            SseState { frame: SseEventView { id: Some(value), ..self.frame }, ..self }
        } else if name == "retry"@ && value.len() > 0 && crate::text::all_digits(value) {
            SseState { frame: SseEventView { retry: parsed_number(value), ..self.frame }, ..self }
        } else {
            self
        }
    }

    /// A line that has ended. An empty line ends the frame: it is an event where it holds
    /// data, and is dropped where it does not.
    pub open spec fn with_line(self, line: Seq<char>) -> (SseState, Option<SseEventView>) {
        if line.len() > 0 {
            (self.with_field(field_name(line), field_value(line)), None)
        } else {
            let next = SseState { data: Seq::empty(), frame: SseEventView::empty(), ..self };
            if self.data.len() > 0 {
                (next, Some(SseEventView { data: joined(self.data), ..self.frame }))
            } else {
                (next, None)
            }
        }
    }

    /// One byte.
    pub open spec fn with_byte(self, byte: u8) -> (SseState, Result<
        Option<SseEventView>,
        ErrorView,
    >) {
        if self.skip_lf && byte == 10 {
            (SseState { skip_lf: false, ..self }, Ok(None))
        } else if byte != 10 && byte != 13 {
            (SseState { line: self.line.push(byte), skip_lf: false, ..self }, Ok(None))
        } else {
            let ended = SseState { line: Seq::empty(), skip_lf: byte == 13, ..self };
            if !valid_utf8(self.line) {
                (ended, Err(ErrorView::Protocol(utf8_message(self.line))))
            } else {
                let (next, event) = ended.with_line(decode_utf8(self.line));
                (next, Ok(event))
            }
        }
    }

    /// Bytes, one after the other, up to the first line that is not UTF-8: the state after
    /// them and the events that they complete.
    pub open spec fn with_bytes(self, bytes: Seq<u8>) -> (SseState, Result<
        Seq<SseEventView>,
        ErrorView,
    >)
        decreases bytes.len(),
    {
        if bytes.len() == 0 {
            (self, Ok(Seq::empty()))
        } else {
            let (state, events) = self.with_bytes(bytes.drop_last());
            match events {
                Err(e) => (state, Err(e)),
                Ok(events) => {
                    let (next, result) = state.with_byte(bytes.last());
                    (
                        next,
                        match result {
                            Err(e) => Err(e),
                            Ok(None) => Ok(events),
                            Ok(Some(event)) => Ok(events.push(event)),
                        },
                    )
                },
            }
        }
    }
}

proof fn with_bytes_error(state: SseState, bytes: Seq<u8>, n: int)
    requires
        0 <= n <= bytes.len(),
        state.with_bytes(bytes.take(n)).1 is Err,
    ensures
        state.with_bytes(bytes) == state.with_bytes(bytes.take(n)),
    decreases bytes.len() - n,
{
    if n < bytes.len() {
        assert(bytes.take(n + 1).drop_last() =~= bytes.take(n));
        with_bytes_error(state, bytes, n + 1);
    } else {
        assert(bytes.take(n) =~= bytes);
    }
}

/// How a stream is cut into chunks makes no difference: two chunks decode as one.
pub proof fn chunks_decode_as_one(state: SseState, first: Seq<u8>, second: Seq<u8>)
    ensures
        ({
            let (middle, events) = state.with_bytes(first);
            let (last, more) = middle.with_bytes(second);
            state.with_bytes(first + second) == (match events {
                Err(e) => (middle, Err::<Seq<SseEventView>, ErrorView>(e)),
                Ok(events) => (
                    last,
                    match more {
                        Err(e) => Err(e),
                        Ok(more) => Ok(events + more),
                    },
                ),
            })
        }),
    decreases second.len(),
{
    let whole = first + second;
    if second.len() == 0 {
        assert(whole =~= first);
        if state.with_bytes(first).1 is Ok {
            let events = state.with_bytes(first).1->Ok_0;
            assert(events + Seq::<SseEventView>::empty() =~= events);
        }
    } else {
        assert(whole.drop_last() =~= first + second.drop_last());
        assert(whole.last() == second.last());
        chunks_decode_as_one(state, first, second.drop_last());
        let (middle, events) = state.with_bytes(first);
        if events is Err {
            assert(whole.take(first.len() as int) =~= first);
            with_bytes_error(state, whole, first.len() as int);
        } else {
            let (before, more) = middle.with_bytes(second.drop_last());
            if more is Ok {
                let (next, result) = before.with_byte(second.last());
                if result is Ok && result->Ok_0 is Some {
                    let event = result->Ok_0->0;
                    assert((events->Ok_0 + more->Ok_0).push(event) =~= events->Ok_0
                        + more->Ok_0.push(event));
                }
            }
        }
    }
}

/// Whether bytes end a line.
pub open spec fn line_end(bytes: Seq<u8>) -> bool {
    bytes == seq![10u8] || bytes == seq![13u8] || bytes == seq![13u8, 10u8]
}

/// Whether bytes hold no line end.
pub open spec fn one_line(bytes: Seq<u8>) -> bool {
    !bytes.contains(10) && !bytes.contains(13)
}

/// Lines, each with that end behind it.
pub open spec fn ended_lines(lines: Seq<Seq<u8>>, end: Seq<u8>) -> Seq<u8>
    decreases lines.len(),
{
    if lines.len() == 0 {
        Seq::empty()
    } else {
        ended_lines(lines.drop_last(), end) + (lines.last() + end)
    }
}

/// What a line comes to, however it ends.
spec fn taken_line(state: SseState, line: Seq<u8>) -> (SseState, Result<
    Seq<SseEventView>,
    ErrorView,
>) {
    if !valid_utf8(line) {
        (state, Err(ErrorView::Protocol(utf8_message(line))))
    } else {
        let (next, event) = state.with_line(decode_utf8(line));
        (
            next,
            Ok(
                match event {
                    Some(event) => seq![event],
                    None => Seq::empty(),
                },
            ),
        )
    }
}

spec fn taken_lines(lines: Seq<Seq<u8>>) -> (SseState, Result<Seq<SseEventView>, ErrorView>)
    decreases lines.len(),
{
    if lines.len() == 0 {
        (SseState::initial(), Ok(Seq::empty()))
    } else {
        let (state, events) = taken_lines(lines.drop_last());
        match events {
            Err(e) => (state, Err(e)),
            Ok(events) => {
                let (next, more) = taken_line(state, lines.last());
                (
                    next,
                    match more {
                        Err(e) => Err(e),
                        Ok(more) => Ok(events + more),
                    },
                )
            },
        }
    }
}

spec fn without_skip(state: SseState) -> SseState {
    SseState { skip_lf: false, ..state }
}

/// The bytes of a line wait for its end.
proof fn line_waits(state: SseState, line: Seq<u8>)
    requires
        one_line(line),
    ensures
        state.with_bytes(line) == (
            SseState {
                line: state.line + line,
                skip_lf: state.skip_lf && line.len() == 0,
                ..state
            },
            Ok::<Seq<SseEventView>, ErrorView>(Seq::empty()),
        ),
    decreases line.len(),
{
    if line.len() == 0 {
        assert(state.line + line =~= state.line);
    } else {
        let rest = line.drop_last();
        assert(line.contains(line.last()));
        assert forall|b: u8| rest.contains(b) implies line.contains(b) by {
            let i = choose|i: int| 0 <= i < rest.len() && rest[i] == b;
            assert(line[i] == b);
        }
        line_waits(state, rest);
        assert((state.line + rest).push(line.last()) =~= state.line + line);
    }
}

/// A line comes to the same with each of the line ends.
proof fn line_is_taken(state: SseState, line: Seq<u8>, end: Seq<u8>)
    requires
        one_line(line),
        line_end(end),
        state.line == Seq::<u8>::empty(),
        end == seq![10u8] ==> !state.skip_lf,
    ensures
        ({
            let (next, events) = state.with_bytes(line + end);
            let (expected, taken) = taken_line(without_skip(state), line);
            &&& events == taken
            &&& events is Ok ==> without_skip(next) == expected && next.line == Seq::<u8>::empty()
                && (end == seq![10u8] ==> !next.skip_lf)
        }),
{
    line_waits(state, line);
    chunks_decode_as_one(state, line, end);
    let waiting = state.with_bytes(line).0;
    assert(Seq::<u8>::empty() + line =~= line);
    assert(waiting.line == line);
    let first = end.take(1);
    assert(first.drop_last() =~= Seq::empty());
    reveal_with_fuel(SseState::with_bytes, 2);
    let (ended, result) = waiting.with_byte(end[0]);
    assert(waiting.with_bytes(first) == (
        ended,
        match result {
            Err(e) => Err::<Seq<SseEventView>, ErrorView>(e),
            Ok(None) => Ok(Seq::empty()),
            Ok(Some(event)) => Ok(Seq::empty().push(event)),
        },
    ));
    assert(result is Ok ==> without_skip(ended) == taken_line(without_skip(state), line).0);
    if end.len() == 2 {
        assert(end.drop_last() =~= first);
    } else {
        assert(end =~= first);
    }
    let (_, alone) = waiting.with_bytes(end);
    if alone is Ok {
        let events = alone->Ok_0;
        assert(Seq::<SseEventView>::empty() + events =~= events);
        assert(events =~= taken_line(without_skip(state), line).1->Ok_0);
    }
}

proof fn lines_are_taken(lines: Seq<Seq<u8>>, end: Seq<u8>)
    requires
        line_end(end),
        forall|i: int| 0 <= i < lines.len() ==> one_line(#[trigger] lines[i]),
    ensures
        ({
            let (next, events) = SseState::initial().with_bytes(ended_lines(lines, end));
            let (expected, taken) = taken_lines(lines);
            &&& events == taken
            &&& events is Ok ==> without_skip(next) == expected && next.line == Seq::<u8>::empty()
                && (end == seq![10u8] ==> !next.skip_lf)
        }),
    decreases lines.len(),
{
    if lines.len() > 0 {
        let rest = lines.drop_last();
        assert forall|i: int| 0 <= i < rest.len() implies one_line(#[trigger] rest[i]) by {
            assert(rest[i] == lines[i]);
        }
        lines_are_taken(rest, end);
        assert(one_line(lines[lines.len() - 1]));
        let (state, events) = SseState::initial().with_bytes(ended_lines(rest, end));
        chunks_decode_as_one(
            SseState::initial(),
            ended_lines(rest, end),
            lines.last() + end,
        );
        if events is Ok {
            line_is_taken(state, lines.last(), end);
        }
    }
}

/// How lines end makes no difference: with a line feed, a carriage return or both, the same
/// lines decode to the same events, or to the same error.
pub proof fn line_ends_decode_alike(lines: Seq<Seq<u8>>, end: Seq<u8>, other: Seq<u8>)
    requires
        line_end(end),
        line_end(other),
        forall|i: int| 0 <= i < lines.len() ==> one_line(#[trigger] lines[i]),
    ensures
        SseState::initial().with_bytes(ended_lines(lines, end)).1
            == SseState::initial().with_bytes(ended_lines(lines, other)).1,
{
    lines_are_taken(lines, end);
    lines_are_taken(lines, other);
}

proof fn names_differ()
    ensures
        "data"@ != "event"@,
        "data"@ != "id"@,
        "data"@ != "retry"@,
        "event"@ != "id"@,
        "event"@ != "retry"@,
        "id"@ != "retry"@,
{
    reveal_strlit("data");
    reveal_strlit("event");
    reveal_strlit("id");
    reveal_strlit("retry");
    assert("data"@.len() == 4);
    assert("event"@.len() == 5);
    assert("id"@.len() == 2);
    assert("retry"@.len() == 5);
    assert("event"@[0] != "retry"@[0]);
}

/// A line splits at its first colon, and one space behind it does not count.
proof fn line_splits(name: Seq<char>, value: Seq<char>)
    requires
        !name.contains(':'),
    ensures
        field_name(name + ": "@ + value) == name,
        field_value(name + ": "@ + value) == value,
{
    reveal_strlit(": ");
    let line = name + ": "@ + value;
    first_colon(line, name.len());
    assert(line.take(name.len() as int) =~= name);
    let rest = line.skip(name.len() as int + 1);
    assert(rest[0] == ' ');
    assert(rest.skip(1) =~= value);
}

proof fn first_colon(line: Seq<char>, n: nat)
    requires
        n < line.len(),
        line[n as int] == ':',
        forall|i: int| 0 <= i < n ==> (#[trigger] line[i]) != ':',
    ensures
        colon(line) == n,
    decreases n,
{
    if n > 0 {
        let rest = line.skip(1);
        assert(line[0] != ':');
        assert forall|i: int| 0 <= i < n - 1 implies (#[trigger] rest[i]) != ':' by {
            assert(rest[i] == line[i + 1]);
        }
        first_colon(rest, (n - 1) as nat);
    }
}

proof fn names_hold_no_colon()
    ensures
        !"data"@.contains(':'),
        !"event"@.contains(':'),
        !"id"@.contains(':'),
        !"retry"@.contains(':'),
{
    reveal_strlit("data");
    reveal_strlit("event");
    reveal_strlit("id");
    reveal_strlit("retry");
}

/// What a line says is kept for its frame: a line of data behind those before it, and the
/// name, the identity and the wish when to try again in the place of an earlier one. An
/// identity with a null character does not count, nor a wish that is no number.
pub proof fn lines_are_heard(state: SseState, value: Seq<char>)
    ensures
        state.with_line("data: "@ + value) == (
            SseState { data: state.data.push(value), ..state },
            None::<SseEventView>,
        ),
        state.with_line("event: "@ + value) == (
            SseState { frame: SseEventView { event: Some(value), ..state.frame }, ..state },
            None::<SseEventView>,
        ),
        !value.contains('\0') ==> state.with_line("id: "@ + value) == (
            SseState { frame: SseEventView { id: Some(value), ..state.frame }, ..state },
            None::<SseEventView>,
        ),
        value.contains('\0') ==> state.with_line("id: "@ + value) == (state, None::<SseEventView>),
        value.len() > 0 && crate::text::all_digits(value) ==> state.with_line("retry: "@ + value)
            == (
            SseState {
                frame: SseEventView { retry: parsed_number(value), ..state.frame },
                ..state
            },
            None::<SseEventView>,
        ),
        value.len() == 0 || !crate::text::all_digits(value) ==> state.with_line("retry: "@ + value)
            == (state, None::<SseEventView>),
{
    names_differ();
    names_hold_no_colon();
    reveal_strlit(": ");
    reveal_strlit("data: ");
    reveal_strlit("event: ");
    reveal_strlit("id: ");
    reveal_strlit("retry: ");
    reveal_strlit("data");
    reveal_strlit("event");
    reveal_strlit("id");
    reveal_strlit("retry");
    assert("data: "@ =~= "data"@ + ": "@);
    assert("event: "@ =~= "event"@ + ": "@);
    assert("id: "@ =~= "id"@ + ": "@);
    assert("retry: "@ =~= "retry"@ + ": "@);
    line_splits("data"@, value);
    line_splits("event"@, value);
    line_splits("id"@, value);
    line_splits("retry"@, value);
}

/// A comment says nothing.
pub proof fn comments_are_not_heard(state: SseState, comment: Seq<char>)
    ensures
        state.with_line(seq![':'] + comment) == (state, None::<SseEventView>),
{
    let line = seq![':'] + comment;
    reveal_strlit("data");
    reveal_strlit("event");
    reveal_strlit("id");
    reveal_strlit("retry");
    assert(colon(line) == 0);
    assert(field_name(line).len() == 0);
    assert("data"@.len() == 4 && "event"@.len() == 5 && "id"@.len() == 2 && "retry"@.len() == 5);
}

/// An empty line ends a frame, and nothing of it is carried over to the next. A frame with
/// data is an event that holds all that was said in it; one without is none.
pub proof fn an_empty_line_ends_a_frame(state: SseState)
    ensures
        ({
            let (next, event) = state.with_line(Seq::empty());
            &&& next.data.len() == 0
            &&& next.frame.event is None && next.frame.id is None && next.frame.retry is None
            &&& event is Some <==> state.data.len() > 0
            &&& event matches Some(event) ==> event.event == state.frame.event && event.id
                == state.frame.id && event.retry == state.frame.retry && lined(
                event.data,
                state.data,
            )
        }),
{
    if state.data.len() > 0 {
        joined_is_lined(state.data);
    }
}

/// Whether a text is lines of data, in order, with a line feed between two.
pub open spec fn lined(text: Seq<char>, data: Seq<Seq<char>>) -> bool {
    exists|starts: Seq<int>| #[trigger] lined_at(text, data, starts)
}

/// Whether a text holds lines of data from those places on.
pub open spec fn lined_at(text: Seq<char>, data: Seq<Seq<char>>, starts: Seq<int>) -> bool {
    &&& starts.len() == data.len() + 1
    &&& starts[0] == 0
    &&& starts.last() == text.len() + 1
    &&& forall|i: int|
        0 <= i < data.len() ==> {
            let end = (#[trigger] starts[i]) + data[i].len();
            &&& 0 <= starts[i]
            &&& end <= text.len()
            &&& text.subrange(starts[i], end) == data[i]
            &&& starts[i + 1] == end + 1
            &&& end < text.len() ==> text[end] == '\n'
        }
}

proof fn joined_is_lined(data: Seq<Seq<char>>) -> (starts: Seq<int>)
    requires
        data.len() > 0,
    ensures
        lined_at(joined(data), data, starts),
    decreases data.len(),
{
    let text = joined(data);
    if data.len() == 1 {
        assert(text.subrange(0, text.len() as int) =~= text);
        let starts = seq![0int, (text.len() + 1) as int];
        assert(lined_at(text, data, starts));
        starts
    } else {
        let front = data.drop_last();
        let before = joined_is_lined(front);
        let starts = before.push((text.len() + 1) as int);
        let inner = joined(front);
        reveal_strlit("\n");
        assert(text == inner + "\n"@ + data.last());
        assert forall|i: int| 0 <= i < data.len() implies {
            let end = (#[trigger] starts[i]) + data[i].len();
            &&& 0 <= starts[i]
            &&& end <= text.len()
            &&& text.subrange(starts[i], end) == data[i]
            &&& starts[i + 1] == end + 1
            &&& end < text.len() ==> text[end] == '\n'
        } by {
            let end = starts[i] + data[i].len();
            if i < front.len() {
                assert(before[i] == starts[i]);
                assert(text.subrange(starts[i], end) =~= inner.subrange(starts[i], end));
            } else {
                assert(text.subrange(starts[i], end) =~= data.last());
            }
        }
        assert(lined_at(text, data, starts));
        starts
    }
}

/// A line of a stream is read as the text that was written, however it ends.
pub proof fn a_line_is_read(state: SseState, text: Seq<char>, end: Seq<u8>)
    requires
        one_line(encode_utf8(text)),
        line_end(end),
        state.line == Seq::<u8>::empty(),
        !state.skip_lf,
    ensures
        ({
            let (next, events) = state.with_bytes(encode_utf8(text) + end);
            let (expected, event) = state.with_line(text);
            &&& next.data == expected.data && next.frame == expected.frame && next.line.len() == 0
            &&& events == Ok::<Seq<SseEventView>, ErrorView>(
                match event {
                    Some(event) => seq![event],
                    None => Seq::empty(),
                },
            )
        }),
{
    encode_utf8_valid_utf8(text);
    encode_utf8_decode_utf8(text);
    line_is_taken(state, encode_utf8(text), end);
    assert(without_skip(state) == state);
}

/// Incremental decoder of server-sent events.
pub struct SseDecoder {
    line: Vec<u8>,
    data: Vec<String>,
    frame: SseEvent,
    skip_lf: bool,
}

impl View for SseDecoder {
    type V = SseState;

    closed spec fn view(&self) -> SseState {
        SseState {
            line: self.line@,
            data: self.data.deep_view(),
            frame: self.frame@,
            skip_lf: self.skip_lf,
        }
    }
}

impl Default for SseDecoder {
    fn default() -> (r: SseDecoder)
        ensures
            r@ == SseState::initial(),
    {
        let r = SseDecoder {
            line: Vec::new(),
            data: Vec::new(),
            frame: SseEvent::default(),
            skip_lf: false,
        };
        assert(r.data.deep_view() =~= Seq::empty());
        r
    }
}

fn find_colon(line: &Vec<char>, from: usize) -> (r: usize)
    requires
        from <= line@.len(),
    ensures
        r == from + colon(line@.skip(from as int)),
        from <= r <= line@.len(),
    decreases line@.len() - from,
{
    if from == line.len() {
        return from;
    }
    assert(line@.skip(from as int)[0] == line@[from as int]);
    if line[from] == ':' {
        return from;
    }
    assert(line@.skip(from as int).skip(1) =~= line@.skip(from + 1));
    find_colon(line, from + 1)
}

/// Splits a line into the name and the value of a field.
fn split_field(line: &str) -> (r: (&str, &str))
    ensures
        r.0@ == field_name(line@),
        r.1@ == field_value(line@),
{
    let cs = chars(line);
    let n = cs.len();
    assert(cs@.skip(0) =~= cs@);
    let at = find_colon(&cs, 0);
    let name = line.substring_char(0, at);
    assert(name@ =~= field_name(line@));
    if at >= n {
        let value = line.substring_char(n, n);
        assert(value@ =~= Seq::empty());
        return (name, value);
    }
    let ghost tail = line@.skip(at + 1);
    if at + 1 < n && cs[at + 1] == ' ' {
        let value = line.substring_char(at + 2, n);
        assert(tail[0] == line@[at + 1]);
        assert(value@ =~= tail.skip(1));
        (name, value)
    } else {
        let value = line.substring_char(at + 1, n);
        assert(value@ =~= tail);
        if at + 1 < n {
            assert(tail[0] == line@[at + 1]);
        }
        (name, value)
    }
}

fn has_null(text: &str) -> (r: bool)
    ensures
        r == text@.contains('\0'),
{
    let cs = chars(text);
    let mut i: usize = 0;
    while i < cs.len()
        invariant
            i <= cs@.len(),
            cs@ == text@,
            forall|j: int| 0 <= j < i ==> text@[j] != '\0',
        decreases cs@.len() - i,
    {
        if cs[i] == '\0' {
            assert(text@[i as int] == '\0');
            return true;
        }
        i += 1;
    }
    false
}

fn only_digits(text: &str) -> (r: bool)
    ensures
        r == crate::text::all_digits(text@),
{
    let cs = chars(text);
    let mut i: usize = 0;
    while i < cs.len()
        invariant
            i <= cs@.len(),
            cs@ == text@,
            forall|j: int| 0 <= j < i ==> crate::text::is_digit(#[trigger] text@[j]),
        decreases cs@.len() - i,
    {
        let code: u32 = cs[i] as u32;
        if code < '0' as u32 || code > '9' as u32 {
            assert(!crate::text::is_digit(text@[i as int]));
            return false;
        }
        i += 1;
    }
    true
}

fn join_data(data: &Vec<String>) -> (r: String)
    ensures
        r@ == joined(data.deep_view()),
{
    let ghost all = data.deep_view();
    let mut out = String::new();
    let mut i: usize = 0;
    assert(all.take(0) =~= Seq::empty());
    assert(out@ =~= joined(all.take(0)));
    while i < data.len()
        invariant
            i <= data@.len(),
            all == data.deep_view(),
            out@ == joined(all.take(i as int)),
        decreases data@.len() - i,
    {
        proof {
            let next = all.take(i + 1);
            assert(next.drop_last() =~= all.take(i as int));
            assert(next.last() == data@[i as int]@);
            if i == 0 {
                assert(next[0] == data@[0]@);
            }
        }
        if i > 0 {
            out.append("\n");
        }
        out.append(data[i].as_str());
        assert(out@ =~= joined(all.take(i + 1)));
        i += 1;
    }
    assert(all.take(all.len() as int) =~= all);
    out
}

impl SseDecoder {
    fn field(&mut self, name: &str, value: &str)
        ensures
            final(self)@ == old(self)@.with_field(name@, value@),
    {
        let ghost data = self.data.deep_view();
        if same(name, "data") {
            self.data.push(value.to_owned());
            assert(self.data.deep_view() =~= data.push(value@));
        } else if same(name, "event") {
            self.frame.event = Some(value.to_owned());
        } else if same(name, "id") && !has_null(value) {
            self.frame.id = Some(value.to_owned());
        } else if same(name, "retry") && !value.is_empty() && only_digits(value) {
            self.frame.retry = parse_number(value);
        }
    }

    fn end_line(&mut self, line: &str) -> (r: Option<SseEvent>)
        ensures
            final(self)@ == old(self)@.with_line(line@).0,
            r.deep_view() == old(self)@.with_line(line@).1,
    {
        if !line.is_empty() {
            let (name, value) = split_field(line);
            self.field(name, value);
            return None;
        }
        let mut frame = SseEvent::default();
        std::mem::swap(&mut frame, &mut self.frame);
        assert(self.data.deep_view().len() == self.data@.len());
        if self.data.len() == 0 {
            assert(self.data.deep_view() =~= Seq::empty());
            return None;
        }
        frame.data = join_data(&self.data);
        self.data.clear();
        assert(self.data.deep_view() =~= Seq::empty());
        Some(frame)
    }

    fn byte(&mut self, byte: u8) -> (r: Result<Option<SseEvent>, Error>)
        ensures
            final(self)@ == old(self)@.with_byte(byte).0,
            seen(r) == old(self)@.with_byte(byte).1,
    {
        let skip = self.skip_lf;
        self.skip_lf = false;
        if skip && byte == 10 {
            return Ok(None);
        }
        if byte != 10 && byte != 13 {
            self.line.push(byte);
            return Ok(None);
        }
        self.skip_lf = byte == 13;
        let mut bytes: Vec<u8> = Vec::new();
        std::mem::swap(&mut bytes, &mut self.line);
        match from_utf8(bytes.as_slice()) {
            Ok(line) => Ok(self.end_line(line)),
            Err(message) => Err(Error::Protocol(message)),
        }
    }

    /// Decodes a chunk and hands back the events that it completes.
    pub fn push(&mut self, bytes: &[u8]) -> (r: Result<Vec<SseEvent>, Error>)
        ensures
            final(self)@ == old(self)@.with_bytes(bytes@).0,
            seen(r) == old(self)@.with_bytes(bytes@).1,
    {
        let ghost start = self@;
        let mut events: Vec<SseEvent> = Vec::new();
        let mut i: usize = 0;
        assert(bytes@.take(0) =~= Seq::empty());
        assert(events.deep_view() =~= Seq::empty());
        while i < bytes.len()
            invariant
                i <= bytes@.len(),
                start == old(self)@,
                start.with_bytes(bytes@.take(i as int)) == (
                    self@,
                    Ok::<Seq<SseEventView>, ErrorView>(events.deep_view()),
                ),
            decreases bytes@.len() - i,
        {
            let ghost before = events.deep_view();
            proof {
                assert(bytes@.take(i + 1).drop_last() =~= bytes@.take(i as int));
                assert(bytes@.take(i + 1).last() == bytes@[i as int]);
                if start.with_bytes(bytes@.take(i + 1)).1 is Err {
                    with_bytes_error(start, bytes@, i + 1);
                }
            }
            match self.byte(bytes[i])? {
                Some(event) => {
                    events.push(event);
                    assert(events.deep_view() =~= before.push(event@));
                },
                None => {},
            }
            i += 1;
        }
        assert(bytes@.take(bytes@.len() as int) =~= bytes@);
        Ok(events)
    }

    /// Ends the stream. An unfinished frame is no event; whether the stream was complete is
    /// for its protocol to tell.
    pub fn finish(&mut self) -> (r: Result<Vec<SseEvent>, Error>)
        ensures
            final(self)@ == SseState::initial(),
            r is Ok && r->Ok_0@.len() == 0,
    {
        *self = SseDecoder::default();
        Ok(Vec::new())
    }
}

} // verus!
