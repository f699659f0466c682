//! The error that ends a connection: a text and the trace of spans in which it arose.
use tracing_error::SpanTrace;
use vstd::prelude::*;
use vstd::utf8::{decode_utf8, encode_utf8, valid_utf8};

use crate::packets::ParseErrorTrace;
use crate::text::text_from_utf8;

verus! {

/// A captured trace of spans, opaque to the proofs.
#[verifier::external_type_specification]
#[verifier::external_body]
pub struct ExSpanTrace(tracing_error::SpanTrace);

/// `SpanTrace::capture`: captures the span that is current on this thread. Nothing is claimed of
/// the trace, which depends on where the call is made.
pub assume_specification[ SpanTrace::capture ]() -> SpanTrace
;

/// What `strip_ansi_escapes::strip` leaves of `data`.
pub uninterp spec fn ansi_stripped(data: Seq<u8>) -> Seq<u8>;

/// `strip_ansi_escapes::strip`: the bytes that are left of `data` once the terminal escape
/// sequences are taken out. Which bytes these are is left to the name `ansi_stripped`.
#[verifier::external_body]
fn strip_escapes(data: &Vec<u8>) -> (stripped: Vec<u8>)
    ensures
        stripped@ == ansi_stripped(data@),
{
    strip_ansi_escapes::strip(data)
}

/// The names of the spans that a trace holds, the innermost span first.
pub uninterp spec fn trace_names(trace: SpanTrace) -> Seq<Seq<char>>;

/// Whether a trace can be read as spans with these names and fields, the innermost span first. The
/// fields of a span can be recorded after the capture, so that there may be more than one such
/// reading.
pub uninterp spec fn trace_read_as(trace: SpanTrace, spans: Seq<(Seq<char>, Seq<char>)>) -> bool;

/// `SpanTrace::with_spans`: one record for each span of the trace, the innermost span first, with
/// the name of the span and the fields that it has by now. A trace holds on to its spans once it is
/// captured, so that the names are always the same ones. Which fields there are is left to the name
/// `trace_read_as`.
#[verifier::external_body]
fn trace_spans(trace: &SpanTrace) -> (spans: Vec<SpanRecord>)
    ensures
        names_of(spans@) == trace_names(*trace),
        trace_read_as(*trace, contents_of(spans@)),
{
    let mut spans: Vec<SpanRecord> = Vec::new();
    trace.with_spans(|metadata, fields| push_span(&mut spans, metadata.name(), fields));
    spans
}

/// One span of a trace: its name and the rendering of its fields.
#[derive(Debug)]
pub struct SpanRecord {
    pub name: String,
    pub fields: String,
}

/// The names of `spans`.
pub open spec fn names_of(spans: Seq<SpanRecord>) -> Seq<Seq<char>> {
    Seq::new(spans.len(), |i: int| spans[i].name@)
}

/// The names of `spans` and the renderings of their fields.
pub open spec fn contents_of(spans: Seq<SpanRecord>) -> Seq<(Seq<char>, Seq<char>)> {
    Seq::new(spans.len(), |i: int| (spans[i].name@, spans[i].fields@))
}

/// The rendering of one span.
pub open spec fn span_text(span: SpanRecord) -> Seq<char> {
    span.name@ + "{"@ + span.fields@ + "}"@
}

/// The rendering of the spans of a trace, given innermost first: the outermost span comes first,
/// and a colon stands between neighbours.
pub open spec fn trace_text(spans: Seq<SpanRecord>) -> Seq<char>
    decreases spans.len(),
{
    if spans.len() == 0 {
        seq![]
    } else if spans.len() == 1 {
        span_text(spans[0])
    } else {
        trace_text(spans.drop_first()) + ":"@ + span_text(spans[0])
    }
}

/// `text` without terminal escape sequences, given what stripping left of its bytes: the stripped
/// bytes where they are UTF-8, else `text` as it was.
pub open spec fn cleaned(text: Seq<char>, stripped: Seq<u8>) -> Seq<char> {
    if valid_utf8(stripped) {
        decode_utf8(stripped)
    } else {
        text
    }
}

/// The rendering of the spans of a trace, given innermost first, without terminal escape sequences.
pub open spec fn plain_trace(spans: Seq<SpanRecord>) -> Seq<char> {
    cleaned(trace_text(spans), ansi_stripped(encode_utf8(trace_text(spans))))
}

/// The path of the spans with the given names, innermost first: the outermost name comes first, and
/// two colons stand before each.
pub open spec fn span_path(names: Seq<Seq<char>>) -> Seq<char>
    decreases names.len(),
{
    if names.len() == 0 {
        seq![]
    } else {
        span_path(names.drop_first()) + "::"@ + names[0]
    }
}

/// The long rendering of an error: the path of its spans, given by their names, then its text.
pub open spec fn long_display(names: Seq<Seq<char>>, context: Seq<char>) -> Seq<char> {
    if names.len() > 1 {
        "trace = "@ + names.last() + span_path(names.drop_last()) + " "@ + context
    } else {
        span_path(names) + " "@ + context
    }
}

/// Adds a record to `spans`, and asks for the next span.
fn push_span(spans: &mut Vec<SpanRecord>, name: &str, fields: &str) -> (go_on: bool)
    ensures
        go_on,
        final(spans)@.len() == old(spans)@.len() + 1,
        final(spans)@.drop_last() == old(spans)@,
        final(spans)@.last().name@ == name@,
        final(spans)@.last().fields@ == fields@,
{
    spans.push(SpanRecord { name: name.to_string(), fields: fields.to_string() });
    assert(spans@.drop_last() =~= old(spans)@);
    true
}

/// Renders the spans of a trace, given innermost first.
pub fn render_trace(spans: &Vec<SpanRecord>) -> (text: String)
    ensures
        text@ == trace_text(spans@),
{
    let mut text = String::new();
    let mut i: usize = spans.len();
    assert(spans@.skip(i as int) =~= seq![]);
    while i > 0
        invariant
            i <= spans@.len(),
            text@ == trace_text(spans@.skip(i as int)),
        decreases i,
    {
        let ghost rest = spans@.skip(i as int);
        if i < spans.len() {
            text.append(":");
        }
        i = i - 1;
        let ghost now = spans@.skip(i as int);
        assert(now.drop_first() =~= rest);
        assert(now[0] == spans@[i as int]);
        let ghost before = text@;
        text.append(spans[i].name.as_str());
        text.append("{");
        text.append(spans[i].fields.as_str());
        text.append("}");
        assert(text@ =~= before + span_text(now[0]));
        assert(text@ =~= trace_text(now));
    }
    assert(spans@.skip(0) =~= spans@);
    text
}

/// Takes the terminal escape sequences out of `text`, given what stripping left of its bytes.
pub fn clean_text(text: String, stripped: Vec<u8>) -> (cleaned_text: String)
    ensures
        cleaned_text@ == cleaned(text@, stripped@),
{
    match text_from_utf8(stripped) {
        Some(plain) => plain,
        None => text,
    }
}

/// Renders the spans of a trace, given innermost first, without terminal escape sequences.
pub fn render_plain_trace(spans: &Vec<SpanRecord>) -> (text: String)
    ensures
        text@ == plain_trace(spans@),
{
    let text = render_trace(spans);
    let bytes = text.as_str().as_bytes_vec();
    let stripped = strip_escapes(&bytes);
    clean_text(text, stripped)
}

/// Renders an error with the path of its spans, given innermost first.
pub fn render_display(spans: &Vec<SpanRecord>, context: &str) -> (text: String)
    ensures
        text@ == long_display(names_of(spans@), context@),
{
    let mut text = String::new();
    let mut i: usize = spans.len();
    let ghost names = names_of(spans@);
    let ghost shown = names;
    if i > 1 {
        i = i - 1;
        text.append("trace = ");
        text.append(spans[i].name.as_str());
        proof {
            shown = names.drop_last();
        }
    }
    let ghost head = text@;
    assert(shown.skip(i as int) =~= seq![]);
    assert(text@ =~= head + span_path(shown.skip(i as int)));
    while i > 0
        invariant
            i <= shown.len() <= spans@.len(),
            names == names_of(spans@),
            shown == names.take(shown.len() as int),
            text@ == head + span_path(shown.skip(i as int)),
        decreases i,
    {
        let ghost rest = shown.skip(i as int);
        i = i - 1;
        let ghost now = shown.skip(i as int);
        assert(now.drop_first() =~= rest);
        assert(now[0] == spans@[i as int].name@);
        text.append("::");
        text.append(spans[i].name.as_str());
        assert(text@ =~= head + span_path(now));
    }
    assert(shown.skip(0) =~= shown);
    text.append(" ");
    text.append(context);
    assert(text@ =~= long_display(names, context@));
    text
}

/// An error that ends a connection.
#[derive(Debug)]
pub struct OpaqueError {
    pub span_trace: SpanTrace,
    pub context: String,
}

impl OpaqueError {
    /// An error with the text `str`, captured in the current span.
    pub fn create(str: &str) -> (error: OpaqueError)
        ensures
            error.context@ == str@,
    {
        OpaqueError { span_trace: SpanTrace::capture(), context: str.to_string() }
    }

    /// The spans in which the error arose, outermost first, each with the fields that it has by
    /// now, without terminal escape sequences.
    pub fn get_span_trace(&self) -> (text: String)
        ensures
            exists|spans: Seq<SpanRecord>|
                {
                    &&& names_of(spans) == trace_names(self.span_trace)
                    &&& trace_read_as(self.span_trace, contents_of(spans))
                    &&& text@ == #[trigger] plain_trace(spans)
                },
    {
        let spans = trace_spans(&self.span_trace);
        render_plain_trace(&spans)
    }

    /// The rendering of the error: its text after a space and, in the alternate form, after the
    /// path of its spans.
    pub fn display(&self, alternate: bool) -> (text: String)
        ensures
            !alternate ==> text@ == " "@ + self.context@,
            alternate ==> text@ == long_display(trace_names(self.span_trace), self.context@),
    {
        if alternate {
            let spans = trace_spans(&self.span_trace);
            render_display(&spans, self.context.as_str())
        } else {
            let mut text = String::new();
            text.append(" ");
            text.append(self.context.as_str());
            assert(text@ =~= " "@ + self.context@);
            text
        }
    }
}

impl From<String> for OpaqueError {
    fn from(value: String) -> (error: Self)
        ensures
            error.context@ == value@,
    {
        OpaqueError { span_trace: SpanTrace::capture(), context: value }
    }
}

/// No two errors made of one text need be the same: each holds the trace of its own capture.
impl vstd::std_specs::convert::FromSpecImpl<String> for OpaqueError {
    open spec fn obeys_from_spec() -> bool {
        false
    }

    open spec fn from_spec(value: String) -> Self {
        arbitrary()
    }
}

impl<'a> From<&'a str> for OpaqueError {
    fn from(value: &'a str) -> (error: Self)
        ensures
            error.context@ == value@,
    {
        OpaqueError::create(value)
    }
}

/// As for `String`.
impl<'a> vstd::std_specs::convert::FromSpecImpl<&'a str> for OpaqueError {
    open spec fn obeys_from_spec() -> bool {
        false
    }

    open spec fn from_spec(value: &'a str) -> Self {
        arbitrary()
    }
}

impl From<ParseErrorTrace> for OpaqueError {
    fn from(value: ParseErrorTrace) -> (error: Self)
        ensures
            error.context@ == value.inner.message_text(),
            error.span_trace == value.context,
    {
        OpaqueError { span_trace: value.context, context: value.inner.message() }
    }
}

/// Only the text and the trace of the error are determined.
impl vstd::std_specs::convert::FromSpecImpl<ParseErrorTrace> for OpaqueError {
    open spec fn obeys_from_spec() -> bool {
        false
    }

    open spec fn from_spec(value: ParseErrorTrace) -> Self {
        arbitrary()
    }
}

/// The rendering of a trace: the outer spans come before the inner ones, with a colon between any
/// two parts of it, and each span is its name with its fields in braces.
pub proof fn law_trace_text(inner: Seq<SpanRecord>, outer: Seq<SpanRecord>)
    ensures
        trace_text(seq![]) == Seq::<char>::empty(),
        inner.len() == 1 ==> trace_text(inner) == inner[0].name@ + "{"@ + inner[0].fields@ + "}"@,
        inner.len() > 0 && outer.len() > 0 ==> trace_text(inner + outer) == trace_text(outer)
            + ":"@ + trace_text(inner),
    decreases inner.len(),
{
    if inner.len() > 0 && outer.len() > 0 {
        let whole = inner + outer;
        assert(whole[0] == inner[0]);
        if inner.len() == 1 {
            assert(whole.drop_first() =~= outer);
        } else {
            assert(whole.drop_first() =~= inner.drop_first() + outer);
            law_trace_text(inner.drop_first(), outer);
            assert(trace_text(whole) =~= trace_text(outer) + ":"@ + trace_text(inner));
        }
    }
}

/// The path of spans: the outer ones come before the inner ones, and two colons before each.
pub proof fn law_span_path(inner: Seq<Seq<char>>, outer: Seq<Seq<char>>)
    ensures
        span_path(seq![]) == Seq::<char>::empty(),
        inner.len() == 1 ==> span_path(inner) == "::"@ + inner[0],
        span_path(inner + outer) == span_path(outer) + span_path(inner),
    decreases inner.len(),
{
    let whole = inner + outer;
    if inner.len() == 0 {
        assert(whole =~= outer);
        assert(span_path(outer) + span_path(inner) =~= span_path(outer));
    } else {
        assert(whole[0] == inner[0]);
        assert(whole.drop_first() =~= inner.drop_first() + outer);
        law_span_path(inner.drop_first(), outer);
        assert(span_path(whole) =~= span_path(outer) + span_path(inner));
        if inner.len() == 1 {
            assert(inner.drop_first() =~= seq![]);
            assert(span_path(inner) =~= "::"@ + inner[0]);
        }
    }
}

/// The long rendering of an error that arose in no span, in one, or in more: the outermost span of
/// several is introduced, and the others follow on their path.
pub proof fn law_long_display(inner: Seq<Seq<char>>, outermost: Seq<char>, context: Seq<char>)
    ensures
        long_display(seq![], context) == " "@ + context,
        long_display(seq![outermost], context) == "::"@ + outermost + " "@ + context,
        inner.len() > 0 ==> long_display(inner.push(outermost), context) == "trace = "@ + outermost
            + span_path(inner) + " "@ + context,
{
    law_span_path(seq![], seq![]);
    law_span_path(seq![outermost], seq![]);
    assert(span_path(seq![]) + " "@ + context =~= " "@ + context);
    assert(inner.push(outermost).drop_last() =~= inner);
    assert(inner.push(outermost).last() == outermost);
}

/// A text is cleaned by what is left of its bytes, where that is a text.
pub proof fn law_cleaned(text: Seq<char>, left: Seq<char>, stripped: Seq<u8>)
    ensures
        cleaned(text, encode_utf8(left)) == left,
        !valid_utf8(stripped) ==> cleaned(text, stripped) == text,
{
    vstd::utf8::encode_utf8_valid_utf8(left);
    vstd::utf8::encode_utf8_decode_utf8(left);
}

/// What an error shows: its text after a space, and after the path of its spans in the long form.
pub proof fn law_errors_show_their_text(error: OpaqueError, short: String, long: String)
    requires
        call_ensures(OpaqueError::display, (&error, false), short),
        call_ensures(OpaqueError::display, (&error, true), long),
    ensures
        short@ == " "@ + error.context@,
        long@ == long_display(trace_names(error.span_trace), error.context@),
{
}

/// What is shown of spans that were read: their rendering without terminal escape sequences, and
/// with an error the path of their names.
pub proof fn law_spans_are_shown(
    spans: Vec<SpanRecord>,
    text: String,
    plain: String,
    context: &str,
    shown: String,
)
    requires
        call_ensures(render_trace, (&spans,), text),
        call_ensures(render_plain_trace, (&spans,), plain),
        call_ensures(render_display, (&spans, context), shown),
    ensures
        text@ == trace_text(spans@),
        plain@ == cleaned(text@, ansi_stripped(encode_utf8(text@))),
        shown@ == long_display(Seq::new(spans@.len(), |i: int| spans@[i].name@), context@),
{
    assert(names_of(spans@) =~= Seq::new(spans@.len(), |i: int| spans@[i].name@));
}

/// An error holds the text that it was made of, and that of a packet its message and its trace.
pub proof fn law_errors_hold_their_text(
    text: &str,
    created: OpaqueError,
    trace: ParseErrorTrace,
    parsed: OpaqueError,
)
    requires
        call_ensures(OpaqueError::create, (text,), created),
        call_ensures(<OpaqueError as From<ParseErrorTrace>>::from, (trace,), parsed),
    ensures
        created.context@ == text@,
        parsed.context@ == trace.inner.message_text(),
        parsed.span_trace == trace.context,
{
}

} // verus!
