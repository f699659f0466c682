use std::sync::OnceLock;

use mc_ingress::opaque_error::{
    clean_text, render_display, render_plain_trace, render_trace, OpaqueError, SpanRecord,
};
use mc_ingress::packets::{ParseError, ParseErrorTrace};
use tracing::callsite::{Callsite, Identifier};
use tracing::field::{FieldSet, Value};
use tracing::metadata::Kind;
use tracing::subscriber::{with_default, Interest};
use tracing::{Level, Metadata, Span};
use tracing_subscriber::layer::SubscriberExt;

struct Site {
    metadata: OnceLock<Metadata<'static>>,
}

impl Callsite for Site {
    fn set_interest(&self, _interest: Interest) {}

    fn metadata(&self) -> &Metadata<'_> {
        self.metadata.get().unwrap()
    }
}

/// A span with the given name and one field, `packet`, if it has a value.
fn span(name: &'static str, packet: Option<i64>) -> Span {
    let site: &'static Site = Box::leak(Box::new(Site { metadata: OnceLock::new() }));
    let fields = FieldSet::new(&["packet"], Identifier(site));
    site.metadata
        .set(Metadata::new(name, "errors", Level::INFO, None, None, None, fields, Kind::SPAN))
        .unwrap();
    let metadata = site.metadata.get().unwrap();
    let field = metadata.fields().field("packet").unwrap();
    let value: Option<&dyn Value> = match &packet {
        Some(n) => Some(n),
        None => None,
    };
    Span::new(metadata, &metadata.fields().value_set(&[(&field, value)]))
}

/// Runs `f` where spans are recorded, and their fields are rendered for a terminal.
fn traced<T>(f: impl FnOnce() -> T) -> T {
    let subscriber = tracing_subscriber::registry()
        .with(tracing_subscriber::fmt::layer().with_ansi(true).with_writer(std::io::sink))
        .with(tracing_error::ErrorLayer::default());
    with_default(subscriber, f)
}

fn record(name: &str, fields: &str) -> SpanRecord {
    SpanRecord { name: name.to_string(), fields: fields.to_string() }
}

#[test]
fn span_trace_of_an_error() {
    traced(|| {
        let _outer = span("outer", Some(7)).entered();
        let _inner = span("inner", None).entered();
        let error = OpaqueError::create("it broke");
        assert_eq!(error.get_span_trace(), "outer{packet=7}:inner{}");
        assert_eq!(error.display(false), " it broke");
        assert_eq!(error.display(true), "trace = outer::inner it broke");
    });
}

#[test]
fn span_trace_of_a_parse_error() {
    traced(|| {
        let trace = {
            let _parse = span("parse", Some(-1)).entered();
            ParseErrorTrace::from(ParseError::WeirdID)
        };
        let _elsewhere = span("elsewhere", None).entered();
        let error = OpaqueError::from(trace);
        assert_eq!(error.context, "WeirdID: weird packet id encountered: 122");
        assert_eq!(error.get_span_trace(), "parse{packet=-1}");
        assert_eq!(error.display(true), "::parse WeirdID: weird packet id encountered: 122");
    });
}

#[test]
fn error_outside_of_spans() {
    let error = OpaqueError::from("plain");
    assert_eq!(error.context, "plain");
    assert_eq!(error.get_span_trace(), "");
    assert_eq!(error.display(true), " plain");
    assert_eq!(OpaqueError::from("owned".to_string()).context, "owned");
}

#[test]
fn rendered_traces() {
    assert_eq!(render_trace(&vec![]), "");
    assert_eq!(render_trace(&vec![record("a", "x=1")]), "a{x=1}");
    let spans = vec![record("c", ""), record("b", "y=2"), record("a", "x=1")];
    assert_eq!(render_trace(&spans), "a{x=1}:b{y=2}:c{}");
    assert_eq!(render_display(&spans, "text"), "trace = a::b::c text");
    assert_eq!(render_display(&vec![], "text"), " text");
}

#[test]
fn plain_traces() {
    let styled = record("b", "\u{1b}[3mx\u{1b}[0m\u{1b}[2m=\u{1b}[0m1");
    assert_eq!(render_plain_trace(&vec![styled, record("a", "grüße")]), "a{grüße}:b{x=1}");
    assert_eq!(render_plain_trace(&vec![]), "");
}

#[test]
fn cleaned_texts() {
    assert_eq!(clean_text("\u{1b}[3mx\u{1b}[0m".to_string(), b"x".to_vec()), "x");
    assert_eq!(clean_text("kept".to_string(), vec![0xff]), "kept");
}
