//! The pipeline driver: tokenizes a document text into structural events and
//! runs the document state machine over them.

use vstd::prelude::*;

use xml::reader::EventReader;
use xml::reader::XmlEvent;
use xml::ParserConfig;

use crate::event::{Event, EventV};
use crate::machine::{process_events, run_result_view, spec_run};
use crate::record::{PipelineError, Record};
use crate::timestamp::DecodePolicy;

verus! {

/// The event sequence that the XML tokenizer derives from a document text: a
/// function of the text alone.
pub uninterp spec fn xml_events_of(input: Seq<char>) -> Seq<EventV>;

/// Relies on the `xml` crate's `EventReader`: a pull parser that turns the
/// document text into structural events, here configured to trim
/// insignificant whitespace and to skip comments. Its event iterator ends
/// with the document's end or with the parser's first error, and what it
/// yields depends on the text alone.
#[verifier::external_body]
fn xml_events(input: &str) -> (r: Vec<Event>)
    ensures
        r.deep_view() == xml_events_of(input@),
{
    let config = ParserConfig::new().trim_whitespace(true).ignore_comments(true);
    let reader = EventReader::new_with_config(input.as_bytes(), config);
    reader.into_iter().map(|event| match event {
        Ok(XmlEvent::StartDocument { .. }) => Event::DocumentStart,
        Ok(XmlEvent::StartElement { name, attributes, .. }) => Event::ElementStart {
            name: name.local_name,
            attributes: attributes.into_iter().map(|a| (a.name.local_name, a.value)).collect(),
        },
        Ok(XmlEvent::EndElement { name }) => Event::ElementEnd { name: name.local_name },
        Ok(XmlEvent::EndDocument) => Event::DocumentEnd,
        Ok(_) => Event::Other,
        Err(e) => Event::SyntaxError { detail: e.to_string() },
    }).collect()
}

/// Runs the whole pipeline on a document text under the given decode policy:
/// tokenizes the text, validates the document shape and extracts one record
/// per `RECORD` element, in document order. Fail-fast: the first failure of
/// any kind — a tokenizer error, a structural violation, a missing attribute,
/// a malformed timestamp — aborts the run with its typed error.
pub fn parse_records(input: &str, policy: DecodePolicy) -> (r: Result<Vec<Record>, PipelineError>)
    ensures
        run_result_view(r) == spec_run(xml_events_of(input@), policy),
{
    let events = xml_events(input);
    process_events(&events, policy)
}

/// Re-running the pipeline on the same input text and decode policy yields
/// the same outcome: the run's result is a function of the two alone, with no
/// hidden nondeterminism.
pub proof fn lemma_run_deterministic(
    input: Seq<char>,
    policy: DecodePolicy,
    r1: Result<Vec<Record>, PipelineError>,
    r2: Result<Vec<Record>, PipelineError>,
)
    requires
        run_result_view(r1) == spec_run(xml_events_of(input), policy),
        run_result_view(r2) == spec_run(xml_events_of(input), policy),
    ensures
        run_result_view(r1) == run_result_view(r2),
{
}

} // verus!
