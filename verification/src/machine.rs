//! The document state machine: consumes the event stream, enforces the
//! expected document shape, and accumulates one record per `RECORD` element.

use vstd::prelude::*;

use crate::event::{Event, EventV};
use crate::record::{
    extract_record, spec_extract, str_eq, ErrorV, PipelineError, Record, RecordV,
};
use crate::timestamp::DecodePolicy;

verus! {

/// The machine's states. It awaits the document and its root element, then
/// walks the records region until the document ends; `Done` is terminal and
/// the driver pulls no further event after reaching it.
#[derive(Clone, Copy, Debug, PartialEq, Eq, Structural)]
pub enum MachineState {
    AwaitDocument,
    InRecords,
    Done,
}

/// What running the machine over `events` from `state` with records `acc`
/// already emitted yields.
///
/// A tokenizer error aborts in any state. Awaiting the document, a
/// document-start is skipped and the `TRACKRECORDS` root enters the records
/// region; anything else is a malformed document. In the records region a
/// `RECORD` element contributes one extracted record, any end-element is
/// tolerated without checking tag matching (deliberately lax nesting), the
/// document's end finishes the run, and anything else is a malformed
/// document. Events past the machine's end are never read.
pub open spec fn spec_run_from(
    events: Seq<EventV>,
    policy: DecodePolicy,
    state: MachineState,
    acc: Seq<RecordV>,
) -> Result<Seq<RecordV>, ErrorV>
    decreases events.len(),
{
    if state is Done || events.len() == 0 {
        Ok(acc)
    } else {
        let rest = events.drop_first();
        if events[0] is SyntaxError {
            Err(ErrorV::XmlSyntax { detail: events[0]->SyntaxError_detail })
        } else if state is AwaitDocument {
            match events[0] {
                EventV::DocumentStart => spec_run_from(
                    rest,
                    policy,
                    MachineState::AwaitDocument,
                    acc,
                ),
                EventV::ElementStart { name, attributes } => if name == "TRACKRECORDS"@ {
                    spec_run_from(rest, policy, MachineState::InRecords, acc)
                } else {
                    Err(ErrorV::MalformedDocument { detail: "expected root element"@ })
                },
                _ => Err(ErrorV::MalformedDocument { detail: "expected root element"@ }),
            }
        } else {
            match events[0] {
                EventV::ElementStart { name, attributes } => if name == "RECORD"@ {
                    match spec_extract(attributes, policy) {
                        Ok(rec) => spec_run_from(
                            rest,
                            policy,
                            MachineState::InRecords,
                            acc.push(rec),
                        ),
                        Err(e) => Err(e),
                    }
                } else {
                    Err(ErrorV::MalformedDocument { detail: "unexpected element"@ })
                },
                EventV::ElementEnd { .. } => spec_run_from(
                    rest,
                    policy,
                    MachineState::InRecords,
                    acc,
                ),
                EventV::DocumentEnd => spec_run_from(rest, policy, MachineState::Done, acc),
                _ => Err(ErrorV::MalformedDocument { detail: "unexpected element"@ }),
            }
        }
    }
}

/// What a whole run over `events` yields: the records of the document's
/// `RECORD` elements in document order, or its first failure.
pub open spec fn spec_run(events: Seq<EventV>, policy: DecodePolicy) -> Result<
    Seq<RecordV>,
    ErrorV,
> {
    spec_run_from(events, policy, MachineState::AwaitDocument, Seq::empty())
}

/// The mathematical image of a run's result.
pub open spec fn run_result_view(r: Result<Vec<Record>, PipelineError>) -> Result<
    Seq<RecordV>,
    ErrorV,
> {
    match r {
        Ok(records) => Ok(records.deep_view()),
        Err(e) => Err(e.deep_view()),
    }
}

/// Runs the state machine over a finite event sequence, exactly as
/// `spec_run` reads it. Fail-fast: the first failure of any kind aborts the
/// whole run; there is no recovery or partial output.
pub fn process_events(events: &Vec<Event>, policy: DecodePolicy) -> (r: Result<
    Vec<Record>,
    PipelineError,
>)
    ensures
        run_result_view(r) == spec_run(events.deep_view(), policy),
{
    let ghost ev: Seq<EventV> = events.deep_view();
    let mut records: Vec<Record> = Vec::new();
    let mut state = MachineState::AwaitDocument;
    let mut i: usize = 0;
    proof {
        assert(ev.skip(0) =~= ev);
        assert(records.deep_view() =~= Seq::<RecordV>::empty());
    }
    while i < events.len()
        invariant
            i <= events.len(),
            ev == events.deep_view(),
            ev.len() == events.len(),
            state !is Done,
            spec_run_from(ev.skip(i as int), policy, state, records.deep_view()) == spec_run(
                ev,
                policy,
            ),
        decreases events.len() - i,
    {
        proof {
            assert(ev.skip(i as int)[0] == ev[i as int]);
            assert(ev.skip(i as int).drop_first() =~= ev.skip(i + 1 as int));
        }
        let ghost recs: Seq<RecordV> = records.deep_view();
        match &events[i] {
            Event::SyntaxError { detail } => {
                return Err(PipelineError::XmlSyntax { detail: detail.clone() });
            },
            Event::DocumentStart => {
                match state {
                    MachineState::AwaitDocument => {},
                    _ => {
                        return Err(
                            PipelineError::MalformedDocument {
                                detail: "unexpected element".to_owned(),
                            },
                        );
                    },
                }
            },
            Event::ElementStart { name, attributes } => {
                match state {
                    MachineState::AwaitDocument => {
                        if str_eq(name.as_str(), "TRACKRECORDS") {
                            state = MachineState::InRecords;
                        } else {
                            return Err(
                                PipelineError::MalformedDocument {
                                    detail: "expected root element".to_owned(),
                                },
                            );
                        }
                    },
                    MachineState::InRecords => {
                        if str_eq(name.as_str(), "RECORD") {
                            match extract_record(attributes, policy) {
                                Ok(rec) => {
                                    records.push(rec);
                                    proof {
                                        assert(records.deep_view() =~= recs.push(
                                            rec.deep_view(),
                                        ));
                                    }
                                },
                                Err(e) => {
                                    return Err(e);
                                },
                            }
                        } else {
                            return Err(
                                PipelineError::MalformedDocument {
                                    detail: "unexpected element".to_owned(),
                                },
                            );
                        }
                    },
                    // the loop never runs in the terminal state
                    MachineState::Done => unreached(),
                }
            },
            Event::ElementEnd { .. } => {
                match state {
                    MachineState::AwaitDocument => {
                        return Err(
                            PipelineError::MalformedDocument {
                                detail: "expected root element".to_owned(),
                            },
                        );
                    },
                    _ => {},
                }
            },
            Event::DocumentEnd => {
                match state {
                    MachineState::AwaitDocument => {
                        return Err(
                            PipelineError::MalformedDocument {
                                detail: "expected root element".to_owned(),
                            },
                        );
                    },
                    _ => {
                        proof {
                            assert(spec_run_from(
                                ev.skip(i + 1 as int),
                                policy,
                                MachineState::Done,
                                recs,
                            ) == Ok::<Seq<RecordV>, ErrorV>(recs));
                        }
                        return Ok(records);
                    },
                }
            },
            Event::Other => {
                match state {
                    MachineState::AwaitDocument => {
                        return Err(
                            PipelineError::MalformedDocument {
                                detail: "expected root element".to_owned(),
                            },
                        );
                    },
                    _ => {
                        return Err(
                            PipelineError::MalformedDocument {
                                detail: "unexpected element".to_owned(),
                            },
                        );
                    },
                }
            },
        }
        i = i + 1;
    }
    proof {
        assert(ev.skip(i as int) =~= Seq::<EventV>::empty());
    }
    Ok(records)
}

/// `e` opens a `RECORD` element whose attributes extract successfully under
/// `policy`.
pub open spec fn is_record_element(e: EventV, policy: DecodePolicy) -> bool {
    e matches EventV::ElementStart { name, attributes } && name == "RECORD"@ && spec_extract(
        attributes,
        policy,
    ) is Ok
}

/// Every event of a well-formed records region is a `RECORD` element that
/// extracts successfully, or an end-element.
pub open spec fn well_formed_body(body: Seq<EventV>, policy: DecodePolicy) -> bool {
    forall|i: int|
        0 <= i < body.len() ==> is_record_element(body[i], policy) || body[i] is ElementEnd
}

/// The records of the `RECORD` elements of `body`, in document order.
pub open spec fn body_records(body: Seq<EventV>, policy: DecodePolicy) -> Seq<RecordV>
    decreases body.len(),
{
    if body.len() == 0 {
        Seq::empty()
    } else {
        let rest = body_records(body.drop_first(), policy);
        if is_record_element(body[0], policy) {
            seq![spec_extract(body[0]->ElementStart_attributes, policy)->Ok_0] + rest
        } else {
            rest
        }
    }
}

/// How many events of `body` open an element.
pub open spec fn element_start_count(body: Seq<EventV>) -> nat
    decreases body.len(),
{
    if body.len() == 0 {
        0nat
    } else {
        (if body[0] is ElementStart {
            1nat
        } else {
            0nat
        }) + element_start_count(body.drop_first())
    }
}

proof fn lemma_well_formed_drop_first(body: Seq<EventV>, policy: DecodePolicy)
    requires
        body.len() > 0,
        well_formed_body(body, policy),
    ensures
        well_formed_body(body.drop_first(), policy),
{
    assert forall|k: int| 0 <= k < body.drop_first().len() implies is_record_element(
        body.drop_first()[k],
        policy,
    ) || body.drop_first()[k] is ElementEnd by {
        assert(body.drop_first()[k] == body[k + 1]);
    }
}

proof fn lemma_body_records_len(body: Seq<EventV>, policy: DecodePolicy)
    requires
        well_formed_body(body, policy),
    ensures
        body_records(body, policy).len() == element_start_count(body),
    decreases body.len(),
{
    if body.len() > 0 {
        lemma_well_formed_drop_first(body, policy);
        lemma_body_records_len(body.drop_first(), policy);
    }
}

/// Running the machine's records region over a well-formed `body` emits the
/// region's records and goes on with the rest of the stream.
proof fn lemma_body_run(
    body: Seq<EventV>,
    tail: Seq<EventV>,
    policy: DecodePolicy,
    acc: Seq<RecordV>,
)
    requires
        well_formed_body(body, policy),
    ensures
        spec_run_from(body + tail, policy, MachineState::InRecords, acc) == spec_run_from(
            tail,
            policy,
            MachineState::InRecords,
            acc + body_records(body, policy),
        ),
    decreases body.len(),
{
    if body.len() == 0 {
        assert(body + tail =~= tail);
        assert(acc + body_records(body, policy) =~= acc);
    } else {
        let whole = body + tail;
        assert(whole[0] == body[0]);
        assert(whole.drop_first() =~= body.drop_first() + tail);
        lemma_well_formed_drop_first(body, policy);
        if is_record_element(body[0], policy) {
            let rec = spec_extract(body[0]->ElementStart_attributes, policy)->Ok_0;
            lemma_body_run(body.drop_first(), tail, policy, acc.push(rec));
            assert(acc.push(rec) + body_records(body.drop_first(), policy) =~= acc + body_records(
                body,
                policy,
            ));
        } else {
            lemma_body_run(body.drop_first(), tail, policy, acc);
        }
    }
}

/// For every well-formed document — a document start, the `TRACKRECORDS`
/// root, a records region whose `RECORD` elements all extract successfully,
/// interleaved with end-elements, then the document's end — the run succeeds
/// and yields exactly one record per `RECORD` element of the region, in
/// document order.
pub proof fn lemma_well_formed_document_run(
    root_attrs: Seq<(Seq<char>, Seq<char>)>,
    body: Seq<EventV>,
    policy: DecodePolicy,
)
    requires
        well_formed_body(body, policy),
    ensures
        spec_run(
            seq![
                EventV::DocumentStart,
                EventV::ElementStart { name: "TRACKRECORDS"@, attributes: root_attrs },
            ] + body + seq![EventV::DocumentEnd],
            policy,
        ) == Ok::<Seq<RecordV>, ErrorV>(body_records(body, policy)),
        body_records(body, policy).len() == element_start_count(body),
{
    let prologue = seq![
        EventV::DocumentStart,
        EventV::ElementStart { name: "TRACKRECORDS"@, attributes: root_attrs },
    ];
    let events = prologue + body + seq![EventV::DocumentEnd];
    let epilogue = seq![EventV::DocumentEnd];
    assert(events[0] == EventV::DocumentStart);
    let ev1 = events.drop_first();
    assert(spec_run_from(events, policy, MachineState::AwaitDocument, Seq::empty())
        == spec_run_from(ev1, policy, MachineState::AwaitDocument, Seq::empty()));
    assert(ev1[0] == EventV::ElementStart { name: "TRACKRECORDS"@, attributes: root_attrs });
    let ev2 = ev1.drop_first();
    assert(spec_run_from(ev1, policy, MachineState::AwaitDocument, Seq::empty())
        == spec_run_from(ev2, policy, MachineState::InRecords, Seq::empty()));
    assert(ev2 =~= body + epilogue);
    lemma_body_run(body, epilogue, policy, Seq::empty());
    let emitted = Seq::<RecordV>::empty() + body_records(body, policy);
    assert(epilogue[0] == EventV::DocumentEnd);
    assert(spec_run_from(epilogue, policy, MachineState::InRecords, emitted) == spec_run_from(
        epilogue.drop_first(),
        policy,
        MachineState::Done,
        emitted,
    ));
    assert(spec_run_from(epilogue.drop_first(), policy, MachineState::Done, emitted) == Ok::<
        Seq<RecordV>,
        ErrorV,
    >(emitted));
    assert(emitted =~= body_records(body, policy));
    lemma_body_records_len(body, policy);
}

proof fn lemma_wrong_root_from(
    events: Seq<EventV>,
    i: int,
    policy: DecodePolicy,
    acc: Seq<RecordV>,
)
    requires
        0 <= i < events.len(),
        forall|j: int| 0 <= j < i ==> events[j] is DocumentStart,
        events[i] matches EventV::ElementStart { name, .. } && name != "TRACKRECORDS"@,
    ensures
        spec_run_from(events, policy, MachineState::AwaitDocument, acc) == Err::<
            Seq<RecordV>,
            ErrorV,
        >(ErrorV::MalformedDocument { detail: "expected root element"@ }),
    decreases i,
{
    if i > 0 {
        assert(events[0] is DocumentStart);
        let rest = events.drop_first();
        assert forall|j: int| 0 <= j < i - 1 implies rest[j] is DocumentStart by {
            assert(rest[j] == events[j + 1]);
        }
        assert(rest[i - 1] == events[i]);
        lemma_wrong_root_from(rest, i - 1, policy, acc);
    }
}

/// A document whose root element is not `TRACKRECORDS` — its first event
/// that is not a document start opens some other element — fails as a
/// malformed document; no record is emitted.
pub proof fn lemma_wrong_root_rejected(events: Seq<EventV>, i: int, policy: DecodePolicy)
    requires
        0 <= i < events.len(),
        forall|j: int| 0 <= j < i ==> events[j] is DocumentStart,
        events[i] matches EventV::ElementStart { name, .. } && name != "TRACKRECORDS"@,
    ensures
        spec_run(events, policy) == Err::<Seq<RecordV>, ErrorV>(
            ErrorV::MalformedDocument { detail: "expected root element"@ },
        ),
{
    lemma_wrong_root_from(events, i, policy, Seq::empty());
}

} // verus!
