use trackrecords::event::Event;
use trackrecords::machine::process_events;
use trackrecords::pipeline::parse_records;
use trackrecords::record::{extract_record, lookup_attr, str_eq, PipelineError, Record};
use trackrecords::timestamp::{decode_digits, parse_digits_u64, DecodePolicy, Timestamp};

fn attrs(pairs: &[(&str, &str)]) -> Vec<(String, String)> {
    pairs.iter().map(|(n, v)| (n.to_string(), v.to_string())).collect()
}

fn full_attrs() -> Vec<(String, String)> {
    attrs(&[
        ("date", "1500000000000000"),
        ("class", "GT3"),
        ("comment", "clean lap"),
        ("laptime", "1:23.456"),
    ])
}

#[test]
fn micro_epoch_decode_discards_subseconds() {
    let t = decode_digits("1500000000000000", DecodePolicy::MicroEpoch).unwrap();
    assert_eq!(t.seconds, 1500000000);
    assert_eq!(t.nanos, 0);
}

#[test]
fn micro_epoch_decode_floors_toward_zero() {
    let t = decode_digits("1999999", DecodePolicy::MicroEpoch).unwrap();
    assert_eq!(t.seconds, 1);
    assert_eq!(t.nanos, 0);
}

#[test]
fn split_epoch_decode_splits_at_tenth_character() {
    let t = decode_digits("1500000000123456789", DecodePolicy::SplitEpoch).unwrap();
    assert_eq!(t.seconds, 1500000000);
    assert_eq!(t.nanos, 123456789);
}

#[test]
fn split_epoch_decode_fails_on_short_string() {
    assert_eq!(decode_digits("150000000", DecodePolicy::SplitEpoch), None);
    assert_eq!(decode_digits("", DecodePolicy::SplitEpoch), None);
}

#[test]
fn split_epoch_decode_fails_on_empty_nanoseconds_run() {
    assert_eq!(decode_digits("1500000000", DecodePolicy::SplitEpoch), None);
}

#[test]
fn split_epoch_decode_fails_on_oversized_nanoseconds() {
    assert_eq!(decode_digits("15000000009999999999", DecodePolicy::SplitEpoch), None);
}

#[test]
fn micro_epoch_decode_fails_on_empty_or_non_digits() {
    assert_eq!(decode_digits("", DecodePolicy::MicroEpoch), None);
    assert_eq!(decode_digits("15e6", DecodePolicy::MicroEpoch), None);
    assert_eq!(decode_digits("-1500", DecodePolicy::MicroEpoch), None);
    assert_eq!(decode_digits("15 00", DecodePolicy::MicroEpoch), None);
}

#[test]
fn micro_epoch_decode_fails_on_overflow() {
    // one more than i64::MAX
    assert_eq!(decode_digits("9223372036854775808", DecodePolicy::MicroEpoch), None);
    let t = decode_digits("9223372036854775807", DecodePolicy::MicroEpoch).unwrap();
    assert_eq!(t.seconds, 9223372036854775807i64 / 1000000);
}

#[test]
fn parse_digits_accepts_bounds_and_rejects_beyond() {
    assert_eq!(parse_digits_u64("255", 0, 3, 255), Some(255));
    assert_eq!(parse_digits_u64("256", 0, 3, 255), None);
    assert_eq!(parse_digits_u64("0255", 1, 4, 255), Some(255));
    assert_eq!(parse_digits_u64("000", 0, 3, 255), Some(0));
}

#[test]
fn str_eq_compares_characters() {
    assert!(str_eq("RECORD", "RECORD"));
    assert!(!str_eq("RECORD", "RECORDS"));
    assert!(!str_eq("RECORD", "record"));
}

#[test]
fn lookup_attr_takes_first_match() {
    let a = attrs(&[("class", "first"), ("class", "second")]);
    assert_eq!(lookup_attr(&a, "class"), Some("first".to_string()));
    assert_eq!(lookup_attr(&a, "comment"), None);
}

#[test]
fn extract_record_resolves_all_four_attributes() {
    let rec = extract_record(&full_attrs(), DecodePolicy::MicroEpoch).unwrap();
    assert_eq!(rec.class, "GT3");
    assert_eq!(rec.comment, "clean lap");
    assert_eq!(rec.laptime, "1:23.456");
    assert_eq!(rec.date, Timestamp { seconds: 1500000000, nanos: 0 });
}

#[test]
fn extract_record_ignores_attribute_order_and_extras() {
    let a = attrs(&[
        ("laptime", "1:23.456"),
        ("extra", "ignored"),
        ("comment", "clean lap"),
        ("class", "GT3"),
        ("date", "1500000000000000"),
    ]);
    let rec = extract_record(&a, DecodePolicy::MicroEpoch).unwrap();
    assert_eq!(rec.class, "GT3");
    assert_eq!(rec.date, Timestamp { seconds: 1500000000, nanos: 0 });
}

#[test]
fn extract_record_names_each_missing_attribute() {
    for missing in ["date", "class", "comment", "laptime"] {
        let a: Vec<(String, String)> =
            full_attrs().into_iter().filter(|(n, _)| n != missing).collect();
        let err = extract_record(&a, DecodePolicy::MicroEpoch).unwrap_err();
        assert_eq!(err, PipelineError::MissingAttribute { name: missing.to_string() });
    }
}

#[test]
fn extract_record_reports_bad_timestamp() {
    let a = attrs(&[
        ("date", "not-a-number"),
        ("class", "GT3"),
        ("comment", "clean lap"),
        ("laptime", "1:23.456"),
    ]);
    let err = extract_record(&a, DecodePolicy::MicroEpoch).unwrap_err();
    assert_eq!(err, PipelineError::TimestampFormat);
}

#[test]
fn state_machine_tolerates_any_end_element() {
    let events = vec![
        Event::DocumentStart,
        Event::ElementStart { name: "TRACKRECORDS".to_string(), attributes: vec![] },
        Event::ElementEnd { name: "SOMETHING_ELSE".to_string() },
        Event::DocumentEnd,
    ];
    let records = process_events(&events, DecodePolicy::MicroEpoch).unwrap();
    assert!(records.is_empty());
}

#[test]
fn state_machine_rejects_stray_content_in_records_region() {
    let events = vec![
        Event::DocumentStart,
        Event::ElementStart { name: "TRACKRECORDS".to_string(), attributes: vec![] },
        Event::Other,
    ];
    let err = process_events(&events, DecodePolicy::MicroEpoch).unwrap_err();
    assert_eq!(err, PipelineError::MalformedDocument { detail: "unexpected element".to_string() });
}

#[test]
fn state_machine_surfaces_tokenizer_errors() {
    let events = vec![
        Event::DocumentStart,
        Event::SyntaxError { detail: "boom".to_string() },
    ];
    let err = process_events(&events, DecodePolicy::MicroEpoch).unwrap_err();
    assert_eq!(err, PipelineError::XmlSyntax { detail: "boom".to_string() });
}

#[test]
fn pipeline_extracts_records_in_document_order() {
    let doc = r#"<?xml version="1.0"?>
        <TRACKRECORDS>
            <RECORD date="1500000000000000" class="GT3" comment="first" laptime="1:23.456"/>
            <RECORD date="1500000001000000" class="GT4" comment="second" laptime="1:24.000"/>
            <RECORD date="1500000002000000" class="GT3" comment="third" laptime="1:25.999"/>
        </TRACKRECORDS>"#;
    let records = parse_records(doc, DecodePolicy::MicroEpoch).unwrap();
    assert_eq!(records.len(), 3);
    assert_eq!(records[0].comment, "first");
    assert_eq!(records[1].comment, "second");
    assert_eq!(records[2].comment, "third");
    assert_eq!(records[0].date, Timestamp { seconds: 1500000000, nanos: 0 });
    assert_eq!(records[1].date, Timestamp { seconds: 1500000001, nanos: 0 });
    assert_eq!(records[2].class, "GT3");
}

#[test]
fn pipeline_accepts_empty_records_region() {
    let records = parse_records("<TRACKRECORDS></TRACKRECORDS>", DecodePolicy::MicroEpoch)
        .unwrap();
    assert!(records.is_empty());
}

#[test]
fn pipeline_decodes_split_epoch_when_selected() {
    let doc = r#"<TRACKRECORDS>
        <RECORD date="1500000000123456789" class="GT3" comment="c" laptime="1:23.456"/>
    </TRACKRECORDS>"#;
    let records = parse_records(doc, DecodePolicy::SplitEpoch).unwrap();
    assert_eq!(records[0].date, Timestamp { seconds: 1500000000, nanos: 123456789 });
    // the same document under the micro-epoch policy reads the whole string
    let micro = parse_records(doc, DecodePolicy::MicroEpoch).unwrap();
    assert_eq!(micro[0].date, Timestamp { seconds: 1500000000123, nanos: 0 });
}

#[test]
fn pipeline_rejects_short_date_under_split_epoch() {
    let doc = r#"<TRACKRECORDS>
        <RECORD date="150000000" class="GT3" comment="c" laptime="1:23.456"/>
    </TRACKRECORDS>"#;
    let err = parse_records(doc, DecodePolicy::SplitEpoch).unwrap_err();
    assert_eq!(err, PipelineError::TimestampFormat);
}

#[test]
fn pipeline_names_missing_attributes() {
    for missing in ["date", "class", "comment", "laptime"] {
        let all = [
            ("date", "1500000000000000"),
            ("class", "GT3"),
            ("comment", "clean lap"),
            ("laptime", "1:23.456"),
        ];
        let kept: Vec<String> = all
            .iter()
            .filter(|(n, _)| *n != missing)
            .map(|(n, v)| format!("{}=\"{}\"", n, v))
            .collect();
        let doc = format!("<TRACKRECORDS><RECORD {}/></TRACKRECORDS>", kept.join(" "));
        let err = parse_records(&doc, DecodePolicy::MicroEpoch).unwrap_err();
        assert_eq!(err, PipelineError::MissingAttribute { name: missing.to_string() });
    }
}

#[test]
fn pipeline_rejects_wrong_root_before_any_record() {
    let doc = r#"<NOTRECORDS>
        <RECORD date="1500000000000000" class="GT3" comment="c" laptime="1:23.456"/>
    </NOTRECORDS>"#;
    let err = parse_records(doc, DecodePolicy::MicroEpoch).unwrap_err();
    assert_eq!(
        err,
        PipelineError::MalformedDocument { detail: "expected root element".to_string() }
    );
}

#[test]
fn pipeline_rejects_unexpected_element_in_records_region() {
    let doc = "<TRACKRECORDS><LAP/></TRACKRECORDS>";
    let err = parse_records(doc, DecodePolicy::MicroEpoch).unwrap_err();
    assert_eq!(err, PipelineError::MalformedDocument { detail: "unexpected element".to_string() });
}

#[test]
fn pipeline_rejects_character_data_in_records_region() {
    let doc = "<TRACKRECORDS>stray text</TRACKRECORDS>";
    let err = parse_records(doc, DecodePolicy::MicroEpoch).unwrap_err();
    assert_eq!(err, PipelineError::MalformedDocument { detail: "unexpected element".to_string() });
}

#[test]
fn pipeline_reports_xml_syntax_errors() {
    let err = parse_records("<TRACKRECORDS><RECORD", DecodePolicy::MicroEpoch).unwrap_err();
    assert!(matches!(err, PipelineError::XmlSyntax { .. }));
}

#[test]
fn pipeline_is_deterministic_across_runs() {
    let doc = r#"<TRACKRECORDS>
        <RECORD date="1500000000123456789" class="GT3" comment="c" laptime="1:23.456"/>
        <RECORD date="1600000000000000000" class="GT4" comment="d" laptime="1:24.000"/>
    </TRACKRECORDS>"#;
    for policy in [DecodePolicy::MicroEpoch, DecodePolicy::SplitEpoch] {
        let first: Result<Vec<Record>, PipelineError> = parse_records(doc, policy);
        let second = parse_records(doc, policy);
        assert_eq!(first, second);
    }
}

#[test]
fn pipeline_ignores_comments_and_whitespace() {
    let doc = r#"<TRACKRECORDS>
        <!-- a comment between records -->
        <RECORD date="1500000000000000" class="GT3" comment="c" laptime="1:23.456"/>
    </TRACKRECORDS>"#;
    let records = parse_records(doc, DecodePolicy::MicroEpoch).unwrap();
    assert_eq!(records.len(), 1);
}
