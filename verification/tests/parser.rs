use lyrics_parser::{parse, parse_lyrics_xml, serialize, ParseError};

const SAMPLE: &str = "<tt>\n  <head>\n    <metadata>\n      <itunes-metadata>\n        <songwriters>\n          <songwriter>Name A</songwriter>\n          <songwriter>Name B</songwriter>\n        </songwriters>\n      </itunes-metadata>\n    </metadata>\n  </head>\n  <body>\n    <div>\n      <p begin=\"00:12.500\" end=\"00:15.000\">Line text</p>\n      <p begin=\"00:15.000\" end=\"00:18.000\">\n        <span>Word</span> <span>by</span> <span>word</span>\n      </p>\n    </div>\n  </body>\n</tt>";

#[test]
fn end_to_end_sample() {
    let doc = parse(SAMPLE).unwrap();
    assert_eq!(doc.lines.len(), 2);
    assert_eq!(doc.lines[0].text, "Line text");
    assert_eq!(doc.lines[0].start_time_micros, 12_500_000);
    assert_eq!(doc.lines[0].end_time_micros, 15_000_000);
    assert_eq!(doc.lines[1].text, "Word by word ");
    assert_eq!(doc.lines[1].start_time_micros, 15_000_000);
    assert_eq!(doc.lines[1].end_time_micros, 18_000_000);
    assert_eq!(doc.leading_silence_micros, 0);
    assert_eq!(doc.songwriters, vec!["Name A".to_string(), "Name B".to_string()]);
}

#[test]
fn identifiers_are_positional_and_distinct() {
    let doc = parse(SAMPLE).unwrap();
    assert_eq!(doc.lines[0].id, "line-0");
    assert_eq!(doc.lines[1].id, "line-1");
    assert_ne!(doc.lines[0].id, doc.lines[1].id);
}

#[test]
fn many_lines_distinct_ids() {
    let mut body = String::new();
    for _ in 0..12 {
        body.push_str("<p begin=\"1\" end=\"2\">x</p>");
    }
    let doc_text = format!(
        "<tt><head><metadata><itunes-metadata/></metadata></head><body><div>{}</div></body></tt>",
        body
    );
    let doc = parse(&doc_text).unwrap();
    assert_eq!(doc.lines.len(), 12);
    for i in 0..12 {
        for j in 0..12 {
            if i != j {
                assert_ne!(doc.lines[i].id, doc.lines[j].id);
            }
        }
    }
    assert_eq!(doc.lines[10].id, "line-10");
}

#[test]
fn order_preserved_across_segments() {
    let doc_text = "<tt><head><metadata><itunes-metadata/></metadata></head><body>\
        <div><p begin=\"1\" end=\"2\">one</p><p begin=\"2\" end=\"3\">two</p></div>\
        <div><p begin=\"3\" end=\"4\">three</p><p begin=\"4\" end=\"5\">four</p></div>\
        </body></tt>";
    let doc = parse(doc_text).unwrap();
    let texts: Vec<&str> = doc.lines.iter().map(|l| l.text.as_str()).collect();
    assert_eq!(texts, vec!["one", "two", "three", "four"]);
}

#[test]
fn time_parsing_minutes_and_seconds() {
    let doc_text = "<tt><head><metadata><itunes-metadata/></metadata></head><body>\
        <div><p begin=\"01:02.5\" end=\"3.25\">a</p><p begin=\"00:00\" end=\"62.5\">b</p></div>\
        </body></tt>";
    let doc = parse(doc_text).unwrap();
    assert_eq!(doc.lines[0].start_time_micros, 62_500_000);
    assert_eq!(doc.lines[0].end_time_micros, 3_250_000);
    assert_eq!(doc.lines[1].start_time_micros, 0);
    assert_eq!(doc.lines[1].end_time_micros, 62_500_000);
}

#[test]
fn time_parsing_exec_helper() {
    let t = |s: &str| lyrics_parser::timing::parse_time(&s.chars().collect());
    assert_eq!(t("01:02.5"), Some(62_500_000));
    assert_eq!(t("3.25"), Some(3_250_000));
    assert_eq!(t("00:00"), Some(0));
    assert_eq!(t(".5"), Some(500_000));
    assert_eq!(t("0.1234567"), Some(123_456));
    assert_eq!(t("xx:10"), Some(10_000_000));
    assert_eq!(t("10:xx"), None);
    assert_eq!(t(""), None);
    assert_eq!(t("12345678901"), None);
}

#[test]
fn word_concatenation_keeps_trailing_space() {
    let doc_text = "<tt><head><metadata><itunes-metadata/></metadata></head><body>\
        <div><p begin=\"0\" end=\"1\"><span>Hello</span><span>world</span></p></div>\
        </body></tt>";
    let doc = parse(doc_text).unwrap();
    assert_eq!(doc.lines[0].text, "Hello world ");
}

#[test]
fn word_without_text_is_skipped() {
    let doc_text = "<tt><head><metadata><itunes-metadata/></metadata></head><body>\
        <div><p begin=\"0\" end=\"1\"><span>A</span><span/><span>B</span></p></div>\
        </body></tt>";
    let doc = parse(doc_text).unwrap();
    assert_eq!(doc.lines[0].text, "A B ");
}

#[test]
fn line_with_no_text_and_no_words_is_empty() {
    let doc_text = "<tt><head><metadata><itunes-metadata/></metadata></head><body>\
        <div><p begin=\"0\" end=\"1\"/></div></body></tt>";
    let doc = parse(doc_text).unwrap();
    assert_eq!(doc.lines.len(), 1);
    assert_eq!(doc.lines[0].text, "");
}

#[test]
fn missing_metadata_children_yields_empty_songwriters() {
    let doc_text =
        "<tt><head><metadata><itunes-metadata/></metadata></head><body><div/></body></tt>";
    let doc = parse(doc_text).unwrap();
    assert!(doc.songwriters.is_empty());
    assert!(doc.lines.is_empty());
}

#[test]
fn missing_body_fails() {
    let doc_text = "<tt><head><metadata><itunes-metadata/></metadata></head></tt>";
    assert_eq!(parse(doc_text), Err(ParseError::MissingSection("body".to_string())));
}

#[test]
fn missing_head_fails() {
    let doc_text = "<tt><body><div/></body></tt>";
    assert_eq!(parse(doc_text), Err(ParseError::MissingSection("head".to_string())));
}

#[test]
fn missing_metadata_fails() {
    let doc_text = "<tt><head><other/></head><body><div/></body></tt>";
    assert_eq!(parse(doc_text), Err(ParseError::MissingSection("metadata".to_string())));
}

#[test]
fn empty_metadata_fails() {
    let doc_text = "<tt><head><metadata/></head><body><div/></body></tt>";
    assert_eq!(parse(doc_text), Err(ParseError::MissingSection("itunes-metadata".to_string())));
}

#[test]
fn missing_begin_attribute_fails() {
    let doc_text = "<tt><head><metadata><itunes-metadata/></metadata></head><body>\
        <div><p end=\"1\">x</p></div></body></tt>";
    assert_eq!(parse(doc_text), Err(ParseError::MissingAttribute("begin".to_string())));
}

#[test]
fn missing_end_attribute_fails() {
    let doc_text = "<tt><head><metadata><itunes-metadata/></metadata></head><body>\
        <div><p begin=\"1\">x</p></div></body></tt>";
    assert_eq!(parse(doc_text), Err(ParseError::MissingAttribute("end".to_string())));
}

#[test]
fn invalid_seconds_fails() {
    let doc_text = "<tt><head><metadata><itunes-metadata/></metadata></head><body>\
        <div><p begin=\"1:bad\" end=\"2\">x</p></div></body></tt>";
    assert_eq!(parse(doc_text), Err(ParseError::InvalidTimeFormat));
}

#[test]
fn songwriter_without_text_fails() {
    let doc_text = "<tt><head><metadata><itunes-metadata><songwriters>\
        <songwriter>A</songwriter><songwriter/></songwriters></itunes-metadata>\
        </metadata></head><body><div/></body></tt>";
    assert_eq!(parse(doc_text), Err(ParseError::MissingText));
}

#[test]
fn leading_silence_read_and_defaulted() {
    let with = "<tt><head><metadata><itunes-metadata leadingSilence=\"1.5\"/></metadata></head>\
        <body><div/></body></tt>";
    assert_eq!(parse(with).unwrap().leading_silence_micros, 1_500_000);
    let without =
        "<tt><head><metadata><itunes-metadata/></metadata></head><body><div/></body></tt>";
    assert_eq!(parse(without).unwrap().leading_silence_micros, 0);
}

#[test]
fn invalid_leading_silence_fails() {
    let doc_text = "<tt><head><metadata><itunes-metadata leadingSilence=\"abc\"/></metadata>\
        </head><body><div/></body></tt>";
    assert_eq!(parse(doc_text), Err(ParseError::InvalidNumber));
}

#[test]
fn malformed_markup_fails() {
    assert_eq!(parse(""), Err(ParseError::Malformed));
    assert_eq!(parse("<a><b></a>"), Err(ParseError::Malformed));
    assert_eq!(parse("<a>"), Err(ParseError::Malformed));
    assert_eq!(parse("just text"), Err(ParseError::Malformed));
    assert_eq!(parse("<a></a><b></b>"), Err(ParseError::Malformed));
}

#[test]
fn round_trip_stability() {
    let first = parse(SAMPLE).unwrap();
    let second = parse(SAMPLE).unwrap();
    assert_eq!(first, second);
}

#[test]
fn serialize_exact_output() {
    let doc_text = "<tt><head><metadata><itunes-metadata/></metadata></head><body>\
        <div><p begin=\"1.5\" end=\"2\">Hi</p></div></body></tt>";
    let doc = parse(doc_text).unwrap();
    let json = serialize(&doc);
    assert_eq!(
        json,
        "{\"lyrics\":[{\"id\":\"line-0\",\"line\":\"Hi\",\"startTime\":1.5,\"endTime\":2}],\
         \"leadingSilence\":0,\"songwriters\":[]}"
    );
}

#[test]
fn serialize_escapes_and_songwriters() {
    let doc_text = "<tt><head><metadata><itunes-metadata leadingSilence=\"0.25\">\
        <songwriters><songwriter>Name A</songwriter></songwriters></itunes-metadata>\
        </metadata></head><body><div><p begin=\"0\" end=\"1\">He said \"hi\"</p></div>\
        </body></tt>";
    let doc = parse(doc_text).unwrap();
    let json = serialize(&doc);
    assert_eq!(
        json,
        "{\"lyrics\":[{\"id\":\"line-0\",\"line\":\"He said \\\"hi\\\"\",\"startTime\":0,\
         \"endTime\":1}],\"leadingSilence\":0.25,\"songwriters\":[\"Name A\"]}"
    );
}

#[test]
fn parse_lyrics_xml_boundary() {
    let ok = parse_lyrics_xml(SAMPLE).unwrap();
    assert!(ok.starts_with("{\"lyrics\":["));
    assert!(ok.contains("\"line\":\"Line text\""));
    assert!(ok.contains("\"songwriters\":[\"Name A\",\"Name B\"]"));
    assert_eq!(parse_lyrics_xml("<oops>"), Err(ParseError::Malformed));
}

#[test]
fn attributes_and_unknown_children_tolerated() {
    let doc_text = "<tt xmlns=\"http://example.invalid/ns\"><head><metadata>\
        <itunes-metadata/></metadata></head><body><div note=\"verse\">\
        <p begin=\"0\" end=\"1\">a</p><other/><p begin=\"1\" end=\"2\">b</p></div>\
        <aside/></body></tt>";
    let doc = parse(doc_text).unwrap();
    assert_eq!(doc.lines.len(), 2);
    assert_eq!(doc.lines[0].text, "a");
    assert_eq!(doc.lines[1].text, "b");
}

#[test]
fn songwriter_error_precedes_line_errors() {
    let doc_text = "<tt><head><metadata><itunes-metadata><songwriters>\
        <songwriter/></songwriters></itunes-metadata></metadata></head><body>\
        <div><p begin=\"bad\" end=\"2\">x</p></div></body></tt>";
    assert_eq!(parse(doc_text), Err(ParseError::MissingText));
}

#[test]
fn line_error_precedes_leading_silence_error() {
    let doc_text = "<tt><head><metadata><itunes-metadata leadingSilence=\"bad\"/>\
        </metadata></head><body><div><p end=\"2\">x</p></div></body></tt>";
    assert_eq!(parse(doc_text), Err(ParseError::MissingAttribute("begin".to_string())));
}

#[test]
fn songwriters_node_tag_is_not_validated() {
    let doc_text = "<tt><head><metadata><itunes-metadata><credits>\
        <who>A</who></credits></itunes-metadata></metadata></head><body><div/></body></tt>";
    let doc = parse(doc_text).unwrap();
    assert_eq!(doc.songwriters, vec!["A".to_string()]);
}

#[test]
fn fractional_minutes_are_scaled() {
    let t = |s: &str| lyrics_parser::timing::parse_time(&s.chars().collect());
    assert_eq!(t("1.5:30"), Some(120_000_000));
}
