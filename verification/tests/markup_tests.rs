use cosmic_notifications::markup::{decode_entity, parse_body, sanitize};

#[test]
fn test_parse_plain_text() {
    let spans = parse_body("Hello world");
    assert_eq!(spans.len(), 1);
}

#[test]
fn test_parse_bold() {
    let spans = parse_body("<b>bold</b> text");
    assert_eq!(spans.len(), 2);
}

#[test]
fn test_parse_nested() {
    let spans = parse_body("<b><i>bold italic</i></b>");
    assert_eq!(spans.len(), 1);
}

#[test]
fn test_strip_script() {
    let spans = parse_body("<script>alert('xss')</script>safe");
    assert!(!spans.is_empty());
}

#[test]
fn test_br_to_newline() {
    let spans = parse_body("line1<br>line2");
    let text: String = spans.iter().map(|_| "segment").collect();
    assert!(!text.is_empty());
}

#[test]
fn test_slack_notification() {
    let input = r#"New message<a href="https://app.slack.com/">app.slack.com</a>"#;
    let spans = parse_body(input);
    assert!(spans.len() >= 1);
}

#[test]
fn bold_segment_is_bold() {
    let spans = parse_body("<b>bold</b> text");
    assert_eq!(spans[0].text, "bold");
    assert!(spans[0].style.bold);
    assert!(!spans[0].style.italic);
    assert_eq!(spans[1].text, " text");
    assert!(!spans[1].style.bold);
}

#[test]
fn nested_segment_is_bold_italic() {
    let spans = parse_body("<b><i>bold italic</i></b>");
    assert_eq!(spans[0].text, "bold italic");
    assert!(spans[0].style.bold);
    assert!(spans[0].style.italic);
}

#[test]
fn script_content_is_stripped() {
    let spans = parse_body("<script>alert('xss')</script>safe");
    for s in &spans {
        assert!(!s.text.contains("alert"));
    }
}

#[test]
fn br_becomes_newline_in_text() {
    let spans = parse_body("line1<br>line2");
    assert_eq!(spans.len(), 1);
    assert_eq!(spans[0].text, "line1\nline2");
}

#[test]
fn sanitize_keeps_supported_tags() {
    let out = sanitize("<b>x</b><blink>y</blink>");
    assert!(out.contains("<b>"));
    assert!(!out.contains("blink"));
}

#[test]
fn decode_named_entities() {
    assert_eq!(decode_entity("&amp;"), "&");
    assert_eq!(decode_entity("&lt;"), "<");
    assert_eq!(decode_entity("&gt;"), ">");
    assert_eq!(decode_entity("&quot;"), "\"");
    assert_eq!(decode_entity("&apos;"), "'");
    assert_eq!(decode_entity("&nbsp;"), " ");
}

#[test]
fn decode_numeric_entities() {
    assert_eq!(decode_entity("&#x41;"), "A");
    assert_eq!(decode_entity("&#X41;"), "&#X41;");
    assert_eq!(decode_entity("&#65;"), "A");
    assert_eq!(decode_entity("&#x1F600;"), "\u{1F600}");
}

#[test]
fn bad_entities_stay_as_written() {
    assert_eq!(decode_entity("&bogus;"), "&bogus;");
    assert_eq!(decode_entity("&#xD800;"), "&#xD800;");
    assert_eq!(decode_entity("&#x;"), "&#x;");
    assert_eq!(decode_entity("&#99999999999;"), "&#99999999999;");
    assert_eq!(decode_entity("&#x41"), "&#x41");
}

#[test]
fn entities_decode_inside_body() {
    let spans = parse_body("a &amp; b");
    assert_eq!(spans.len(), 1);
    assert_eq!(spans[0].text, "a & b");
}
