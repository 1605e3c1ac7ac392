use poem::http::header::{HeaderMap, HeaderName, HeaderValue};
use poem_adapters::is_event_stream;

fn content_type(values: &[&[u8]]) -> HeaderMap {
    let mut map = HeaderMap::new();
    for v in values {
        map.append(HeaderName::from_static("content-type"), HeaderValue::from_bytes(v).unwrap());
    }
    map
}

#[test]
fn event_stream_content_type_streams() {
    assert!(is_event_stream(&content_type(&[b"text/event-stream"])));
    assert!(is_event_stream(&content_type(&[b"  \ttext/event-stream; charset=utf-8"])));
}

#[test]
fn other_content_types_are_buffered() {
    assert!(!is_event_stream(&content_type(&[b"text/html"])));
    assert!(!is_event_stream(&content_type(&[b"TEXT/EVENT-STREAM"])));
    assert!(!is_event_stream(&content_type(&[b"text/event"])));
    assert!(!is_event_stream(&HeaderMap::new()));
}

#[test]
fn non_text_content_type_is_buffered() {
    assert!(!is_event_stream(&content_type(&[b"text/event-stream\xff"])));
}

#[test]
fn only_the_first_content_type_counts() {
    assert!(!is_event_stream(&content_type(&[b"text/plain", b"text/event-stream"])));
    assert!(is_event_stream(&content_type(&[b"text/event-stream", b"text/plain"])));
}
