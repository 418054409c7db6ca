use tracing_etw::filter::{callsite_interest, event_keyword, event_keyword_and_tag, event_record_header};
use tracing_etw::provider::is_valid_provider_group_name;
use tracing_etw::{CallsiteInterest, EventMetadata};

#[test]
fn keyword_from_metadata_or_default() {
    let meta = EventMetadata { kw: 0x40, event_tag: 3 };
    assert_eq!(event_keyword(Some(&meta), 1), 0x40);
    assert_eq!(event_keyword(None, 1), 1);
    assert_eq!(event_keyword(None, 0xff), 0xff);
}

#[test]
fn keyword_and_tag_from_metadata_or_defaults() {
    let meta = EventMetadata { kw: 0x40, event_tag: 3 };
    assert_eq!(event_keyword_and_tag(Some(&meta), 1), (0x40, 3));
    assert_eq!(event_keyword_and_tag(None, 9), (9, 0));
}

#[test]
fn callsite_interest_follows_provider() {
    assert_eq!(callsite_interest(Some(true)), CallsiteInterest::Always);
    assert_eq!(callsite_interest(Some(false)), CallsiteInterest::Never);
    assert_eq!(callsite_interest(None), CallsiteInterest::Sometimes);
}

#[test]
fn event_record_header_fills_missing_with_zero() {
    let meta = EventMetadata { kw: 8, event_tag: 2 };
    let h = event_record_header(Some(10), Some(4), Some(&meta), 1);
    assert_eq!((h.current_span, h.parent_span, h.keyword, h.tag), (10, 4, 8, 2));
    let h = event_record_header(Some(10), None, None, 1);
    assert_eq!((h.current_span, h.parent_span, h.keyword, h.tag), (10, 0, 1, 0));
    let h = event_record_header(None, Some(4), None, 6);
    assert_eq!((h.current_span, h.parent_span, h.keyword, h.tag), (0, 0, 6, 0));
}

#[test]
fn group_names_are_lowercase_alphanumeric() {
    assert!(is_valid_provider_group_name("abc123"));
    assert!(is_valid_provider_group_name(""));
    assert!(!is_valid_provider_group_name("Abc"));
    assert!(!is_valid_provider_group_name("a-b"));
    assert!(!is_valid_provider_group_name("\u{101}"));
}
