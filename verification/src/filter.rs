use vstd::prelude::*;

verus! {

/// What a callsite declares for the provider: the keyword and tag of its events.
#[derive(Clone, Copy, Debug)]
pub struct EventMetadata {
    pub kw: u64,
    pub event_tag: u32,
}

/// How often the layer wants to be asked about a callsite.
#[derive(Clone, Copy, Debug, PartialEq, Eq, Structural)]
pub enum CallsiteInterest {
    /// Every span and event of the callsite is enabled.
    Always,
    /// No span or event of the callsite is enabled.
    Never,
    /// Ask again for each span or event of the callsite.
    Sometimes,
}

/// The keyword of a callsite's events: the one its metadata declares, else the
/// layer's default keyword.
pub open spec fn spec_event_keyword(meta: Option<&EventMetadata>, default_keyword: u64) -> u64 {
    match meta {
        Some(m) => m.kw,
        None => default_keyword,
    }
}

/// The tag of a callsite's events: the one its metadata declares, else 0.
pub open spec fn spec_event_tag(meta: Option<&EventMetadata>) -> u32 {
    match meta {
        Some(m) => m.event_tag,
        None => 0,
    }
}

/// A callsite that declares metadata gets its own keyword and tag, whatever the
/// layer's default keyword; one that declares none gets the default keyword and
/// tag 0.
pub proof fn lemma_declared_keyword_and_tag_win(m: EventMetadata, d: u64)
    ensures
        spec_event_keyword(Some(&m), d) == m.kw,
        spec_event_tag(Some(&m)) == m.event_tag,
        spec_event_keyword(None, d) == d,
        spec_event_tag(None) == 0,
{
}

/// The keyword of a callsite's events.
pub fn event_keyword(meta: Option<&EventMetadata>, default_keyword: u64) -> (kw: u64)
    ensures
        kw == spec_event_keyword(meta, default_keyword),
{
    if let Some(m) = meta {
        m.kw
    } else {
        default_keyword
    }
}

/// The keyword and tag of a callsite's events.
pub fn event_keyword_and_tag(meta: Option<&EventMetadata>, default_keyword: u64) -> (r: (u64, u32))
    ensures
        r.0 == spec_event_keyword(meta, default_keyword),
        r.1 == spec_event_tag(meta),
{
    if let Some(m) = meta {
        (m.kw, m.event_tag)
    } else {
        (default_keyword, 0)
    }
}

/// The interest in a callsite. A provider that reports when it is enabled
/// (`provider_enabled` is `Some`) decides once per callsite: always if it is
/// enabled for the callsite's level and keyword, never otherwise. A provider that
/// does not (`None`) is asked again for each span and event.
pub fn callsite_interest(provider_enabled: Option<bool>) -> (i: CallsiteInterest)
    ensures
        i == (match provider_enabled {
            Some(true) => CallsiteInterest::Always,
            Some(false) => CallsiteInterest::Never,
            None => CallsiteInterest::Sometimes,
        }),
{
    match provider_enabled {
        Some(enabled) => {
            if enabled {
                CallsiteInterest::Always
            } else {
                CallsiteInterest::Never
            }
        },
        None => CallsiteInterest::Sometimes,
    }
}

/// What an event record carries besides its fields and timestamp.
#[derive(Clone, Copy, Debug)]
pub struct EventRecordHeader {
    pub current_span: u64,
    pub parent_span: u64,
    pub keyword: u64,
    pub tag: u32,
}

/// The header of an event's record: the ID of the span the event belongs to and of
/// that span's parent (0 where there is none), and the keyword and tag of the
/// event's callsite.
pub fn event_record_header(
    current_span: Option<u64>,
    parent_span: Option<u64>,
    meta: Option<&EventMetadata>,
    default_keyword: u64,
) -> (h: EventRecordHeader)
    ensures
        h.current_span == (match current_span {
            Some(id) => id,
            None => 0,
        }),
        h.parent_span == (match (current_span, parent_span) {
            (Some(_), Some(id)) => id,
            _ => 0,
        }),
        h.keyword == spec_event_keyword(meta, default_keyword),
        h.tag == spec_event_tag(meta),
{
    let current = match current_span {
        Some(id) => id,
        None => 0,
    };
    let parent = match current_span {
        Some(_) => match parent_span {
            Some(id) => id,
            None => 0,
        },
        None => 0,
    };
    let (keyword, tag) = event_keyword_and_tag(meta, default_keyword);
    EventRecordHeader { current_span: current, parent_span: parent, keyword, tag }
}

} // verus!
