use vstd::prelude::*;

verus! {

/// A lower-case hexadecimal digit.
pub open spec fn is_lower_hex(c: char) -> bool {
    ('0' <= c && c <= '9') || ('a' <= c && c <= 'f')
}

/// `s` is a UUID of version 4 in hyphenated form: 36 characters, `-` at
/// positions 8, 13, 18 and 23, lower-case hexadecimal digits elsewhere, and
/// the version digit `4` at position 14.
pub open spec fn is_uuid_v4_text(s: Seq<char>) -> bool {
    &&& s.len() == 36
    &&& forall|i: int|
        0 <= i < 36 ==> if i == 8 || i == 13 || i == 18 || i == 23 {
            #[trigger] s[i] == '-'
        } else {
            is_lower_hex(s[i])
        }
    &&& s[14] == '4'
}

/// Relies on uuid: `Uuid::new_v4` draws a random version 4 identifier, and
/// its `Display` writes it hyphenated in lower case.
#[verifier::external_body]
fn new_event_id() -> (r: String)
    ensures
        is_uuid_v4_text(r@),
{
    uuid::Uuid::new_v4().to_string()
}

/// Relies on chrono: `Utc::now` reads the clock and `timestamp_millis` gives
/// the milliseconds since the Unix epoch.
#[verifier::external_body]
fn now_millis() -> (r: i64) {
    chrono::Utc::now().timestamp_millis()
}

/// The event type that every envelope of this relay carries.
pub open spec fn event_type() -> Seq<char> {
    "example.test"@
}

/// The source URI that every envelope of this relay carries.
pub open spec fn event_source() -> Seq<char> {
    "http://localhost/"@
}

/// A structured event wrapped around a caller's payload.
#[derive(Clone, Debug, PartialEq, Eq)]
pub struct Envelope {
    pub id: String,
    pub ty: String,
    pub source: String,
    /// Creation time, in milliseconds since the Unix epoch (UTC).
    pub time_millis: i64,
    pub content_type: String,
    /// The payload, carried verbatim.
    pub data: String,
}

/// `e` carries the fixed type and source, the identifier `id`, the time
/// `time`, and the payload `data` of media type `content_type`.
pub open spec fn envelope_holds(
    e: Envelope,
    id: Seq<char>,
    time: i64,
    content_type: Seq<char>,
    data: Seq<char>,
) -> bool {
    &&& e.id@ == id
    &&& e.ty@ == event_type()
    &&& e.source@ == event_source()
    &&& e.time_millis == time
    &&& e.content_type@ == content_type
    &&& e.data@ == data
}

impl Envelope {
    /// An envelope with the given identifier and time around `data`.
    pub fn with_identity(id: String, time_millis: i64, content_type: &str, data: String) -> (r:
        Envelope)
        ensures
            envelope_holds(r, id@, time_millis, content_type@, data@),
    {
        let ty = String::from_str("example.test");
        let source = String::from_str("http://localhost/");
        proof {
            reveal_strlit("example.test");
            reveal_strlit("http://localhost/");
        }
        Envelope {
            id,
            ty,
            source,
            time_millis,
            content_type: String::from_str(content_type),
            data,
        }
    }

    /// Wraps `data` in an envelope with a fresh random identifier and the
    /// current time.
    pub fn encode(data: String, content_type: &str) -> (r: Envelope)
        ensures
            is_uuid_v4_text(r.id@),
            envelope_holds(r, r.id@, r.time_millis, content_type@, data@),
    {
        let id = new_event_id();
        let time = now_millis();
        Envelope::with_identity(id, time, content_type, data)
    }
}

} // verus!
