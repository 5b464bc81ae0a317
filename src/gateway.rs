use vstd::prelude::*;
use crate::config::Config;
use crate::envelope::{envelope_holds, is_uuid_v4_text, Envelope};
use crate::payload::decoded;

verus! {

/// How a request body is encoded.
#[derive(Clone, Copy, Debug, PartialEq, Eq)]
pub enum BodyKind {
    /// Structured data (JSON).
    Json,
    /// URL-encoded form data.
    Form,
}

/// Why a request is refused before any publish.
#[derive(Clone, Copy, Debug, PartialEq, Eq)]
pub enum Rejection {
    /// The declared content type is missing or neither accepted encoding.
    UnsupportedMediaType,
}

/// `p` is a prefix of `s`.
pub open spec fn has_prefix(s: Seq<char>, p: Seq<char>) -> bool {
    p.len() <= s.len() && s.subrange(0, p.len() as int) == p
}

/// The encoding that a declared content type selects.
pub open spec fn kind_for(content_type: Option<Seq<char>>) -> Result<BodyKind, Rejection> {
    match content_type {
        Some(t) => if has_prefix(t, "application/json"@) {
            Ok(BodyKind::Json)
        } else if has_prefix(t, "application/x-www-form-urlencoded"@) {
            Ok(BodyKind::Form)
        } else {
            Err(Rejection::UnsupportedMediaType)
        },
        None => Err(Rejection::UnsupportedMediaType),
    }
}

fn starts_with(s: &str, p: &str) -> (r: bool)
    ensures
        r == has_prefix(s@, p@),
{
    let n = s.unicode_len();
    let m = p.unicode_len();
    if m > n {
        return false;
    }
    let mut i: usize = 0;
    while i < m
        invariant
            m == p@.len(),
            n == s@.len(),
            m <= n,
            i <= m,
            forall|k: int| 0 <= k < i ==> s@[k] == p@[k],
        decreases m - i,
    {
        if s.get_char(i) != p.get_char(i) {
            assert(s@.subrange(0, m as int)[i as int] != p@[i as int]);
            return false;
        }
        i = i + 1;
    }
    assert(s@.subrange(0, m as int) =~= p@);
    true
}

/// Selects the body encoding from the request's declared content type: a
/// type starting with `application/json` is JSON, one starting with
/// `application/x-www-form-urlencoded` is form data, anything else (or none)
/// is refused as an unsupported media type.
pub fn body_kind(content_type: Option<&str>) -> (r: Result<BodyKind, Rejection>)
    ensures
        r == kind_for(
            match content_type {
                Some(t) => Some(t@),
                None => None,
            },
        ),
{
    match content_type {
        Some(t) => {
            if starts_with(t, "application/json") {
                Ok(BodyKind::Json)
            } else if starts_with(t, "application/x-www-form-urlencoded") {
                Ok(BodyKind::Form)
            } else {
                Err(Rejection::UnsupportedMediaType)
            }
        },
        None => Err(Rejection::UnsupportedMediaType),
    }
}

/// An HTTP reply: status code and body.
#[derive(Clone, Debug, PartialEq, Eq)]
pub struct Reply {
    pub status: u16,
    pub body: String,
    /// The media type of `body`, where the reply names one.
    pub content_type: Option<String>,
}

/// The body of the acknowledgment of an accepted publish.
pub open spec fn ack_body() -> Seq<char> {
    "{\"message\":\"message sent\"}"@
}

impl Rejection {
    /// The HTTP status of the refusal.
    pub fn status(&self) -> (r: u16)
        ensures
            r == 415,
    {
        match self {
            Rejection::UnsupportedMediaType => 415,
        }
    }

    /// The reply that refuses the request: the status, with an empty body.
    pub fn reply(&self) -> (r: Reply)
        ensures
            r.status == 415,
            r.body@.len() == 0,
            r.content_type is None,
    {
        let body = String::new();
        Reply { status: self.status(), body, content_type: None }
    }
}

/// The reply to a liveness probe: `200 Pong!`.
pub fn ping_reply() -> (r: Reply)
    ensures
        r.status == 200,
        r.body@ == "Pong!"@,
        r.content_type is None,
{
    Reply { status: 200, body: String::from_str("Pong!"), content_type: None }
}

/// The reply to an accepted publish: `200` with the fixed acknowledgment.
pub fn ack_reply() -> (r: Reply)
    ensures
        r.status == 200,
        r.body@ == ack_body(),
        r.content_type matches Some(t) && t@ == "application/json"@,
{
    Reply {
        status: 200,
        body: String::from_str("{\"message\":\"message sent\"}"),
        content_type: Some(String::from_str("application/json")),
    }
}

/// The broker key of an event: `Key ` followed by its identifier.
pub fn message_key(id: &str) -> (r: String)
    ensures
        r@ == "Key "@ + id@,
{
    let mut key = String::from_str("Key ");
    key.append(id);
    key
}

/// One message for the broker.
#[derive(Clone, Debug, PartialEq, Eq)]
pub struct PublishRecord {
    pub topic: String,
    pub key: String,
    pub envelope: Envelope,
}

/// `r` sends `e` to the configured topic under the key derived from its
/// identifier.
pub open spec fn record_of(r: PublishRecord, config: Config, e: Envelope) -> bool {
    &&& r.topic@ == config.topic@
    &&& r.key@ == "Key "@ + e.id@
    &&& r.envelope == e
}

/// Addresses an envelope to the configured topic.
pub fn record_for(config: &Config, envelope: Envelope) -> (r: PublishRecord)
    ensures
        record_of(r, *config, envelope),
{
    let key = message_key(envelope.id.as_str());
    PublishRecord { topic: config.topic.clone(), key, envelope }
}

/// The view of an optional text.
pub open spec fn opt_str_view(t: Option<&str>) -> Option<Seq<char>> {
    match t {
        Some(s) => Some(s@),
        None => None,
    }
}

/// Handles a publish request with the declared content type `content_type`
/// and the body `payload`, re-encoded in that type. A type that `body_kind`
/// refuses is refused before anything is built. Otherwise: one envelope with
/// a fresh identifier around the payload and the declared type, one record
/// for the configured topic, and the acknowledgment. The reply does not wait
/// for the broker to confirm delivery.
pub fn accept(config: &Config, content_type: Option<&str>, payload: String) -> (r: Result<
    (PublishRecord, Reply),
    Rejection,
>)
    ensures
        r is Err <==> kind_for(opt_str_view(content_type)) is Err,
        r matches Err(e) ==> e == Rejection::UnsupportedMediaType,
        r matches Ok((record, reply)) ==> {
            &&& record_of(record, *config, record.envelope)
            &&& is_uuid_v4_text(record.envelope.id@)
            &&& envelope_holds(
                record.envelope,
                record.envelope.id@,
                record.envelope.time_millis,
                content_type->0@,
                payload@,
            )
            &&& reply.status == 200
            &&& reply.body@ == ack_body()
            &&& reply.content_type matches Some(t) && t@ == "application/json"@
        },
{
    match body_kind(content_type) {
        Err(e) => Err(e),
        Ok(_) => {
            let declared = match content_type {
                Some(t) => t,
                None => "",
            };
            let envelope = Envelope::encode(payload, declared);
            let record = record_for(config, envelope);
            Ok((record, ack_reply()))
        },
    }
}

/// A declared content type that starts with `application/json` or
/// `application/x-www-form-urlencoded` is never refused.
pub proof fn lemma_supported_type_accepted(t: Seq<char>)
    requires
        has_prefix(t, "application/json"@) || has_prefix(t, "application/x-www-form-urlencoded"@),
    ensures
        kind_for(Some(t)) is Ok,
{
}

/// A declared content type that starts with neither accepted encoding, or a
/// missing one, is refused as an unsupported media type, whose reply is 415.
pub proof fn lemma_unsupported_type_refused(t: Option<Seq<char>>)
    requires
        t is Some ==> !has_prefix(t->0, "application/json"@) && !has_prefix(
            t->0,
            "application/x-www-form-urlencoded"@,
        ),
    ensures
        kind_for(t) == Err::<BodyKind, Rejection>(Rejection::UnsupportedMediaType),
{
}

/// The payload that an accepted request wraps is the body of the message the
/// consumer receives, so it decodes there exactly as the payload does.
pub proof fn lemma_round_trip(payload: Seq<char>, content_type: Seq<char>, e: Envelope)
    requires
        envelope_holds(e, e.id@, e.time_millis, content_type, payload),
    ensures
        decoded(e.data@) == decoded(payload),
{
}

} // verus!
