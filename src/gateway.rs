use vstd::prelude::*;
use crate::models::{Envelope, MessagePayload};
use crate::stats::Stat;

verus! {

/// What the HTTP caller is told: the body was admitted to the pipeline
/// (a success status with an empty body), or it was missing or unreadable
/// (a client-error status).
#[derive(Clone, Copy, Debug, PartialEq, Eq, Structural)]
pub enum Reply {
    Accepted,
    Rejected,
}

/// The decision taken on one ingress request: the reply, the envelope to
/// push on the handoff queue (if any), and the stat for the metrics sink.
pub struct Ingestion {
    pub reply: Reply,
    pub envelope: Option<MessagePayload>,
    pub stat: Stat,
}

/// A body counts as present when it was read and holds at least one character.
pub open spec fn body_present(body: Option<String>) -> bool {
    body matches Some(b) && b@.len() > 0
}

/// Decides on one request to `topic` whose body was read as `body`
/// (`None` when it was absent or could not be read).
///
/// A non-empty body is accepted: exactly one envelope `{topic, body}` is
/// handed back for the queue, with an HTTP success stat. Anything else is
/// rejected: no envelope, an HTTP failure stat.
pub fn ingest(topic: String, body: Option<String>) -> (r: Ingestion)
    ensures
        body_present(body) ==> {
            &&& r.reply == Reply::Accepted
            &&& r.envelope matches Some(e) && e@ == (Envelope { topic: topic@, payload: body->Some_0@ })
            &&& r.stat == (Stat { is_http_request: true, was_successful: true })
        },
        !body_present(body) ==> {
            &&& r.reply == Reply::Rejected
            &&& r.envelope is None
            &&& r.stat == (Stat { is_http_request: true, was_successful: false })
        },
{
    match body {
        Some(b) => {
            if b.as_str().is_empty() {
                Ingestion { reply: Reply::Rejected, envelope: None, stat: Stat::new(true, false) }
            } else {
                Ingestion {
                    reply: Reply::Accepted,
                    envelope: Some(MessagePayload::new(topic, b)),
                    stat: Stat::new(true, true),
                }
            }
        },
        None => Ingestion { reply: Reply::Rejected, envelope: None, stat: Stat::new(true, false) },
    }
}

} // verus!
