use vstd::prelude::*;

verus! {

/// The unit that moves through the relay: a destination topic and an
/// opaque payload.
#[derive(Clone, Debug)]
pub struct MessagePayload {
    pub topic: String,
    pub payload: String,
}

/// Ghost view of a [`MessagePayload`].
pub struct Envelope {
    pub topic: Seq<char>,
    pub payload: Seq<char>,
}

impl View for MessagePayload {
    type V = Envelope;

    open spec fn view(&self) -> Envelope {
        Envelope { topic: self.topic@, payload: self.payload@ }
    }
}

impl MessagePayload {
    /// Builds an envelope from its two parts.
    pub fn new(topic: String, payload: String) -> (r: MessagePayload)
        ensures
            r.topic@ == topic@,
            r.payload@ == payload@,
    {
        MessagePayload { topic, payload }
    }

    /// A copy with the same topic and payload.
    pub fn duplicate(&self) -> (r: MessagePayload)
        ensures
            r@ == self@,
    {
        MessagePayload { topic: self.topic.clone(), payload: self.payload.clone() }
    }
}

/// A record of the durable backup store: an envelope kept under the
/// identifier that the store gave it.
pub struct BackupRecord {
    pub id: String,
    pub envelope: MessagePayload,
}

/// Ghost view of a [`BackupRecord`].
pub struct RecordView {
    pub id: Seq<char>,
    pub envelope: Envelope,
}

impl View for BackupRecord {
    type V = RecordView;

    open spec fn view(&self) -> RecordView {
        RecordView { id: self.id@, envelope: self.envelope@ }
    }
}

impl BackupRecord {
    pub fn new(id: String, envelope: MessagePayload) -> (r: BackupRecord)
        ensures
            r.id@ == id@,
            r.envelope@ == envelope@,
    {
        BackupRecord { id, envelope }
    }
}

/// The resolved configuration of the relay: where the TLS client
/// certificate and key lie, the broker endpoints (`host:port`), the port to
/// listen on, and the two flags that steer the delivery worker.
#[derive(Clone, Debug)]
pub struct Configuration {
    pub cert_path: String,
    pub key_path: String,
    pub brokers: Vec<String>,
    pub port: u64,
    pub panic_on_backup: bool,
    pub dry_run: bool,
}

} // verus!
