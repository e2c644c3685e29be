//! The gateway: which detections are kept, how each is persisted (upload,
//! monitor upsert, entity insert), and what the chat notification holds.

use vstd::prelude::*;
use crate::confidence::Confidence;
use crate::media::PictureType;
use crate::media::copy_bytes;
use crate::recognition::RecognitionResult;
use crate::store::{EntityRecord, copy_monitor};

verus! {

/// A `recognition` message's batch of detections.
#[derive(Debug)]
pub struct RecognitionResults {
    pub results: Vec<RecognitionResult>,
}

/// The only label that the gateway persists and notifies about.
pub open spec fn is_person(label: Seq<char>) -> bool {
    label == "person"@
}

/// The person detections of a batch, in batch order.
pub open spec fn persons(s: Seq<RecognitionResult>) -> Seq<RecognitionResult>
    decreases s.len(),
{
    if s.len() == 0 {
        seq![]
    } else {
        let p = persons(s.drop_last());
        if is_person(s.last().label@) {
            p.push(s.last())
        } else {
            p
        }
    }
}

impl RecognitionResults {
    /// What the handlers receive for an inbound batch: nothing for an empty
    /// batch, otherwise its person detections in order.
    pub fn route(self) -> (r: Option<RecognitionResults>)
        ensures
            r is None <==> self.results@.len() == 0,
            r matches Some(f) ==> f.results@ == persons(self.results@),
    {
        if self.results.len() == 0 {
            return None;
        }
        let person = String::from_str("person");
        let ghost all = self.results@;
        let mut rest = self.results;
        let mut out: Vec<RecognitionResult> = Vec::new();
        let mut i: usize = 0;
        let n = rest.len();
        while i < n
            invariant
                i <= n,
                n == all.len(),
                person@ == "person"@,
                rest@ == all.skip(i as int),
                out@ == persons(all.take(i as int)),
            decreases n - i,
        {
            assert(rest@[0] == all[i as int]);
            let item = rest.remove(0);
            assert(rest@ =~= all.skip(i + 1));
            assert(all.take(i + 1).drop_last() =~= all.take(i as int));
            if item.label == person {
                out.push(item);
            }
            i = i + 1;
        }
        assert(all.take(n as int) =~= all);
        Some(RecognitionResults { results: out })
    }
}

pub open spec fn is_lower_hex(c: char) -> bool {
    ('0' <= c && c <= '9') || ('a' <= c && c <= 'f')
}

/// The hyphenated lowercase text of a version-4 UUID: 36 characters, hyphens
/// at 8, 13, 18 and 23, version digit `4`, variant digit one of `8 9 a b`.
pub open spec fn is_uuid_v4_text(s: Seq<char>) -> bool {
    &&& s.len() == 36
    &&& forall|i: int|
        0 <= i < 36 ==> if i == 8 || i == 13 || i == 18 || i == 23 {
            #[trigger] s[i] == '-'
        } else {
            is_lower_hex(s[i])
        }
    &&& s[14] == '4'
    &&& (s[19] == '8' || s[19] == '9' || s[19] == 'a' || s[19] == 'b')
}

/// Relies on uuid's `Uuid::new_v4`, which masks random bits to set version 4
/// and the RFC 4122 variant, and on its `Display`, which writes the
/// hyphenated lowercase form. The value itself is random.
#[verifier::external_body]
pub(crate) fn fresh_uuid() -> (r: String)
    ensures
        is_uuid_v4_text(r@),
{
    uuid::Uuid::new_v4().to_string()
}

/// The object key of a picture: an id, a dot, the codec's extension.
pub open spec fn key_text(id: Seq<char>, t: PictureType) -> Seq<char> {
    id + "."@ + t.extension_spec()
}

/// The object key for a picture stored under the id `id`.
pub fn image_key(id: &String, t: PictureType) -> (r: String)
    ensures
        r@ == key_text(id@, t),
{
    let dot = String::from_str(".");
    let ext = t.extension();
    let r = id.clone().concat(dot.as_str()).concat(ext.as_str());
    r
}

/// A fresh object key, under a random version-4 UUID.
pub fn new_image_key(t: PictureType) -> (r: String)
    ensures
        is_uuid_v4_text(r@.take(36)),
        r@ == key_text(r@.take(36), t),
        r@.len() == 37 + t.extension_spec().len(),
        r@[14] == '4',
{
    let id = fresh_uuid();
    let r = image_key(&id, t);
    proof {
        reveal_strlit(".");
    }
    assert(r@.take(36) =~= id@);
    r
}

/// Where persisting one detection stands.
#[derive(Clone, Copy, Debug, PartialEq, Eq, Structural)]
pub enum PersistState {
    AwaitUpload,
    AwaitMonitorCheck,
    AwaitMonitorInsert,
    AwaitEntityInsert,
    Done,
    Skipped,
    Failed,
}

/// What the outside world reports back.
#[derive(Clone, Copy, Debug, PartialEq, Eq, Structural)]
pub enum PersistEvent {
    UploadOk,
    UploadFailed,
    MonitorFound,
    MonitorMissing,
    MonitorInserted,
    /// Another writer inserted the same monitor first.
    MonitorDuplicate,
    EntityInserted,
    DatabaseFailed,
}

/// What to do next.
#[derive(Clone, Copy, Debug, PartialEq, Eq, Structural)]
pub enum PersistAction {
    /// Store the picture under the job's key.
    Upload,
    /// Look up the job's monitor.
    CheckMonitor,
    /// Insert the job's monitor.
    InsertMonitor,
    /// Insert the job's entity record.
    InsertEntity,
    /// The detection is persisted.
    Finish,
    /// Give up on this detection and go on with the next.
    Skip,
    /// Fail the handler task loudly.
    Fail,
    /// The event does not apply here; nothing changes.
    Ignore,
}

/// The decision table of one detection's persistence. An unattributed
/// detection has no monitor row to ensure.
pub open spec fn transition(s: PersistState, has_monitor: bool, e: PersistEvent) -> (
    PersistState,
    PersistAction,
) {
    match (s, e) {
        (PersistState::AwaitUpload, PersistEvent::UploadOk) => if has_monitor {
            (PersistState::AwaitMonitorCheck, PersistAction::CheckMonitor)
        } else {
            (PersistState::AwaitEntityInsert, PersistAction::InsertEntity)
        },
        (PersistState::AwaitUpload, PersistEvent::UploadFailed) => (
            PersistState::Skipped,
            PersistAction::Skip,
        ),
        (PersistState::AwaitMonitorCheck, PersistEvent::MonitorFound) => (
            PersistState::AwaitEntityInsert,
            PersistAction::InsertEntity,
        ),
        (PersistState::AwaitMonitorCheck, PersistEvent::MonitorMissing) => (
            PersistState::AwaitMonitorInsert,
            PersistAction::InsertMonitor,
        ),
        (PersistState::AwaitMonitorCheck, PersistEvent::DatabaseFailed) => (
            PersistState::Skipped,
            PersistAction::Skip,
        ),
        (PersistState::AwaitMonitorInsert, PersistEvent::MonitorInserted) => (
            PersistState::AwaitEntityInsert,
            PersistAction::InsertEntity,
        ),
        (PersistState::AwaitMonitorInsert, PersistEvent::MonitorDuplicate) => (
            PersistState::AwaitEntityInsert,
            PersistAction::InsertEntity,
        ),
        (PersistState::AwaitMonitorInsert, PersistEvent::DatabaseFailed) => (
            PersistState::Failed,
            PersistAction::Fail,
        ),
        (PersistState::AwaitEntityInsert, PersistEvent::EntityInserted) => (
            PersistState::Done,
            PersistAction::Finish,
        ),
        (PersistState::AwaitEntityInsert, PersistEvent::DatabaseFailed) => (
            PersistState::Failed,
            PersistAction::Fail,
        ),
        _ => (s, PersistAction::Ignore),
    }
}

/// The states that only a stored picture leads to.
pub open spec fn after_upload(s: PersistState) -> bool {
    s is AwaitMonitorCheck || s is AwaitMonitorInsert || s is AwaitEntityInsert || s is Done
}

/// The persistence of one person detection.
#[derive(Debug)]
pub struct PersistJob {
    pub image_key: String,
    pub picture: Vec<u8>,
    pub label: String,
    pub confidence: Confidence,
    pub monitor_id: Option<String>,
    pub created_at: crate::timestamp::Timestamp,
    pub state: PersistState,
}

impl PersistJob {
    pub open spec fn wf(&self) -> bool {
        self.confidence.wf()
    }

    /// A job for a detection whose picture will be stored under `image_key`,
    /// with the confidence to persist; it starts by uploading.
    pub fn start(result: &RecognitionResult, image_key: String, confidence: Confidence) -> (r: (
        PersistJob,
        PersistAction,
    ))
        requires
            confidence.wf(),
        ensures
            r.0.wf(),
            r.0.state == PersistState::AwaitUpload,
            r.1 == PersistAction::Upload,
            r.0.image_key@ == image_key@,
            r.0.picture@ == result.picture@,
            r.0.label == result.label,
            r.0.monitor_id == result.monitor_id,
            r.0.created_at == result.created_at,
            r.0.confidence == confidence,
    {
        let job = PersistJob {
            image_key,
            picture: copy_bytes(&result.picture),
            label: result.label.clone(),
            confidence,
            monitor_id: copy_monitor(&result.monitor_id),
            created_at: result.created_at,
            state: PersistState::AwaitUpload,
        };
        (job, PersistAction::Upload)
    }

    /// Takes in what the last action came to and decides the next one.
    pub fn on_event(&mut self, e: PersistEvent) -> (r: PersistAction)
        requires
            old(self).wf(),
        ensures
            final(self).wf(),
            (final(self).state, r) == transition(old(self).state, old(self).monitor_id is Some, e),
            final(self).image_key == old(self).image_key,
            final(self).monitor_id == old(self).monitor_id,
            final(self).label == old(self).label,
            final(self).confidence == old(self).confidence,
            final(self).created_at == old(self).created_at,
    {
        let has_monitor = self.monitor_id.is_some();
        let (s, a) = match (self.state, e) {
            (PersistState::AwaitUpload, PersistEvent::UploadOk) => if has_monitor {
                (PersistState::AwaitMonitorCheck, PersistAction::CheckMonitor)
            } else {
                (PersistState::AwaitEntityInsert, PersistAction::InsertEntity)
            },
            (PersistState::AwaitUpload, PersistEvent::UploadFailed) => (
                PersistState::Skipped,
                PersistAction::Skip,
            ),
            (PersistState::AwaitMonitorCheck, PersistEvent::MonitorFound) => (
                PersistState::AwaitEntityInsert,
                PersistAction::InsertEntity,
            ),
            (PersistState::AwaitMonitorCheck, PersistEvent::MonitorMissing) => (
                PersistState::AwaitMonitorInsert,
                PersistAction::InsertMonitor,
            ),
            (PersistState::AwaitMonitorCheck, PersistEvent::DatabaseFailed) => (
                PersistState::Skipped,
                PersistAction::Skip,
            ),
            (PersistState::AwaitMonitorInsert, PersistEvent::MonitorInserted) => (
                PersistState::AwaitEntityInsert,
                PersistAction::InsertEntity,
            ),
            (PersistState::AwaitMonitorInsert, PersistEvent::MonitorDuplicate) => (
                PersistState::AwaitEntityInsert,
                PersistAction::InsertEntity,
            ),
            (PersistState::AwaitMonitorInsert, PersistEvent::DatabaseFailed) => (
                PersistState::Failed,
                PersistAction::Fail,
            ),
            (PersistState::AwaitEntityInsert, PersistEvent::EntityInserted) => (
                PersistState::Done,
                PersistAction::Finish,
            ),
            (PersistState::AwaitEntityInsert, PersistEvent::DatabaseFailed) => (
                PersistState::Failed,
                PersistAction::Fail,
            ),
            (s, _) => (s, PersistAction::Ignore),
        };
        self.state = s;
        a
    }

    /// The row to insert: the stored picture's key and the detection's
    /// values.
    pub fn entity_record(&self) -> (r: EntityRecord)
        ensures
            r.image_id@ == self.image_key@,
            r.label == self.label,
            r.confidence == self.confidence,
            r.monitor_id == self.monitor_id,
            r.created_at == self.created_at,
    {
        EntityRecord {
            image_id: self.image_key.clone(),
            label: self.label.clone(),
            confidence: self.confidence,
            monitor_id: copy_monitor(&self.monitor_id),
            created_at: self.created_at,
        }
    }
}

/// An entity insert is only ever asked for once the picture is stored: the
/// decision table reaches the states past the upload only from a successful
/// upload, and never leaves them for an earlier one.
pub proof fn law_insert_after_upload(s: PersistState, has_monitor: bool, e: PersistEvent)
    ensures
        transition(s, has_monitor, e).1 is InsertEntity ==> after_upload(
            transition(s, has_monitor, e).0,
        ),
        after_upload(transition(s, has_monitor, e).0) ==> after_upload(s) || (s is AwaitUpload
            && e is UploadOk),
        !after_upload(PersistState::AwaitUpload),
{
}

/// A detection without a monitor is inserted right after its upload, with
/// no monitor row written for it.
pub proof fn law_unattributed_skips_monitor(e: PersistEvent)
    ensures
        transition(PersistState::AwaitUpload, false, e).1 is CheckMonitor == false,
        e is UploadOk ==> transition(PersistState::AwaitUpload, false, e) == (
            PersistState::AwaitEntityInsert,
            PersistAction::InsertEntity,
        ),
{
}

/// The chat message sent for one detection.
#[derive(Debug)]
pub struct Notification {
    pub title: String,
    pub description: String,
    /// (name, value) pairs: the detection time, then the label.
    pub fields: Vec<(String, String)>,
    pub attachment_name: String,
    pub attachment: Vec<u8>,
}

/// Name of the attachment, whatever the picture's codec.
pub open spec fn attachment_name_spec() -> Seq<char> {
    "picture.jpg"@
}

/// The notification for a detection, given its time as display text.
pub fn notification_for(result: &RecognitionResult, created_at_text: String) -> (r: Notification)
    ensures
        r.title@ == "⚠️ 發現可疑物件 ⚠️"@,
        r.description@ == "請到 App 中查看詳細資訊。"@,
        r.fields@.len() == 2,
        r.fields@[0].0@ == "發現時間"@,
        r.fields@[0].1@ == created_at_text@,
        r.fields@[1].0@ == "物件類型"@,
        r.fields@[1].1 == result.label,
        r.attachment_name@ == attachment_name_spec(),
        r.attachment@ == result.picture@,
{
    let mut fields: Vec<(String, String)> = Vec::new();
    fields.push((String::from_str("發現時間"), created_at_text));
    fields.push((String::from_str("物件類型"), result.label.clone()));
    Notification {
        title: String::from_str("⚠️ 發現可疑物件 ⚠️"),
        description: String::from_str("請到 App 中查看詳細資訊。"),
        fields,
        attachment_name: String::from_str("picture.jpg"),
        attachment: copy_bytes(&result.picture),
    }
}

} // verus!
