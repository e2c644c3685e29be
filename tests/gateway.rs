use entity_pipeline::confidence::Confidence;
use entity_pipeline::gateway::{
    image_key, new_image_key, notification_for, PersistAction, PersistEvent, PersistJob,
    PersistState, RecognitionResults,
};
use entity_pipeline::media::{decode_picture, encode_crop, encode_frame, CropBox, PictureType};
use entity_pipeline::message::{header_value, Header, PayloadError, RecognitionPayload};
use entity_pipeline::recognition::{
    assemble_results, recognition_message, recognize_detections, Detection, RecognizeError,
    RecognitionResult,
};
use entity_pipeline::store::{EntityTable, MonitorTable};
use entity_pipeline::timestamp::Timestamp;

fn h(name: &str, value: &str) -> Header {
    Header { name: name.to_string(), value: value.to_string() }
}

fn frame_headers() -> Vec<Header> {
    vec![
        h("Content-Type", "image/png"),
        h("Date", "2024-05-01T10:00:00+08:00"),
        h("Frame-Id", "300"),
        h("Monitor-Id", "A"),
    ]
}

fn arrival() -> Timestamp {
    Timestamp { unix_seconds: 99, nanos: 7, offset_seconds: 0 }
}

fn payload() -> RecognitionPayload {
    RecognitionPayload::from_message(&frame_headers(), vec![1, 2], arrival()).unwrap()
}

fn result(label: &str, score: f32, monitor: Option<&str>) -> RecognitionResult {
    RecognitionResult {
        frame_id: "300".to_string(),
        monitor_id: monitor.map(|m| m.to_string()),
        label: label.to_string(),
        confidence_bits: score.to_bits(),
        picture: vec![9, 9, 9],
        picture_type: PictureType::WebP,
        created_at: Timestamp { unix_seconds: 1714528800, nanos: 0, offset_seconds: 28800 },
    }
}

fn detection(label: &str) -> Detection {
    Detection {
        bounding_box: CropBox { x: 1, y: 1, width: 2, height: 2 },
        label: label.to_string(),
        confidence_bits: 0.5f32.to_bits(),
    }
}

#[test]
fn frame_payload_is_read() {
    let p = payload();
    assert_eq!(p.frame_id, "300");
    assert_eq!(p.monitor_id.as_deref(), Some("A"));
    assert_eq!(p.picture, vec![1, 2]);
    assert_eq!(p.picture_type, PictureType::Png);
    assert_eq!(p.created_at, Timestamp { unix_seconds: 1714528800, nanos: 0, offset_seconds: 28800 });
}

#[test]
fn frame_payload_refusals() {
    let mut hs = frame_headers();
    hs.remove(0);
    assert_eq!(RecognitionPayload::from_message(&hs, vec![], arrival()).unwrap_err(), PayloadError::MissingContentType);
    let mut hs = frame_headers();
    hs[0] = h("Content-Type", "image/webp");
    assert_eq!(RecognitionPayload::from_message(&hs, vec![], arrival()).unwrap_err(), PayloadError::UnsupportedContentType);
    let mut hs = frame_headers();
    hs.remove(2);
    assert_eq!(RecognitionPayload::from_message(&hs, vec![], arrival()).unwrap_err(), PayloadError::MissingFrameId);
    let mut hs = frame_headers();
    hs.remove(1);
    let undated = RecognitionPayload::from_message(&hs, vec![], arrival()).unwrap();
    assert_eq!(undated.created_at, arrival());
    assert_eq!(undated.frame_id, "300");
    let mut hs = frame_headers();
    hs[1] = h("Date", "yesterday");
    assert_eq!(RecognitionPayload::from_message(&hs, vec![], arrival()).unwrap_err(), PayloadError::InvalidDate);
    let mut hs = frame_headers();
    hs.remove(3);
    assert_eq!(RecognitionPayload::from_message(&hs, vec![], arrival()).unwrap().monitor_id, None);
}

#[test]
fn rfc3339_is_read_with_offset() {
    let t = Timestamp::from_rfc3339("1970-01-01T00:00:01.5-01:00").unwrap();
    assert_eq!(t, Timestamp { unix_seconds: 3601, nanos: 500_000_000, offset_seconds: -3600 });
    assert_eq!(Timestamp::from_rfc3339("1970-01-01"), None);
}

#[test]
fn batch_keeps_frame_identity() {
    let p = payload();
    let ds = vec![detection("person"), detection("cat")];
    let crops = vec![Some(vec![1]), Some(vec![2, 2])];
    let rs = assemble_results(&p, &ds, &crops).unwrap();
    assert_eq!(rs.len(), 2);
    for (r, d) in rs.iter().zip(ds.iter()) {
        assert_eq!(r.frame_id, "300");
        assert_eq!(r.monitor_id.as_deref(), Some("A"));
        assert_eq!(r.label, d.label);
        assert_eq!(r.picture_type, PictureType::WebP);
        assert_eq!(r.created_at, p.created_at);
    }
    assert_eq!(rs[1].picture, vec![2, 2]);
}

#[test]
fn one_failed_crop_drops_the_batch() {
    let p = payload();
    let ds = vec![detection("person"), detection("cat")];
    let crops = vec![Some(vec![1]), None];
    assert_eq!(assemble_results(&p, &ds, &crops).unwrap_err(), RecognizeError::CropEncode);
    assert_eq!(assemble_results(&p, &vec![], &vec![]).unwrap().len(), 0);
}

fn png_payload() -> RecognitionPayload {
    let png = encode_frame(8, 8, vec![120; 8 * 8 * 3]).unwrap();
    RecognitionPayload::from_message(&frame_headers(), png, arrival()).unwrap()
}

#[test]
fn detections_are_cropped_and_encoded() {
    let p = png_payload();
    let frame = decode_picture(&p.picture, p.picture_type).unwrap();
    assert!(frame.is_decoding_of(&p.picture, p.picture_type));
    assert!(!frame.is_decoding_of(&vec![1], p.picture_type));
    let ds = vec![detection("person"), detection("dog")];
    let rs = recognize_detections(&p, &frame, &ds).unwrap();
    assert_eq!(rs.len(), 2);
    let crop = image::load_from_memory_with_format(&rs[0].picture, image::ImageFormat::WebP).unwrap();
    assert_eq!((crop.width(), crop.height()), (2, 2));
    let same = encode_crop(&frame, ds[1].bounding_box).unwrap();
    assert_eq!(rs[1].picture, same);
}

#[test]
fn frame_without_detections_gives_empty_batch() {
    let p = png_payload();
    let frame = decode_picture(&p.picture, p.picture_type).unwrap();
    assert_eq!(recognize_detections(&p, &frame, &vec![]).unwrap().len(), 0);
}

#[test]
fn crops_are_clipped_to_the_frame() {
    let p = png_payload();
    let frame = decode_picture(&p.picture, p.picture_type).unwrap();
    let b = CropBox { x: 6, y: 6, width: 10, height: 10 };
    let crop = encode_crop(&frame, b).unwrap();
    let img = image::load_from_memory_with_format(&crop, image::ImageFormat::WebP).unwrap();
    assert_eq!((img.width(), img.height()), (2, 2));
}

#[test]
fn recognition_message_headers() {
    let m = recognition_message(&"300".to_string(), b"{\"results\":[]}".to_vec());
    assert_eq!(m.subject, "recognition");
    assert_eq!(header_value(&m.headers, "Content-Type").as_deref(), Some("application/json"));
    assert_eq!(header_value(&m.headers, "X-Frame-Id").as_deref(), Some("300"));
    assert_eq!(m.payload, b"{\"results\":[]}".to_vec());
}

#[test]
fn gateway_keeps_only_persons() {
    let batch = RecognitionResults { results: vec![result("person", 0.91, Some("A")), result("cat", 0.77, Some("A"))] };
    let kept = batch.route().unwrap();
    assert_eq!(kept.results.len(), 1);
    assert_eq!(kept.results[0].label, "person");
    assert_eq!(f32::from_bits(kept.results[0].confidence_bits), 0.91);
}

#[test]
fn gateway_drops_empty_batches() {
    assert!(RecognitionResults { results: vec![] }.route().is_none());
    let only_cats = RecognitionResults { results: vec![result("cat", 0.5, None)] };
    assert_eq!(only_cats.route().unwrap().results.len(), 0);
}

#[test]
fn image_keys() {
    assert_eq!(image_key(&"abc".to_string(), PictureType::WebP), "abc.webp");
    let k1 = new_image_key(PictureType::WebP);
    let k2 = new_image_key(PictureType::WebP);
    assert!(k1.ends_with(".webp"));
    assert_eq!(k1.len(), 36 + 5);
    assert_eq!(k1.as_bytes()[14], b'4');
    assert_eq!(k1.as_bytes()[8], b'-');
    assert!(matches!(k1.as_bytes()[19], b'8' | b'9' | b'a' | b'b'));
    assert_ne!(k1, k2);
}

#[test]
fn confidence_is_clamped_to_unit_range() {
    assert_eq!(Confidence::from_rounded(Some(9100)).ten_thousandths, 9100);
    assert_eq!(Confidence::from_rounded(Some(10000)).ten_thousandths, 10000);
    assert_eq!(Confidence::from_rounded(Some(0)).ten_thousandths, 0);
    assert_eq!(Confidence::from_rounded(Some(10001)).ten_thousandths, 0);
    assert_eq!(Confidence::from_rounded(Some(-1)).ten_thousandths, 0);
    assert_eq!(Confidence::from_rounded(None).ten_thousandths, 0);
}

#[test]
fn score_outside_unit_range_is_kept_as_zero() {
    assert_eq!(Confidence::from_score(0.91f32.to_bits(), Some(9100)).ten_thousandths, 9100);
    assert_eq!(Confidence::from_score(1.0f32.to_bits(), Some(10000)).ten_thousandths, 10000);
    assert_eq!(Confidence::from_score((-0.0f32).to_bits(), Some(0)).ten_thousandths, 0);
    assert_eq!(Confidence::from_score(1.00001f32.to_bits(), Some(10000)).ten_thousandths, 0);
    assert_eq!(Confidence::from_score(1.5f32.to_bits(), Some(15000)).ten_thousandths, 0);
    assert_eq!(Confidence::from_score((-0.2f32).to_bits(), Some(-2000)).ten_thousandths, 0);
    assert_eq!(Confidence::from_score(f32::NAN.to_bits(), None).ten_thousandths, 0);
    assert_eq!(Confidence::from_score(f32::INFINITY.to_bits(), None).ten_thousandths, 0);
}

fn run(job: &mut PersistJob, events: &[PersistEvent]) -> Vec<PersistAction> {
    events.iter().map(|e| job.on_event(*e)).collect()
}

#[test]
fn person_detection_is_persisted_after_upload() {
    let r = result("person", 0.91, Some("A"));
    let (mut job, first) = PersistJob::start(&r, "k.webp".to_string(), Confidence::from_rounded(Some(9100)));
    assert_eq!(first, PersistAction::Upload);
    let acts = run(&mut job, &[PersistEvent::UploadOk, PersistEvent::MonitorMissing, PersistEvent::MonitorInserted]);
    assert_eq!(acts, vec![PersistAction::CheckMonitor, PersistAction::InsertMonitor, PersistAction::InsertEntity]);
    let rec = job.entity_record();
    assert_eq!(rec.image_id, "k.webp");
    assert_eq!(rec.label, "person");
    assert_eq!(rec.confidence.ten_thousandths, 9100);
    let mut table = EntityTable::new();
    let mut monitors = MonitorTable::new();
    assert!(monitors.ensure(&"A".to_string()));
    assert_eq!(table.insert(rec), Some(1));
    assert_eq!(job.on_event(PersistEvent::EntityInserted), PersistAction::Finish);
    assert_eq!(job.state, PersistState::Done);
}

#[test]
fn failed_upload_skips_the_detection() {
    let r = result("person", 0.5, Some("A"));
    let (mut job, _) = PersistJob::start(&r, "k".to_string(), Confidence::zero());
    assert_eq!(job.on_event(PersistEvent::UploadFailed), PersistAction::Skip);
    assert_eq!(job.on_event(PersistEvent::EntityInserted), PersistAction::Ignore);
    assert_eq!(job.state, PersistState::Skipped);
}

#[test]
fn monitor_errors() {
    let r = result("person", 0.5, Some("A"));
    let (mut job, _) = PersistJob::start(&r, "k".to_string(), Confidence::zero());
    let acts = run(&mut job, &[PersistEvent::UploadOk, PersistEvent::DatabaseFailed]);
    assert_eq!(acts, vec![PersistAction::CheckMonitor, PersistAction::Skip]);
    let (mut job, _) = PersistJob::start(&r, "k".to_string(), Confidence::zero());
    let acts = run(&mut job, &[PersistEvent::UploadOk, PersistEvent::MonitorMissing, PersistEvent::MonitorDuplicate, PersistEvent::DatabaseFailed]);
    assert_eq!(acts, vec![PersistAction::CheckMonitor, PersistAction::InsertMonitor, PersistAction::InsertEntity, PersistAction::Fail]);
    assert_eq!(job.state, PersistState::Failed);
}

#[test]
fn unattributed_detection_is_persisted_without_monitor() {
    let r = result("person", 0.5, None);
    let (mut job, _) = PersistJob::start(&r, "k".to_string(), Confidence::zero());
    assert_eq!(job.on_event(PersistEvent::UploadOk), PersistAction::InsertEntity);
    assert_eq!(job.entity_record().monitor_id, None);
}

#[test]
fn notification_failure_leaves_persistence_alone() {
    let r = result("person", 0.91, Some("A"));
    let n = notification_for(&r, "2024-05-01 10:00:00 +08:00".to_string());
    assert_eq!(n.attachment_name, "picture.jpg");
    assert_eq!(n.attachment, vec![9, 9, 9]);
    assert_eq!(n.fields[0].1, "2024-05-01 10:00:00 +08:00");
    assert_eq!(n.fields[1].1, "person");
    let (mut job, _) = PersistJob::start(&r, "k".to_string(), Confidence::zero());
    let acts = run(&mut job, &[PersistEvent::UploadOk, PersistEvent::MonitorFound, PersistEvent::EntityInserted]);
    assert_eq!(acts, vec![PersistAction::CheckMonitor, PersistAction::InsertEntity, PersistAction::Finish]);
}

#[test]
fn monitor_rows_are_unique() {
    let mut m = MonitorTable::new();
    assert!(m.ensure(&"A".to_string()));
    assert!(!m.ensure(&"A".to_string()));
    assert!(m.ensure(&"B".to_string()));
    assert_eq!(m.ids(), vec!["A".to_string(), "B".to_string()]);
    assert!(m.lookup(&"B".to_string()));
    assert!(!m.lookup(&"C".to_string()));
}
