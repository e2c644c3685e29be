//! Recognition results: each detection of a frame becomes a record that
//! carries the frame's identity and a re-encoded crop of its box.

use vstd::prelude::*;
use crate::media::{
    CropBox,
    DecodedFrame,
    PictureType,
    CROP_PICTURE_TYPE,
    copy_bytes,
    crop_webp_of,
    encode_crop,
};
use crate::message::{BusMessage, Header, RecognitionPayload, first_value};
use crate::store::copy_monitor;
use crate::timestamp::Timestamp;

verus! {

/// One object found by the detector, with its box in pixels.
#[derive(Debug)]
pub struct Detection {
    pub bounding_box: CropBox,
    pub label: String,
    /// The detector's score as its IEEE 754 single-precision bit pattern.
    pub confidence_bits: u32,
}

/// One detection of a frame, as published on the `recognition` subject.
#[derive(Debug)]
pub struct RecognitionResult {
    pub frame_id: String,
    pub monitor_id: Option<String>,
    pub label: String,
    /// The detector's score as its IEEE 754 single-precision bit pattern.
    pub confidence_bits: u32,
    pub picture: Vec<u8>,
    pub picture_type: PictureType,
    pub created_at: Timestamp,
}

impl RecognitionResult {
    pub open spec fn same_as(self, o: RecognitionResult) -> bool {
        &&& self.frame_id == o.frame_id
        &&& self.monitor_id == o.monitor_id
        &&& self.label == o.label
        &&& self.confidence_bits == o.confidence_bits
        &&& self.picture@ == o.picture@
        &&& self.picture_type == o.picture_type
        &&& self.created_at == o.created_at
    }

    pub fn duplicate(&self) -> (r: RecognitionResult)
        ensures
            r.same_as(*self),
    {
        RecognitionResult {
            frame_id: self.frame_id.clone(),
            monitor_id: copy_monitor(&self.monitor_id),
            label: self.label.clone(),
            confidence_bits: self.confidence_bits,
            picture: copy_bytes(&self.picture),
            picture_type: self.picture_type,
            created_at: self.created_at,
        }
    }
}

#[derive(Clone, Copy, Debug, PartialEq, Eq, Structural)]
pub enum RecognizeError {
    /// A crop could not be encoded; the frame's whole batch is dropped.
    CropEncode,
}

/// The record of detection `d` of frame `p`, whose crop encoded to `crop`.
pub open spec fn is_result_for(
    r: RecognitionResult,
    p: RecognitionPayload,
    d: Detection,
    crop: Seq<u8>,
) -> bool {
    &&& r.frame_id == p.frame_id
    &&& r.monitor_id == p.monitor_id
    &&& r.label == d.label
    &&& r.confidence_bits == d.confidence_bits
    &&& r.picture@ == crop
    &&& r.picture_type == CROP_PICTURE_TYPE
    &&& r.created_at == p.created_at
}

/// Builds the records of a frame from its detections and their encoded
/// crops, in detection order; where any crop failed to encode, none.
pub fn assemble_results(
    payload: &RecognitionPayload,
    detections: &Vec<Detection>,
    crops: &Vec<Option<Vec<u8>>>,
) -> (r: Result<Vec<RecognitionResult>, RecognizeError>)
    requires
        crops@.len() == detections@.len(),
    ensures
        r is Ok <==> forall|k: int| 0 <= k < crops@.len() ==> #[trigger] crops@[k] is Some,
        r matches Ok(v) ==> v@.len() == detections@.len() && forall|k: int|
            0 <= k < v@.len() ==> is_result_for(
                #[trigger] v@[k],
                *payload,
                detections@[k],
                crops@[k]->0@,
            ),
{
    let mut out: Vec<RecognitionResult> = Vec::new();
    let mut i: usize = 0;
    while i < detections.len()
        invariant
            i <= detections@.len(),
            crops@.len() == detections@.len(),
            out@.len() == i,
            forall|k: int| 0 <= k < i ==> #[trigger] crops@[k] is Some,
            forall|k: int|
                0 <= k < i ==> is_result_for(
                    #[trigger] out@[k],
                    *payload,
                    detections@[k],
                    crops@[k]->0@,
                ),
        decreases detections@.len() - i,
    {
        let picture = match &crops[i] {
            Some(bytes) => copy_bytes(bytes),
            None => return Err(RecognizeError::CropEncode),
        };
        let d = &detections[i];
        out.push(
            RecognitionResult {
                frame_id: payload.frame_id.clone(),
                monitor_id: copy_monitor(&payload.monitor_id),
                label: d.label.clone(),
                confidence_bits: d.confidence_bits,
                picture,
                picture_type: CROP_PICTURE_TYPE,
                created_at: payload.created_at,
            },
        );
        i = i + 1;
    }
    Ok(out)
}

/// The crop of detection `d` of a frame, as the crop encoder yields it.
pub open spec fn crop_of(p: RecognitionPayload, d: Detection) -> Option<Seq<u8>> {
    crop_webp_of(
        p.picture@,
        p.picture_type,
        d.bounding_box.x,
        d.bounding_box.y,
        d.bounding_box.width,
        d.bounding_box.height,
    )
}

/// Crops every detection out of the decoded frame, encodes each crop, and
/// builds the frame's records; one failed encoding drops the whole batch.
/// A frame without detections gives an empty batch.
pub fn recognize_detections(
    payload: &RecognitionPayload,
    frame: &DecodedFrame,
    detections: &Vec<Detection>,
) -> (r: Result<Vec<RecognitionResult>, RecognizeError>)
    requires
        frame.source() == payload.picture@,
        frame.codec() == payload.picture_type,
    ensures
        detections@.len() == 0 ==> (r matches Ok(v) && v@.len() == 0),
        r is Ok <==> forall|k: int|
            0 <= k < detections@.len() ==> (#[trigger] crop_of(*payload, detections@[k])) is Some,
        r matches Err(e) ==> e == RecognizeError::CropEncode,
        r matches Ok(v) ==> v@.len() == detections@.len() && forall|k: int|
            0 <= k < v@.len() ==> is_result_for(
                #[trigger] v@[k],
                *payload,
                detections@[k],
                crop_of(*payload, detections@[k])->0,
            ),
{
    let mut crops: Vec<Option<Vec<u8>>> = Vec::new();
    let mut i: usize = 0;
    while i < detections.len()
        invariant
            i <= detections@.len(),
            crops@.len() == i,
            frame.source() == payload.picture@,
            frame.codec() == payload.picture_type,
            forall|k: int|
                0 <= k < i ==> (#[trigger] crops@[k] is Some <==> crop_of(*payload, detections@[k]) is Some),
            forall|k: int|
                0 <= k < i ==> (#[trigger] crops@[k] matches Some(b) ==> crop_of(*payload, detections@[k]) == Some(b@)),
        decreases detections@.len() - i,
    {
        crops.push(encode_crop(frame, detections[i].bounding_box));
        i = i + 1;
    }
    let r = assemble_results(payload, detections, &crops);
    proof {
        if r is Ok {
            assert forall|k: int| 0 <= k < detections@.len() implies (#[trigger] crop_of(*payload, detections@[k])) is Some by {
                assert(crops@[k] is Some);
            }
        } else {
            assert(!(forall|k: int| 0 <= k < crops@.len() ==> #[trigger] crops@[k] is Some));
            let k = choose|k: int| !(0 <= k < crops@.len() ==> #[trigger] crops@[k] is Some);
            assert(!(crop_of(*payload, detections@[k]) is Some));
        }
    }
    r
}

/// The headers of a `recognition` message for the frame `frame_id`.
pub open spec fn recognition_header_views(frame_id: Seq<char>) -> Seq<(Seq<char>, Seq<char>)> {
    seq![("Content-Type"@, "application/json"@), ("X-Frame-Id"@, frame_id)]
}

/// Wraps a frame's serialized records for the `recognition` subject; one is
/// published for every frame, also when it found nothing.
pub fn recognition_message(frame_id: &String, body: Vec<u8>) -> (r: BusMessage)
    ensures
        r.subject@ == "recognition"@,
        r.header_views() == recognition_header_views(frame_id@),
        r.payload == body,
{
    let mut headers: Vec<Header> = Vec::new();
    headers.push(
        Header {
            name: String::from_str("Content-Type"),
            value: String::from_str("application/json"),
        },
    );
    headers.push(Header { name: String::from_str("X-Frame-Id"), value: frame_id.clone() });
    let r = BusMessage { subject: String::from_str("recognition"), headers, payload: body };
    assert(r.header_views() =~= recognition_header_views(frame_id@));
    r
}

/// Every record that a frame message leads to carries the `Frame-Id` of
/// that message, and the batch has one record per detection.
pub proof fn law_batch_keeps_frame(
    headers: Seq<Header>,
    payload: RecognitionPayload,
    detections: Seq<Detection>,
    crops: Seq<Option<Vec<u8>>>,
    results: Seq<RecognitionResult>,
)
    requires
        Some(payload.frame_id@) == first_value(headers, "Frame-Id"@),
        crops.len() == detections.len(),
        results.len() == detections.len(),
        forall|k: int|
            0 <= k < results.len() ==> is_result_for(
                #[trigger] results[k],
                payload,
                detections[k],
                crops[k]->0@,
            ),
    ensures
        results.len() == detections.len(),
        forall|k: int|
            0 <= k < results.len() ==> Some((#[trigger] results[k]).frame_id@) == first_value(
                headers,
                "Frame-Id"@,
            ),
{
}

} // verus!
