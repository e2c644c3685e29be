//! Bus messages: subjects, headers, and the frame messages that flow from the
//! extractor to the recognizer.

use vstd::prelude::*;
use crate::decimal::{decimal_digits, decimal_text, law_decimal_round_trip, unsigned_text_value};
use crate::media::{PictureType, FRAME_PICTURE_TYPE, MediaError, encode_frame, png_of, rgb_fits};
use crate::timestamp::{Timestamp, rfc3339_instant, instant_of};

verus! {

/// One header line: a name and one of its values.
#[derive(Debug)]
pub struct Header {
    pub name: String,
    pub value: String,
}

pub open spec fn header_view(h: Header) -> (Seq<char>, Seq<char>) {
    (h.name@, h.value@)
}

/// A message as it is published: subject, headers in order, payload.
#[derive(Debug)]
pub struct BusMessage {
    pub subject: String,
    pub headers: Vec<Header>,
    pub payload: Vec<u8>,
}

impl BusMessage {
    pub open spec fn header_views(&self) -> Seq<(Seq<char>, Seq<char>)> {
        self.headers@.map_values(|h: Header| header_view(h))
    }
}

/// The first value of the header `name`, as a bus client's `get` reads it.
pub open spec fn first_value(headers: Seq<Header>, name: Seq<char>) -> Option<Seq<char>>
    decreases headers.len(),
{
    if headers.len() == 0 {
        None
    } else if headers[0].name@ == name {
        Some(headers[0].value@)
    } else {
        first_value(headers.drop_first(), name)
    }
}

/// The first value of the header `name`.
pub fn header_value(headers: &Vec<Header>, name: &str) -> (r: Option<String>)
    ensures
        r is Some <==> first_value(headers@, name@) is Some,
        r matches Some(v) ==> first_value(headers@, name@) == Some(v@),
{
    let key = String::from_str(name);
    let mut i: usize = 0;
    assert(headers@.skip(0) =~= headers@);
    while i < headers.len()
        invariant
            i <= headers@.len(),
            key@ == name@,
            first_value(headers@, name@) == first_value(headers@.skip(i as int), name@),
        decreases headers@.len() - i,
    {
        assert(headers@.skip(i as int).drop_first() =~= headers@.skip(i + 1));
        assert(headers@.skip(i as int)[0] == headers@[i as int]);
        if headers[i].name == key {
            return Some(headers[i].value.clone());
        }
        i = i + 1;
    }
    None
}

fn header(name: &str, value: String) -> (r: Header)
    ensures
        header_view(r) == (name@, value@),
{
    Header { name: String::from_str(name), value }
}

/// The headers of a published frame: its codec, publish date and id, and
/// the monitor it came from where one is configured.
pub open spec fn frame_header_views(frame_id: nat, date: Seq<char>, monitor_id: Option<String>) -> Seq<
    (Seq<char>, Seq<char>),
> {
    let base = seq![
        ("Content-Type"@, FRAME_PICTURE_TYPE.content_type_spec()),
        ("Date"@, date),
        ("Frame-Id"@, decimal_digits(frame_id)),
    ];
    match monitor_id {
        Some(m) => base.push(("Monitor-Id"@, m@)),
        None => base,
    }
}

/// The `Frame-Id` header of a published frame reads back as the frame's id,
/// so frames published in increasing id order carry increasing `Frame-Id`
/// values.
pub proof fn law_frame_id_header(frame_id: nat, date: Seq<char>, monitor_id: Option<String>)
    ensures
        frame_header_views(frame_id, date, monitor_id)[2].0 == "Frame-Id"@,
        unsigned_text_value(frame_header_views(frame_id, date, monitor_id)[2].1) == Some(
            frame_id as int,
        ),
{
    law_decimal_round_trip(frame_id);
}

/// The message that publishes an encoded frame on the `frames` subject.
pub fn frame_message(frame_id: usize, date: String, monitor_id: &Option<String>, picture: Vec<u8>) -> (r:
    BusMessage)
    ensures
        r.subject@ == "frames"@,
        r.header_views() == frame_header_views(frame_id as nat, date@, *monitor_id),
        r.payload == picture,
{
    let mut headers: Vec<Header> = Vec::new();
    headers.push(header("Content-Type", FRAME_PICTURE_TYPE.content_type()));
    headers.push(header("Date", date));
    headers.push(header("Frame-Id", decimal_text(frame_id as u64)));
    match monitor_id {
        Some(m) => headers.push(header("Monitor-Id", m.clone())),
        None => {},
    }
    let r = BusMessage { subject: String::from_str("frames"), headers, payload: picture };
    assert(r.header_views() =~= frame_header_views(frame_id as nat, date@, *monitor_id));
    r
}

/// Encodes a sampled raw RGB frame and wraps it for publication.
pub fn publish_frame(
    frame_id: usize,
    width: u32,
    height: u32,
    pixels: Vec<u8>,
    date: String,
    monitor_id: &Option<String>,
) -> (r: Result<BusMessage, MediaError>)
    ensures
        !rgb_fits(width, height, pixels@.len()) ==> r == Err::<BusMessage, MediaError>(
            MediaError::FrameSizeMismatch,
        ),
        rgb_fits(width, height, pixels@.len()) ==> (r is Ok <==> png_of(width, height, pixels@) is Some),
        r matches Err(e) ==> (e == MediaError::FrameSizeMismatch || e == MediaError::Encode),
        r matches Ok(m) ==> m.subject@ == "frames"@ && m.header_views() == frame_header_views(
            frame_id as nat,
            date@,
            *monitor_id,
        ) && Some(m.payload@) == png_of(width, height, pixels@),
{
    match encode_frame(width, height, pixels) {
        Ok(bytes) => Ok(frame_message(frame_id, date, monitor_id, bytes)),
        Err(e) => Err(e),
    }
}

/// A frame accepted by the recognizer.
#[derive(Debug)]
pub struct RecognitionPayload {
    pub frame_id: String,
    pub monitor_id: Option<String>,
    pub picture: Vec<u8>,
    pub picture_type: PictureType,
    pub created_at: Timestamp,
}

#[derive(Clone, Copy, Debug, PartialEq, Eq, Structural)]
pub enum PayloadError {
    MissingContentType,
    UnsupportedContentType,
    MissingFrameId,
    /// A `Date` header is present but is not RFC 3339.
    InvalidDate,
}

/// Why a frame message is refused, checked in this order; `None` where it
/// is accepted.
pub open spec fn payload_refusal(headers: Seq<Header>) -> Option<PayloadError> {
    let ct = first_value(headers, "Content-Type"@);
    let date = first_value(headers, "Date"@);
    if ct is None {
        Some(PayloadError::MissingContentType)
    } else if ct->0 != FRAME_PICTURE_TYPE.content_type_spec() {
        Some(PayloadError::UnsupportedContentType)
    } else if first_value(headers, "Frame-Id"@) is None {
        Some(PayloadError::MissingFrameId)
    } else if date is Some && rfc3339_instant(date->0) is None {
        Some(PayloadError::InvalidDate)
    } else {
        None
    }
}

pub open spec fn opt_view(o: Option<String>) -> Option<Seq<char>> {
    match o {
        Some(s) => Some(s@),
        None => None,
    }
}

impl RecognitionPayload {
    /// Reads a `frames` message: the codec must be the frame codec and the
    /// frame id is required; the monitor id and the date are carried where
    /// present. Without a `Date` header the frame is dated `received_at`.
    pub fn from_message(headers: &Vec<Header>, payload: Vec<u8>, received_at: Timestamp) -> (r: Result<
        RecognitionPayload,
        PayloadError,
    >)
        ensures
            r is Err <==> payload_refusal(headers@) is Some,
            r matches Err(e) ==> payload_refusal(headers@) == Some(e),
            r matches Ok(p) ==> {
                &&& Some(p.frame_id@) == first_value(headers@, "Frame-Id"@)
                &&& opt_view(p.monitor_id) == first_value(headers@, "Monitor-Id"@)
                &&& p.picture == payload
                &&& p.picture_type == FRAME_PICTURE_TYPE
                &&& first_value(headers@, "Date"@) is Some ==> rfc3339_instant(
                    first_value(headers@, "Date"@)->0,
                ) == Some(instant_of(p.created_at))
                &&& first_value(headers@, "Date"@) is None ==> p.created_at == received_at
            },
    {
        let content_type = match header_value(headers, "Content-Type") {
            Some(ct) => ct,
            None => return Err(PayloadError::MissingContentType),
        };
        if content_type != FRAME_PICTURE_TYPE.content_type() {
            return Err(PayloadError::UnsupportedContentType);
        }
        let frame_id = match header_value(headers, "Frame-Id") {
            Some(f) => f,
            None => return Err(PayloadError::MissingFrameId),
        };
        let monitor_id = header_value(headers, "Monitor-Id");
        let created_at = match header_value(headers, "Date") {
            Some(date) => match Timestamp::from_rfc3339(date.as_str()) {
                Some(t) => t,
                None => return Err(PayloadError::InvalidDate),
            },
            None => received_at,
        };
        Ok(
            RecognitionPayload {
                frame_id,
                monitor_id,
                picture: payload,
                picture_type: FRAME_PICTURE_TYPE,
                created_at,
            },
        )
    }
}

} // verus!
