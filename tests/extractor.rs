use entity_pipeline::config::{ConfigError, ExtractorConfig, RecognitionConfig, Config};
use entity_pipeline::decimal::{decimal_text, parse_i32, parse_unsigned};
use entity_pipeline::media::{decode_picture, encode_frame, pack_rows, MediaError, PictureType};
use entity_pipeline::message::{frame_message, header_value, publish_frame, Header};
use entity_pipeline::sampling::{sampled_frame_ids, FrameSampler, SamplerError, DEFAULT_FRAME_INTERVAL};

fn value_of(headers: &Vec<Header>, name: &str) -> Option<String> {
    header_value(headers, name)
}

#[test]
fn sampling_600_frames_at_interval_300_publishes_two() {
    assert_eq!(sampled_frame_ids(300, 600), vec![0, 300]);
}

#[test]
fn interval_one_publishes_every_frame() {
    assert_eq!(sampled_frame_ids(1, 5), vec![0, 1, 2, 3, 4]);
}

#[test]
fn sampled_ids_strictly_increase() {
    let ids = sampled_frame_ids(7, 100);
    assert_eq!(ids.len(), 15);
    for w in ids.windows(2) {
        assert!(w[0] < w[1]);
    }
}

#[test]
fn sampler_counts_every_frame() {
    let mut s = FrameSampler::new(Some(3)).unwrap();
    let got: Vec<Option<usize>> = (0..7).map(|_| s.on_sample()).collect();
    assert_eq!(got, vec![Some(0), None, None, Some(3), None, None, Some(6)]);
    assert!(!s.is_exhausted());
}

#[test]
fn sampler_defaults_to_300() {
    let s = FrameSampler::new(None).unwrap();
    assert_eq!(s.frame_interval(), DEFAULT_FRAME_INTERVAL);
    assert_eq!(s.frame_interval(), 300);
}

#[test]
fn sampler_rejects_zero_interval() {
    assert_eq!(FrameSampler::new(Some(0)).unwrap_err(), SamplerError::ZeroFrameInterval);
}

#[test]
fn extractor_config_reads_values() {
    let c = ExtractorConfig::from_values(
        Some("rtsp://cam/1".to_string()),
        Some("A".to_string()),
        Some("nats://bus".to_string()),
        Some("+25".to_string()),
    )
    .unwrap();
    assert_eq!(c.rtsp_url, "rtsp://cam/1");
    assert_eq!(c.monitor_id.as_deref(), Some("A"));
    assert_eq!(c.nats_url, "nats://bus");
    assert_eq!(c.frame_interval, Some(25));
}

#[test]
fn extractor_config_errors() {
    let url = || Some("x".to_string());
    assert_eq!(
        ExtractorConfig::from_values(None, None, url(), None).unwrap_err(),
        ConfigError::MissingRtspUrl
    );
    assert_eq!(
        ExtractorConfig::from_values(url(), None, None, None).unwrap_err(),
        ConfigError::MissingNatsUrl
    );
    assert_eq!(
        ExtractorConfig::from_values(url(), None, url(), Some("ten".to_string())).unwrap_err(),
        ConfigError::InvalidFrameInterval
    );
    assert_eq!(
        ExtractorConfig::from_values(url(), None, url(), Some("-1".to_string())).unwrap_err(),
        ConfigError::InvalidFrameInterval
    );
    assert_eq!(
        ExtractorConfig::from_values(url(), None, url(), Some("0".to_string())).unwrap_err(),
        ConfigError::ZeroFrameInterval
    );
    let c = ExtractorConfig::from_values(url(), None, url(), None).unwrap();
    assert_eq!(c.frame_interval, None);
}

#[test]
fn other_configs_require_their_urls() {
    assert_eq!(RecognitionConfig::from_values(None).unwrap_err(), ConfigError::MissingNatsUrl);
    assert_eq!(RecognitionConfig::from_values(Some("n".to_string())).unwrap().nats_url, "n");
    assert_eq!(Config::from_values(None).unwrap_err(), ConfigError::MissingDatabaseUrl);
    assert_eq!(Config::from_values(Some("pg".to_string())).unwrap().database_url, "pg");
}

#[test]
fn decimal_parsing() {
    assert_eq!(parse_i32("10"), Some(10));
    assert_eq!(parse_i32("-5"), Some(-5));
    assert_eq!(parse_i32("+7"), Some(7));
    assert_eq!(parse_i32("2147483647"), Some(i32::MAX));
    assert_eq!(parse_i32("-2147483648"), Some(i32::MIN));
    assert_eq!(parse_i32("2147483648"), None);
    assert_eq!(parse_i32(""), None);
    assert_eq!(parse_i32("-"), None);
    assert_eq!(parse_i32("1a"), None);
    assert_eq!(parse_unsigned("300", 1000), Some(300));
    assert_eq!(parse_unsigned("1001", 1000), None);
    assert_eq!(parse_unsigned("-3", 1000), None);
}

#[test]
fn frame_message_headers() {
    let m = frame_message(300, "2024-05-01T10:00:00+00:00".to_string(), &Some("A".to_string()), vec![1, 2, 3]);
    assert_eq!(m.subject, "frames");
    assert_eq!(m.payload, vec![1, 2, 3]);
    assert_eq!(value_of(&m.headers, "Content-Type").as_deref(), Some("image/png"));
    assert_eq!(value_of(&m.headers, "Date").as_deref(), Some("2024-05-01T10:00:00+00:00"));
    assert_eq!(value_of(&m.headers, "Frame-Id").as_deref(), Some("300"));
    assert_eq!(value_of(&m.headers, "Monitor-Id").as_deref(), Some("A"));
    let bare = frame_message(0, "d".to_string(), &None, vec![]);
    assert_eq!(bare.headers.len(), 3);
    assert_eq!(value_of(&bare.headers, "Frame-Id").as_deref(), Some("0"));
    assert_eq!(value_of(&bare.headers, "Monitor-Id"), None);
}

#[test]
fn header_lookup_takes_first_value() {
    let headers = vec![
        Header { name: "Frame-Id".to_string(), value: "1".to_string() },
        Header { name: "Frame-Id".to_string(), value: "2".to_string() },
    ];
    assert_eq!(value_of(&headers, "Frame-Id").as_deref(), Some("1"));
    assert_eq!(value_of(&headers, "frame-id"), None);
}

#[test]
fn encoded_frame_keeps_dimensions() {
    let (w, h) = (6u32, 4u32);
    let pixels: Vec<u8> = (0..(w * h * 3)).map(|i| (i % 251) as u8).collect();
    let png = encode_frame(w, h, pixels).unwrap();
    assert_eq!(&png[1..4], b"PNG");
    let img = image::load_from_memory_with_format(&png, image::ImageFormat::Png).unwrap();
    assert_eq!((img.width(), img.height()), (w, h));
}

#[test]
fn short_frame_buffer_is_refused() {
    assert_eq!(encode_frame(4, 4, vec![0; 47]).unwrap_err(), MediaError::FrameSizeMismatch);
}

#[test]
fn padded_frame_buffer_is_refused() {
    assert_eq!(encode_frame(4, 4, vec![0; 49]).unwrap_err(), MediaError::FrameSizeMismatch);
    assert_eq!(encode_frame(3, 2, vec![0; 2 * 12]).unwrap_err(), MediaError::FrameSizeMismatch);
    let m = publish_frame(9, 2, 2, vec![0; 13], "d".to_string(), &None);
    assert_eq!(m.unwrap_err(), MediaError::FrameSizeMismatch);
    assert!(encode_frame(3, 2, vec![0; 18]).is_ok());
    let m = publish_frame(9, 2, 2, vec![0; 11], "d".to_string(), &None);
    assert_eq!(m.unwrap_err(), MediaError::FrameSizeMismatch);
}

#[test]
fn publish_frame_wraps_png() {
    let m = publish_frame(42, 2, 2, vec![7; 12], "d".to_string(), &Some("cam".to_string())).unwrap();
    assert_eq!(value_of(&m.headers, "Frame-Id").as_deref(), Some("42"));
    let img = image::load_from_memory_with_format(&m.payload, image::ImageFormat::Png).unwrap();
    assert_eq!((img.width(), img.height()), (2, 2));
}

#[test]
fn picture_type_names() {
    assert_eq!(PictureType::Png.content_type(), "image/png");
    assert_eq!(PictureType::WebP.content_type(), "image/webp");
    assert_eq!(PictureType::Png.extension(), "png");
    assert_eq!(PictureType::WebP.extension(), "webp");
}

#[test]
fn decoded_frame_matches_source_dimensions() {
    let png = encode_frame(5, 3, vec![1; 45]).unwrap();
    let frame = decode_picture(&png, PictureType::Png).unwrap();
    assert_eq!((frame.image().width(), frame.image().height()), (5, 3));
    assert!(frame.is_decoding_of(&png, PictureType::Png));
    assert!(decode_picture(&png, PictureType::WebP).is_err());
    assert_eq!(decode_picture(&vec![0, 1, 2], PictureType::Png).unwrap_err(), MediaError::Decode);
}

#[test]
fn decimal_text_writes_shortest_digits() {
    assert_eq!(decimal_text(0), "0");
    assert_eq!(decimal_text(7), "7");
    assert_eq!(decimal_text(10), "10");
    assert_eq!(decimal_text(300), "300");
    assert_eq!(decimal_text(u64::MAX), u64::MAX.to_string());
}

#[test]
fn padded_rows_are_packed() {
    // two rows of one pixel each, padded to four bytes, after a two-byte offset
    let data = vec![9, 9, 1, 2, 3, 0, 4, 5, 6, 0];
    assert_eq!(pack_rows(&data, 1, 2, 4, 2), Some(vec![1, 2, 3, 4, 5, 6]));
    let packed = pack_rows(&data, 1, 2, 4, 2).unwrap();
    assert!(encode_frame(1, 2, packed).is_ok());
    assert_eq!(pack_rows(&data, 1, 3, 4, 2), None);
    assert_eq!(pack_rows(&data, 2, 1, 4, 5), None);
    assert_eq!(pack_rows(&data, 0, 0, 0, 0), Some(vec![]));
}
