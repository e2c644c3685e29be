//! Service settings, validated from the raw values that the environment
//! supplied.

use vstd::prelude::*;
use crate::decimal::{parse_unsigned, unsigned_text_value};

verus! {

#[derive(Clone, Copy, Debug, PartialEq, Eq, Structural)]
pub enum ConfigError {
    MissingRtspUrl,
    MissingNatsUrl,
    MissingDatabaseUrl,
    /// The frame interval is not a decimal number that fits in `usize`.
    InvalidFrameInterval,
    /// A frame interval of zero is refused.
    ZeroFrameInterval,
}

/// Settings of the stream extractor.
#[derive(Debug)]
pub struct ExtractorConfig {
    pub rtsp_url: String,
    pub monitor_id: Option<String>,
    pub nats_url: String,
    pub frame_interval: Option<usize>,
}

/// The interval that a raw value denotes, where it is a usable one.
pub open spec fn interval_value(s: Seq<char>) -> Option<int> {
    match unsigned_text_value(s) {
        Some(v) => if 0 < v <= usize::MAX {
            Some(v)
        } else {
            None
        },
        None => None,
    }
}

impl ExtractorConfig {
    /// Validates the extractor's settings: both URLs are required, and a
    /// frame interval, where given, must be a positive decimal number.
    pub fn from_values(
        rtsp_url: Option<String>,
        monitor_id: Option<String>,
        nats_url: Option<String>,
        frame_interval: Option<String>,
    ) -> (r: Result<ExtractorConfig, ConfigError>)
        ensures
            rtsp_url is None ==> r == Err::<ExtractorConfig, ConfigError>(
                ConfigError::MissingRtspUrl,
            ),
            rtsp_url is Some && nats_url is None ==> r == Err::<ExtractorConfig, ConfigError>(
                ConfigError::MissingNatsUrl,
            ),
            (rtsp_url is Some && nats_url is Some && frame_interval is Some && (unsigned_text_value(
                frame_interval->0@,
            ) is None || unsigned_text_value(frame_interval->0@)->0 > usize::MAX)) ==> r == Err::<
                ExtractorConfig,
                ConfigError,
            >(ConfigError::InvalidFrameInterval),
            (rtsp_url is Some && nats_url is Some && frame_interval is Some && unsigned_text_value(
                frame_interval->0@,
            ) == Some(0int)) ==> r == Err::<ExtractorConfig, ConfigError>(
                ConfigError::ZeroFrameInterval,
            ),
            r is Ok <==> (rtsp_url is Some && nats_url is Some && (frame_interval is Some
                ==> interval_value(frame_interval->0@) is Some)),
            r matches Ok(c) ==> {
                &&& c.rtsp_url == rtsp_url->0
                &&& c.nats_url == nats_url->0
                &&& c.monitor_id == monitor_id
                &&& (c.frame_interval is None <==> frame_interval is None)
                &&& (c.frame_interval matches Some(n) ==> interval_value(frame_interval->0@)
                    == Some(n as int))
            },
    {
        let rtsp_url = match rtsp_url {
            Some(u) => u,
            None => return Err(ConfigError::MissingRtspUrl),
        };
        let nats_url = match nats_url {
            Some(u) => u,
            None => return Err(ConfigError::MissingNatsUrl),
        };
        let frame_interval = match &frame_interval {
            None => None,
            Some(s) => match parse_unsigned(s.as_str(), usize::MAX as u64) {
                None => return Err(ConfigError::InvalidFrameInterval),
                Some(0) => return Err(ConfigError::ZeroFrameInterval),
                Some(v) => Some(v as usize),
            },
        };
        Ok(ExtractorConfig { rtsp_url, monitor_id, nats_url, frame_interval })
    }
}

/// Settings of the recognition worker.
#[derive(Debug)]
pub struct RecognitionConfig {
    pub nats_url: String,
}

impl RecognitionConfig {
    pub fn from_values(nats_url: Option<String>) -> (r: Result<RecognitionConfig, ConfigError>)
        ensures
            nats_url is None ==> r == Err::<RecognitionConfig, ConfigError>(
                ConfigError::MissingNatsUrl,
            ),
            nats_url matches Some(u) ==> r matches Ok(c) && c.nats_url == u,
    {
        match nats_url {
            Some(u) => Ok(RecognitionConfig { nats_url: u }),
            None => Err(ConfigError::MissingNatsUrl),
        }
    }
}

/// Settings of the query service.
#[derive(Debug)]
pub struct Config {
    pub database_url: String,
}

impl Config {
    pub fn from_values(database_url: Option<String>) -> (r: Result<Config, ConfigError>)
        ensures
            database_url is None ==> r == Err::<Config, ConfigError>(
                ConfigError::MissingDatabaseUrl,
            ),
            database_url matches Some(u) ==> r matches Ok(c) && c.database_url == u,
    {
        match database_url {
            Some(u) => Ok(Config { database_url: u }),
            None => Err(ConfigError::MissingDatabaseUrl),
        }
    }
}

} // verus!
