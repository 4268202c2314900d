//! Google Cast control plane: load requests, media sessions and their status.

use vstd::prelude::*;
use crate::error::Error;
use crate::text::clone_opt;

pub mod pool;
pub mod worker;

verus! {

/// Content type for lossless FLAC Cast media.
pub const CONTENT_TYPE_FLAC: &'static str = "audio/flac";

/// Content type for WAV / LPCM Cast media.
pub const CONTENT_TYPE_WAV: &'static str = "audio/wav";

/// Cast media namespace (wire).
pub const MEDIA_NAMESPACE: &'static str = "urn:x-cast:com.google.cast.media";

/// Cast receiver namespace (wire).
pub const RECEIVER_NAMESPACE: &'static str = "urn:x-cast:com.google.cast.receiver";

/// How Cast should stream the media URL.
#[derive(Debug, Clone, Copy, PartialEq, Eq, Structural)]
pub enum CastStreamKind {
    /// Progressive / finite file (BUFFERED).
    Buffered,
    /// Continuous live stream (LIVE).
    Live,
}

/// Track description of a LOAD payload.
#[derive(Debug)]
pub struct TrackMetadata {
    /// Title shown on the sink UI.
    pub title: String,
}

/// Payload of a Cast LOAD command.
#[derive(Debug)]
pub struct Media {
    /// URL that the device fetches.
    pub content_id: String,
    /// Stream type for the player.
    pub stream_type: CastStreamKind,
    /// MIME type.
    pub content_type: String,
    /// Track description, when there is a title.
    pub metadata: Option<TrackMetadata>,
}

/// What to load on a device.
#[derive(Debug)]
pub struct MediaLoadRequest {
    /// URL the Chromecast will HTTP-GET (our local media server).
    pub content_url: String,
    /// MIME type (`audio/flac` or `audio/wav`).
    pub content_type: String,
    /// Stream type for the player.
    pub stream_kind: CastStreamKind,
    /// Optional track title shown on the sink UI.
    pub title: Option<String>,
}

impl Clone for MediaLoadRequest {
    fn clone(&self) -> (r: MediaLoadRequest)
        ensures
            r == *self,
    {
        MediaLoadRequest {
            content_url: self.content_url.clone(),
            content_type: self.content_type.clone(),
            stream_kind: self.stream_kind,
            title: clone_opt(&self.title),
        }
    }
}

impl MediaLoadRequest {
    /// Build a FLAC load request.
    pub fn flac(url: &str, kind: CastStreamKind) -> (r: MediaLoadRequest)
        ensures
            r.content_url@ == url@,
            r.content_type@ == CONTENT_TYPE_FLAC@,
            r.content_type@ == "audio/flac"@,
            r.stream_kind == kind,
            r.title is None,
    {
        MediaLoadRequest {
            content_url: url.to_owned(),
            content_type: CONTENT_TYPE_FLAC.to_owned(),
            stream_kind: kind,
            title: None,
        }
    }

    /// Build a WAV load request.
    pub fn wav(url: &str, kind: CastStreamKind) -> (r: MediaLoadRequest)
        ensures
            r.content_url@ == url@,
            r.content_type@ == CONTENT_TYPE_WAV@,
            r.content_type@ == "audio/wav"@,
            r.stream_kind == kind,
            r.title is None,
    {
        MediaLoadRequest {
            content_url: url.to_owned(),
            content_type: CONTENT_TYPE_WAV.to_owned(),
            stream_kind: kind,
            title: None,
        }
    }

    /// Attach a display title.
    pub fn with_title(self, title: &str) -> (r: MediaLoadRequest)
        ensures
            r.content_url == self.content_url,
            r.content_type == self.content_type,
            r.stream_kind == self.stream_kind,
            r.title matches Some(t) && t@ == title@,
    {
        MediaLoadRequest {
            content_url: self.content_url,
            content_type: self.content_type,
            stream_kind: self.stream_kind,
            title: Some(title.to_owned()),
        }
    }

    /// The LOAD payload of the request.
    pub fn to_media(&self) -> (m: Media)
        ensures
            m.content_id@ == self.content_url@,
            m.stream_type == self.stream_kind,
            m.content_type@ == self.content_type@,
            match (self.title, m.metadata) {
                (Some(t), Some(d)) => d.title@ == t@,
                (None, None) => true,
                _ => false,
            },
    {
        let metadata = match &self.title {
            Some(t) => Some(TrackMetadata { title: t.clone() }),
            None => None,
        };
        Media {
            content_id: self.content_url.clone(),
            stream_type: self.stream_kind,
            content_type: self.content_type.clone(),
            metadata,
        }
    }
}

/// Identifiers required by Cast media transport commands (play/pause/stop).
#[derive(Debug)]
pub struct MediaSessionRef {
    /// Cast app transport id.
    pub transport_id: String,
    /// Media session id returned by LOAD/STATUS.
    pub media_session_id: i32,
}

impl Clone for MediaSessionRef {
    fn clone(&self) -> (r: MediaSessionRef)
        ensures
            r == *self,
    {
        MediaSessionRef {
            transport_id: self.transport_id.clone(),
            media_session_id: self.media_session_id,
        }
    }
}

impl MediaSessionRef {
    /// Construct a session reference.
    pub fn new(transport_id: String, media_session_id: i32) -> (r: MediaSessionRef)
        ensures
            r == (MediaSessionRef { transport_id, media_session_id }),
    {
        MediaSessionRef { transport_id, media_session_id }
    }
}

/// Active Cast media session after a successful LOAD.
pub type ActiveCastSession = MediaSessionRef;

/// Player state of a media session.
#[derive(Debug, Clone, Copy, PartialEq, Eq, Structural)]
pub enum PlayerState {
    /// Nothing is played.
    Idle,
    /// Content is played.
    Playing,
    /// In play mode, waiting for data.
    Buffering,
    /// Paused.
    Paused,
}

/// Why a player is idle.
#[derive(Debug, Clone, Copy, PartialEq, Eq, Structural)]
pub enum IdleReason {
    /// A sender stopped playback.
    Cancelled,
    /// A sender loaded something else.
    Interrupted,
    /// The media ended.
    Finished,
    /// The media failed.
    Error,
}

/// One media session in a status message.
#[derive(Debug, Clone, Copy, PartialEq, Eq, Structural)]
pub struct StatusEntry {
    /// Media session id.
    pub media_session_id: i32,
    /// Player state.
    pub player_state: PlayerState,
    /// Why the player is idle, when it is and says so.
    pub idle_reason: Option<IdleReason>,
}

/// A LOAD/STATUS response.
#[derive(Debug)]
pub struct Status {
    /// The media sessions of the receiver.
    pub entries: Vec<StatusEntry>,
}

/// Extract the media session id from a LOAD/STATUS response: that of the first entry.
pub fn media_session_id_from_status(status: &Status) -> (r: Result<i32, Error>)
    ensures
        match r {
            Ok(id) => status.entries@.len() > 0 && id == status.entries@[0].media_session_id,
            Err(Error::Cast(m)) => status.entries@.len() == 0 && m@
                == "LOAD status had no media session entries"@,
            Err(_) => false,
        },
{
    if status.entries.len() > 0 {
        return Ok(status.entries[0].media_session_id);
    }
    Err(Error::Cast("LOAD status had no media session entries".to_owned()))
}

} // verus!
