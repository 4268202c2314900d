//! What the media server answers at `/stream`.
//!
//! The caller runs the HTTP server and drives the bodies. `R` stands for a PCM ring
//! handle.

use vstd::prelude::*;
use crate::audio::flac;
use crate::audio::flac::{
    live_stream_header_bytes, live_stream_info, round_up_to_flac_blocks, StreamInfo,
};
use crate::audio::pcm;
use crate::audio::wav;
use crate::audio::wav::continuous_wav_header;
use crate::clock::Instant;
use crate::media::live;
use crate::media::live::{
    live_body_threshold, silence_preroll_frames, LiveFlacBody, LiveWavBody, LIVE_CONTENT_LENGTH,
};
use crate::text;
use crate::text::{chars_of, push_all, push_str, string_of, to_decimal, trim};

verus! {

/// What the media server currently serves at `/stream`.
#[derive(Debug)]
pub enum MediaContent<R> {
    /// Finite static body (short clips).
    Static {
        /// HTTP Content-Type (e.g. `audio/flac`).
        content_type: String,
        /// Full response body.
        body: Vec<u8>,
    },
    /// Continuous interleaved s16le WAV pulled from a live PCM ring.
    LiveWav {
        /// Shared decode ring.
        ring: R,
        /// Channel count advertised in the WAV header.
        channels: u16,
        /// Sample rate (Hz) advertised in the WAV header.
        sample_rate: u32,
    },
    /// Continuous FLAC pulled from a live PCM ring (chunked; no Content-Length).
    LiveFlac {
        /// Shared decode ring.
        ring: R,
        /// Channel count of the stream.
        channels: u16,
        /// Sample rate (Hz) of the stream.
        sample_rate: u32,
    },
    /// Empty placeholder until a session attaches real bytes.
    Empty,
}

/// Headers of a successful answer.
#[derive(Debug)]
pub struct Head {
    /// Content-Type.
    pub content_type: String,
    /// Content-Length; without one the body is chunked.
    pub content_length: Option<u64>,
    /// Range requests are declined, so that nothing restarts the body mid-stream.
    pub accept_ranges_none: bool,
}

impl Head {
    /// The headers as plain values.
    pub open spec fn values(&self) -> (Seq<char>, Option<u64>, bool) {
        (self.content_type@, self.content_length, self.accept_ranges_none)
    }
}

/// The answer to a GET.
#[derive(Debug)]
pub enum GetReply {
    /// The static body.
    Whole(Head),
    /// A live WAV body.
    Wav(Head, LiveWavBody),
    /// A live FLAC body.
    Flac(Head, LiveFlacBody),
    /// Not found, with this text.
    NotFound(&'static str),
    /// Internal error, with this text.
    Failed(&'static str),
}

/// The answer to a HEAD.
#[derive(Debug)]
pub enum HeadReply {
    /// The headers of a GET, without its body.
    Found(Head),
    /// Not found, with this text.
    NotFound(&'static str),
}

/// Signals that a WAV body ended at its Content-Length and needs a Cast re-LOAD.
#[derive(Debug, Clone, Copy, PartialEq, Eq, Structural)]
pub struct RolloverSignal {
    count: u64,
}

impl RolloverSignal {
    /// How often the signal was given, modulo 2^64.
    pub closed spec fn signals(&self) -> u64 {
        self.count
    }

    /// A signal that was never given.
    pub fn new() -> (r: RolloverSignal)
        ensures
            r.signals() == 0,
    {
        RolloverSignal { count: 0 }
    }

    /// Give the signal.
    pub fn signal(&mut self)
        ensures
            final(self).signals() == pcm::wrap_u64(old(self).signals() + 1),
    {
        self.count = self.count.wrapping_add(1);
    }

    /// Current rollover count.
    pub fn count(&self) -> (n: u64)
        ensures
            n == self.signals(),
    {
        self.count
    }

    /// The count once it is past `seen`; `None` while a waiter has to wait on.
    pub fn past(&self, seen: u64) -> (r: Option<u64>)
        ensures
            r == if self.signals() > seen {
                Some(self.signals())
            } else {
                None
            },
            r == count_past(self.signals(), seen),
    {
        if self.count > seen {
            Some(self.count)
        } else {
            None
        }
    }
}

/// The state of one media server.
#[derive(Debug, Clone, Copy, PartialEq, Eq, Structural)]
pub struct StreamState {
    /// Bumped per live GET so the newest request supersedes older bodies.
    ///
    /// Cast clients sometimes probe `/stream` and then issue the real request; two
    /// live bodies popping the same ring would split frames between them.
    pub live_generation: u64,
    /// Most bytes that one WAV body produces before it ends and asks for a re-LOAD.
    pub max_body_bytes: u64,
    /// Bytes emitted by the active body.
    pub bytes_served: u64,
    /// When the active body last wrote.
    pub last_body_write: Option<Instant>,
    /// Given when a WAV body ends at its Content-Length.
    pub rollover: RolloverSignal,
}

/// The rate or channel count of a live stream: at least one.
pub open spec fn at_least_one_rate(sample_rate: u32) -> u32 {
    if sample_rate == 0 {
        1
    } else {
        sample_rate
    }
}

/// The channel count of a live stream: at least one.
pub open spec fn at_least_one_channel(channels: u16) -> u16 {
    if channels == 0 {
        1
    } else {
        channels
    }
}

/// The headers of a live WAV body.
pub open spec fn wav_head(max_body_bytes: u64) -> (Seq<char>, Option<u64>, bool) {
    ("audio/wav"@, Some(live::body_threshold(max_body_bytes)), true)
}

/// The headers of a live FLAC body.
pub open spec fn flac_head() -> (Seq<char>, Option<u64>, bool) {
    ("audio/flac"@, None, true)
}

/// The headers of what is served, `None` when nothing is.
pub open spec fn served_head<R>(content: MediaContent<R>, max_body_bytes: u64) -> Option<
    (Seq<char>, Option<u64>, bool),
> {
    match content {
        MediaContent::Static { content_type, body } => Some(
            (content_type@, Some(body@.len() as u64), false),
        ),
        MediaContent::LiveWav { ring, channels, sample_rate } => Some(wav_head(max_body_bytes)),
        MediaContent::LiveFlac { ring, channels, sample_rate } => Some(flac_head()),
        MediaContent::Empty => None,
    }
}

impl GetReply {
    /// The headers of a successful answer.
    pub open spec fn head(&self) -> Option<(Seq<char>, Option<u64>, bool)> {
        match self {
            GetReply::Whole(head) => Some(head.values()),
            GetReply::Wav(head, body) => Some(head.values()),
            GetReply::Flac(head, body) => Some(head.values()),
            GetReply::NotFound(m) => None,
            GetReply::Failed(m) => None,
        }
    }
}

impl HeadReply {
    /// The headers of a successful answer.
    pub open spec fn head(&self) -> Option<(Seq<char>, Option<u64>, bool)> {
        match self {
            HeadReply::Found(head) => Some(head.values()),
            HeadReply::NotFound(m) => None,
        }
    }
}

/// Frames of silence before the PCM of a live stream, as far as `usize` goes.
pub open spec fn preroll(sample_rate: u32) -> nat {
    if live::preroll_frames(sample_rate) <= usize::MAX {
        live::preroll_frames(sample_rate) as nat
    } else {
        usize::MAX as nat
    }
}

impl StreamState {
    /// The state after a live GET: a new generation with fresh accounting.
    pub open spec fn after_live_get(self) -> StreamState {
        StreamState {
            live_generation: pcm::wrap_u64(self.live_generation + 1),
            bytes_served: 0,
            last_body_write: None,
            ..self
        }
    }

    /// A server that has served nothing.
    pub fn new() -> (r: StreamState)
        ensures
            r.live_generation == 0,
            r.max_body_bytes == LIVE_CONTENT_LENGTH,
            r.bytes_served == 0,
            r.last_body_write is None,
            r.rollover.signals() == 0,
    {
        StreamState {
            live_generation: 0,
            max_body_bytes: LIVE_CONTENT_LENGTH,
            bytes_served: 0,
            last_body_write: None,
            rollover: RolloverSignal::new(),
        }
    }

    /// Override the body byte cap. It is never less than a WAV header.
    pub fn set_max_body_bytes(&mut self, max_body_bytes: u64)
        ensures
            *final(self) == (StreamState {
                max_body_bytes: live::body_threshold(max_body_bytes),
                ..*old(self)
            }),
    {
        self.max_body_bytes = live_body_threshold(max_body_bytes);
    }

    /// Bytes emitted and time of the last write for the current generation.
    pub fn progress(&self) -> (r: (u64, Option<Instant>))
        ensures
            r == (self.bytes_served, self.last_body_write),
    {
        (self.bytes_served, self.last_body_write)
    }

    /// Account for a chunk that a body emitted, `bytes_sent` being its total so far.
    pub fn note_chunk(&mut self, bytes_sent: u64, rollover: bool, now: Instant)
        ensures
            final(self).live_generation == old(self).live_generation,
            final(self).max_body_bytes == old(self).max_body_bytes,
            final(self).bytes_served == bytes_sent,
            final(self).last_body_write == Some(now),
            final(self).rollover.signals() == (if rollover {
                pcm::wrap_u64(old(self).rollover.signals() + 1)
            } else {
                old(self).rollover.signals()
            }),
    {
        self.bytes_served = bytes_sent;
        self.last_body_write = Some(now);
        if rollover {
            let mut signal = self.rollover;
            signal.signal();
            self.rollover = signal;
        }
    }

    fn begin_live(&mut self) -> (generation: u64)
        ensures
            *final(self) == old(self).after_live_get(),
            generation == final(self).live_generation,
    {
        let generation: u64 = self.live_generation.wrapping_add(1);
        self.live_generation = generation;
        self.bytes_served = 0;
        self.last_body_write = None;
        generation
    }

    /// GET `/stream`. A live request supersedes a prior live body.
    pub fn serve_stream<R>(&mut self, content: &MediaContent<R>) -> (reply: GetReply)
        ensures
            reply.head() is Some ==> reply.head() == served_head(
                *content,
                old(self).max_body_bytes,
            ),
            reply is NotFound <==> content is Empty,
            match *content {
                MediaContent::Static { content_type, body } => {
                    &&& *final(self) == *old(self)
                    &&& reply matches GetReply::Whole(head) && head.values() == (
                        content_type@,
                        Some(body@.len() as u64),
                        false,
                    )
                },
                MediaContent::LiveWav { ring, channels, sample_rate } => {
                    &&& *final(self) == old(self).after_live_get()
                    &&& reply matches GetReply::Wav(head, body) && {
                        &&& head.values() == wav_head(old(self).max_body_bytes)
                        &&& is_wav_body(body, *final(self), channels, sample_rate)
                    }
                },
                MediaContent::LiveFlac { ring, channels, sample_rate } => {
                    &&& *final(self) == old(self).after_live_get()
                    &&& flac_reply(
                        reply,
                        *final(self),
                        at_least_one_channel(channels),
                        at_least_one_rate(sample_rate),
                    )
                },
                MediaContent::Empty => {
                    &&& *final(self) == *old(self)
                    &&& reply matches GetReply::NotFound(m) && m@ == "no stream"@
                },
            },
    {
        match content {
            MediaContent::Static { content_type, body } => GetReply::Whole(
                Head {
                    content_type: content_type.clone(),
                    content_length: Some(body.len() as u64),
                    accept_ranges_none: false,
                },
            ),
            MediaContent::LiveWav { ring: _, channels, sample_rate } => {
                let generation: u64 = self.begin_live();
                live_wav_response(*channels, *sample_rate, generation, self.max_body_bytes)
            },
            MediaContent::LiveFlac { ring: _, channels, sample_rate } => {
                let generation: u64 = self.begin_live();
                let reply = live_flac_response(*channels, *sample_rate, generation);
                proof {
                    assert(flac_reply(
                        reply,
                        *self,
                        at_least_one_channel(*channels),
                        at_least_one_rate(*sample_rate),
                    ));
                }
                reply
            },
            MediaContent::Empty => GetReply::NotFound("no stream"),
        }
    }

    /// HEAD `/stream`: the headers of a GET, without superseding a live body.
    pub fn serve_stream_head<R>(&self, content: &MediaContent<R>) -> (reply: HeadReply)
        ensures
            reply.head() == served_head(*content, self.max_body_bytes),
            content is Empty ==> (reply matches HeadReply::NotFound(m) && m@ == "no stream"@),
    {
        match content {
            MediaContent::Static { content_type, body } => HeadReply::Found(
                Head {
                    content_type: content_type.clone(),
                    content_length: Some(body.len() as u64),
                    accept_ranges_none: false,
                },
            ),
            MediaContent::LiveWav { ring: _, channels: _, sample_rate: _ } => HeadReply::Found(
                live_wav_head(self.max_body_bytes),
            ),
            MediaContent::LiveFlac { ring: _, channels: _, sample_rate: _ } => HeadReply::Found(
                live_flac_head(),
            ),
            MediaContent::Empty => HeadReply::NotFound("no stream"),
        }
    }
}

fn live_wav_head(max_body_bytes: u64) -> (head: Head)
    ensures
        head.values() == wav_head(max_body_bytes),
{
    Head {
        content_type: string_of(chars_of("audio/wav").as_slice()),
        content_length: Some(live_body_threshold(max_body_bytes)),
        accept_ranges_none: true,
    }
}

fn live_flac_head() -> (head: Head)
    ensures
        head.values() == flac_head(),
{
    Head {
        content_type: string_of(chars_of("audio/flac").as_slice()),
        content_length: None,
        accept_ranges_none: true,
    }
}

/// `body` is a fresh WAV body of the newest generation.
pub open spec fn is_wav_body(
    body: LiveWavBody,
    state: StreamState,
    channels: u16,
    sample_rate: u32,
) -> bool {
    let ch = at_least_one_channel(channels);
    let rate = at_least_one_rate(sample_rate);
    &&& body.wf()
    &&& body.header@ == wav::header_bytes(ch, rate, wav::CONTINUOUS_DATA_LEN)
    &&& !body.pos.header_sent
    &&& body.pos.preroll_left == preroll(rate)
    &&& body.pos.sent == 0
    &&& body.channels == ch
    &&& body.sample_rate == rate
    &&& body.generation == state.live_generation
    &&& body.frames_emitted == 0
    &&& body.pace_origin is None
    &&& body.threshold == live::body_threshold(state.max_body_bytes)
}

/// `body` is a fresh FLAC body of the newest generation.
pub open spec fn is_flac_body(
    body: LiveFlacBody,
    state: StreamState,
    channels: u16,
    sample_rate: u32,
) -> bool {
    &&& body.wf()
    &&& body.header@ == flac::stream_header(
        sample_rate as nat,
        channels as nat,
        flac::FLAC_BLOCK_SIZE as nat,
    )
    &&& body.info == (StreamInfo { sample_rate, channels })
    &&& !body.header_sent
    &&& body.preroll_left == flac::whole_blocks(preroll(sample_rate))
    &&& body.bytes_sent == 0
    &&& body.frames_emitted == 0
    &&& body.pace_origin is None
    &&& body.frame_number == 0
    &&& body.generation == state.live_generation
}

/// The answer to a live FLAC request: a body for the formats that a stream can have,
/// an error for the others.
pub open spec fn flac_reply(
    reply: GetReply,
    state: StreamState,
    channels: u16,
    sample_rate: u32,
) -> bool {
    if !flac::info_ok(sample_rate, channels) {
        reply matches GetReply::Failed(m) && m@ == "flac streaminfo"@
    } else if channels > 8 {
        reply matches GetReply::Failed(m) && m@ == "flac framebuf"@
    } else {
        reply matches GetReply::Flac(head, body) && head.values() == flac_head() && is_flac_body(
            body,
            state,
            channels,
            sample_rate,
        )
    }
}

fn live_wav_response(
    channels: u16,
    sample_rate: u32,
    generation: u64,
    max_body_bytes: u64,
) -> (reply: GetReply)
    ensures
        reply matches GetReply::Wav(head, body) && {
            &&& head.values() == wav_head(max_body_bytes)
            &&& forall|state: StreamState|
                #![trigger is_wav_body(body, state, channels, sample_rate)]
                state.live_generation == generation && state.max_body_bytes == max_body_bytes
                    ==> is_wav_body(body, state, channels, sample_rate)
        },
{
    let ch: u16 = if channels == 0 {
        1
    } else {
        channels
    };
    let rate: u32 = if sample_rate == 0 {
        1
    } else {
        sample_rate
    };
    let header = match continuous_wav_header(ch, rate) {
        Ok(h) => h,
        Err(_) => {
            return GetReply::Failed("wav header");
        },
    };
    let preroll_frames: usize = silence_preroll_frames(rate);
    let threshold: u64 = live_body_threshold(max_body_bytes);
    let body = LiveWavBody::new(header, ch, rate, preroll_frames, generation, threshold);
    GetReply::Wav(live_wav_head(max_body_bytes), body)
}

fn live_flac_response(channels: u16, sample_rate: u32, generation: u64) -> (reply: GetReply)
    ensures
        forall|state: StreamState|
            #![trigger flac_reply(
                reply,
                state,
                at_least_one_channel(channels),
                at_least_one_rate(sample_rate),
            )]
            state.live_generation == generation ==> flac_reply(
                reply,
                state,
                at_least_one_channel(channels),
                at_least_one_rate(sample_rate),
            ),
{
    let ch: u16 = if channels == 0 {
        1
    } else {
        channels
    };
    let rate: u32 = if sample_rate == 0 {
        1
    } else {
        sample_rate
    };
    let info = match live_stream_info(rate, ch) {
        Ok(info) => info,
        Err(_) => {
            return GetReply::Failed("flac streaminfo");
        },
    };
    let header = match live_stream_header_bytes(&info) {
        Ok(h) => h,
        Err(_) => {
            return GetReply::Failed("flac header");
        },
    };
    if ch > 8 {
        return GetReply::Failed("flac framebuf");
    }
    let preroll_frames: usize = round_up_to_flac_blocks(silence_preroll_frames(rate));
    let body = LiveFlacBody::new(header, info, preroll_frames, generation);
    GetReply::Flac(live_flac_head(), body)
}

// ── Addresses ───────────────────────────────────────────────────────────────

/// The base URL of a server at a port, on loopback where no host is given.
pub open spec fn url_base(advertise_host: Seq<char>, port: u16) -> Seq<char> {
    let host = if text::trimmed(advertise_host).len() == 0 {
        "127.0.0.1"@
    } else {
        text::trimmed(advertise_host)
    };
    "http://"@ + host + ":"@ + text::decimal(port as nat)
}

/// Base URL such as `http://192.168.1.10:54321`.
pub fn base_url(advertise_host: &str, port: u16) -> (r: String)
    ensures
        r@ == url_base(advertise_host@, port),
{
    let c = chars_of(advertise_host);
    let host = trim(c.as_slice());
    let mut out = chars_of("http://");
    if host.len() == 0 {
        push_str(&mut out, "127.0.0.1");
    } else {
        push_all(&mut out, host);
    }
    push_str(&mut out, ":");
    let n = to_decimal(port as u64);
    push_all(&mut out, n.as_slice());
    string_of(out.as_slice())
}

/// URL of the continuous media path Cast should load.
pub fn stream_url(base_url: &str) -> (r: String)
    ensures
        r@ == base_url@ + "/stream"@,
{
    let mut out = chars_of(base_url);
    push_str(&mut out, "/stream");
    string_of(out.as_slice())
}

// ── Laws ────────────────────────────────────────────────────────────────────

/// A body that answered a live GET belongs to an older generation after the next one,
/// so that it ends before it takes anything from the ring.
pub proof fn law_new_get_supersedes(state: StreamState, body: LiveWavBody)
    requires
        body.generation == state.live_generation,
    ensures
        body.generation != state.after_live_get().live_generation,
{
    let g = state.live_generation as int;
    if g == u64::MAX {
        assert((g + 1) % 0x1_0000_0000_0000_0000 == 0) by (nonlinear_arith)
            requires
                g == u64::MAX,
        ;
    } else {
        assert((g + 1) % 0x1_0000_0000_0000_0000 == g + 1) by (nonlinear_arith)
            requires
                0 <= g < u64::MAX,
        ;
    }
}

/// A HEAD answers with the headers of the GET that it stands for, whenever that GET
/// succeeds.
pub proof fn law_head_matches_get<R>(
    state: StreamState,
    content: MediaContent<R>,
    get: GetReply,
    head: HeadReply,
)
    requires
        get.head() is Some ==> get.head() == served_head(content, state.max_body_bytes),
        head.head() == served_head(content, state.max_body_bytes),
        get.head() is Some,
    ensures
        head.head() == get.head(),
{
}

/// A WAV body's Content-Length is the count of bytes at which the body ends.
pub proof fn law_content_length_is_the_body_end(
    head: Head,
    body: LiveWavBody,
    state: StreamState,
    channels: u16,
    sample_rate: u32,
)
    requires
        head.values() == wav_head(state.max_body_bytes),
        is_wav_body(body, state, channels, sample_rate),
    ensures
        head.content_length == Some(body.threshold),
        body.threshold >= 44,
{
}

/// A live body is announced by its own type, declines ranges, and, if it is WAV, has as
/// many bytes as the server allows, never fewer than its header's 44. A static body is
/// announced with its own type and length; nothing is announced where nothing is served.
pub proof fn law_headers_announce_the_body<R>(
    content: MediaContent<R>,
    max_body_bytes: u64,
    wav: R,
    flac: R,
    channels: u16,
    sample_rate: u32,
)
    ensures
        served_head(MediaContent::LiveWav { ring: wav, channels, sample_rate }, max_body_bytes)
            == Some(
            (
                "audio/wav"@,
                Some(
                    if max_body_bytes < 44 {
                        44u64
                    } else {
                        max_body_bytes
                    },
                ),
                true,
            ),
        ),
        served_head(MediaContent::LiveFlac { ring: flac, channels, sample_rate }, max_body_bytes)
            == Some(("audio/flac"@, None::<u64>, true)),
        content matches MediaContent::Static { content_type, body } ==> served_head(
            content,
            max_body_bytes,
        ) == Some((content_type@, Some(body@.len() as u64), false)),
        served_head(content, max_body_bytes) is None <==> content is Empty,
{
}

/// A live request begins anew: the next generation, from the greatest on to zero, with
/// nothing served. The allowance and the signals given stay.
pub proof fn law_live_get_begins_anew(state: StreamState)
    ensures
        ({
            let next = state.after_live_get();
            &&& state.live_generation < 0xffff_ffff_ffff_ffff ==> next.live_generation
                == state.live_generation + 1
            &&& state.live_generation == 0xffff_ffff_ffff_ffff ==> next.live_generation == 0
            &&& next.bytes_served == 0
            &&& next.last_body_write is None
            &&& next.max_body_bytes == state.max_body_bytes
            &&& next.rollover == state.rollover
        }),
{
}

/// A fresh WAV body has the stream's own format, two seconds of silence ahead of its PCM,
/// nothing sent, and ends at the announced length.
pub proof fn law_wav_body_begins_with_its_stream(
    body: LiveWavBody,
    state: StreamState,
    channels: u16,
    sample_rate: u32,
)
    requires
        is_wav_body(body, state, channels, sample_rate),
    ensures
        channels > 0 ==> body.channels == channels,
        channels == 0 ==> body.channels == 1,
        sample_rate > 0 ==> body.sample_rate == sample_rate,
        sample_rate == 0 ==> body.sample_rate == 1,
        body.header@ == wav::header_bytes(body.channels, body.sample_rate, 2_147_483_647),
        2 * body.sample_rate <= usize::MAX ==> body.pos.preroll_left == 2 * body.sample_rate,
        !body.pos.header_sent && body.pos.sent == 0 && body.frames_emitted == 0,
        body.pace_origin is None,
        body.generation == state.live_generation,
        state.max_body_bytes >= 44 ==> body.threshold == state.max_body_bytes,
        state.max_body_bytes < 44 ==> body.threshold == 44,
{
    live::law_preroll_lasts_two_seconds(body.sample_rate);
}

/// A FLAC request is answered with a body for one to eight channels at no more than
/// 96 kHz, and refused otherwise. The body has the stream's own format, whole blocks of
/// silence of two seconds at least, and nothing sent.
pub proof fn law_flac_request_is_answered_by_format(
    reply: GetReply,
    state: StreamState,
    channels: u16,
    sample_rate: u32,
)
    requires
        flac_reply(reply, state, channels, sample_rate),
    ensures
        reply is Flac <==> 1 <= channels <= 8 && sample_rate <= 96_000,
        reply is Flac || reply is Failed,
        reply matches GetReply::Flac(head, body) ==> {
            &&& head.content_type@ == "audio/flac"@
            &&& head.content_length is None
            &&& body.info.channels == channels && body.info.sample_rate == sample_rate
            &&& body.header@ == flac::stream_header(sample_rate as nat, channels as nat, 4096)
            &&& sample_rate > 0 ==> 2 * sample_rate <= body.preroll_left < 2 * sample_rate + 4096
            &&& body.preroll_left % 4096 == 0
            &&& !body.header_sent && body.bytes_sent == 0 && body.frames_emitted == 0
            &&& body.frame_number == 0 && body.pace_origin is None
            &&& body.generation == state.live_generation
        },
{
    if reply is Flac {
        assert(channels % 256 == channels);
    }
    live::law_preroll_lasts_two_seconds(sample_rate);
    flac::law_blocks_are_read_as_they_are(channels, 0, preroll(sample_rate));
}

/// A stream's rate and channel count are kept; only none becomes one.
pub proof fn law_only_none_becomes_one(channels: u16, sample_rate: u32)
    ensures
        channels > 0 ==> at_least_one_channel(channels) == channels,
        at_least_one_channel(0) == 1,
        sample_rate > 0 ==> at_least_one_rate(sample_rate) == sample_rate,
        at_least_one_rate(0) == 1,
{
}

/// A server's address is its host, without whitespace around it, and its port in decimal
/// digits; a host that is blank is this very host.
pub proof fn law_address_names_host_and_port(host: Seq<char>, port: u16)
    ensures
        text::trimmed(host).len() > 0 ==> url_base(host, port) == "http://"@ + text::trimmed(host)
            + ":"@ + text::decimal(port as nat),
        text::trimmed(host).len() == 0 ==> url_base(host, port) == "http://127.0.0.1:"@
            + text::decimal(port as nat),
{
    reveal_strlit("http://");
    reveal_strlit("127.0.0.1");
    reveal_strlit(":");
    reveal_strlit("http://127.0.0.1:");
    assert("http://"@ + "127.0.0.1"@ + ":"@ =~= "http://127.0.0.1:"@);
}

/// A count once it is past the one seen.
pub open spec fn count_past(count: u64, seen: u64) -> Option<u64> {
    if count > seen {
        Some(count)
    } else {
        None
    }
}

/// A waiter hears the count as soon as it is greater than the one it has seen, and hears
/// the count itself.
pub proof fn law_waiter_hears_a_greater_count(count: u64, seen: u64)
    ensures
        count_past(count, seen) is Some <==> seen < count,
        count_past(count, seen) matches Some(n) ==> n == count,
{
}

} // verus!
