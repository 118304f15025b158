//! Sending side of a share.
//!
//! [`VideoPump`] and [`AudioPump`] prepare captured media for the encoders.
//! [`SenderSession`] decides the course of a share: everything that talks to the
//! network or to the capture devices is done by the caller, who reports back what
//! came of it.

use crate::capture::video::{prepared_pixels, reduced_size};
use crate::capture::{law_capture_bitrate_is_bounded, Quality};
use crate::signaling::CreateSessionResponse;
use crate::webrtc_client::codec::{codec_outcome, law_whole_frames_are_converted, CodecError};
use crate::webrtc_client::{PeerState, CONNECT_TIMEOUT_SECS};
use vstd::prelude::*;

verus! {

/// Stream number of VP8 video.
pub const VIDEO_STREAM: u8 = 0;

/// Stream number of Opus audio.
pub const AUDIO_STREAM: u8 = 1;

/// One encoded video or audio frame, ready for the wire.
#[derive(Clone)]
pub struct EncodedFrame {
    /// [`VIDEO_STREAM`] or [`AUDIO_STREAM`].
    pub stream: u8,
    pub keyframe: bool,
    pub timestamp_us: u64,
    pub data: Vec<u8>,
}

/// What an encoded frame says.
#[verifier::ext_equal]
pub struct FrameView {
    pub stream: u8,
    pub keyframe: bool,
    pub timestamp_us: u64,
    pub data: Seq<u8>,
}

impl View for EncodedFrame {
    type V = FrameView;

    open spec fn view(&self) -> FrameView {
        FrameView {
            stream: self.stream,
            keyframe: self.keyframe,
            timestamp_us: self.timestamp_us,
            data: self.data@,
        }
    }
}

/// What the person sharing passes on to viewers.
#[derive(Clone)]
pub struct ShareInfo {
    pub viewer_url: String,
    pub pin: String,
}

/// Settings of a VP8 encoder. Timestamps are in milliseconds.
#[derive(Clone, Copy, Debug, PartialEq, Eq, Structural)]
pub struct EncoderConfig {
    pub width: u32,
    pub height: u32,
    pub bitrate_kbps: u32,
}

/// Smallest width and height that the encoder is given.
pub const MIN_DIMENSION: u32 = 16;

/// Whether the encoder can take frames of this size. Capturers may deliver
/// garbage before permission is fully granted.
pub open spec fn is_encodable(width: u32, height: u32) -> bool {
    width >= MIN_DIMENSION && height >= MIN_DIMENSION && width % 2 == 0 && height % 2 == 0
}

/// Decisions around the video encoder.
pub struct VideoPump {
    /// Preset of the share.
    pub quality: Quality,
    /// Settings of the encoder in use.
    pub encoder: Option<EncoderConfig>,
    /// Timestamp of the first encoded frame.
    pub base_us: Option<u64>,
    /// Frames that came from the capturer.
    pub frames_seen: u64,
}

impl VideoPump {
    pub fn new(quality: Quality) -> (p: VideoPump)
        ensures
            p.quality == quality,
            p.encoder is None,
            p.base_us is None,
            p.frames_seen == 0,
    {
        VideoPump { quality, encoder: None, base_us: None, frames_seen: 0 }
    }

    /// Settings that the encoder is to have for frames of this size: the
    /// bandwidth controller's target, but no more than the preset allows.
    pub open spec fn wanted(self, width: u32, height: u32, target_kbps: u32) -> EncoderConfig {
        let ceiling = self.quality.kbps_for(width, height);
        EncoderConfig {
            width,
            height,
            bitrate_kbps: if target_kbps < ceiling {
                target_kbps
            } else {
                ceiling as u32
            },
        }
    }

    /// The pump after a look at one more frame.
    pub open spec fn counted(self) -> VideoPump {
        VideoPump { frames_seen: self.frames_seen.wrapping_add(1), ..self }
    }

    /// Whether dropping the frame last looked at is worth a line in the log.
    pub open spec fn logs_drop(self) -> bool {
        self.frames_seen < 5 || self.frames_seen % 30 == 0
    }

    /// The pump after the encoder was prepared, and the settings for a new encoder if
    /// there is to be one.
    pub open spec fn prepared(
        self,
        width: u32,
        height: u32,
        target_kbps: u32,
        force_keyframe: bool,
    ) -> (VideoPump, Option<EncoderConfig>) {
        let wanted = self.wanted(width, height, target_kbps);
        (
            VideoPump { encoder: Some(wanted), ..self },
            if force_keyframe || self.encoder != Some(wanted) {
                Some(wanted)
            } else {
                None
            },
        )
    }

    /// The pump after a frame was timed, and the frame's presentation time.
    pub open spec fn timed(self, timestamp_us: u64) -> (VideoPump, int) {
        let base = match self.base_us {
            Some(base) => base,
            None => timestamp_us,
        };
        (VideoPump { base_us: Some(base), ..self }, (timestamp_us - base) / 1000)
    }

    /// Looks at the size of a captured frame. `Ok` if it can be encoded;
    /// otherwise it is to be dropped, and the error says whether to log that:
    /// the first few times, and every thirtieth frame.
    pub fn check(&mut self, width: u32, height: u32) -> (r: Result<(), bool>)
        ensures
            *final(self) == old(self).counted(),
            r == if is_encodable(width, height) {
                Ok::<(), bool>(())
            } else {
                Err(final(self).logs_drop())
            },
            r is Ok <==> is_encodable(width, height),
            final(self).frames_seen == old(self).frames_seen.wrapping_add(1),
            r matches Err(log) ==> log == (final(self).frames_seen < 5 || final(self).frames_seen
                % 30 == 0),
            final(self).quality == old(self).quality,
            final(self).encoder == old(self).encoder,
            final(self).base_us == old(self).base_us,
    {
        self.frames_seen = self.frames_seen.wrapping_add(1);
        if width < MIN_DIMENSION || height < MIN_DIMENSION || width % 2 != 0 || height % 2 != 0 {
            Err(self.frames_seen < 5 || self.frames_seen % 30 == 0)
        } else {
            Ok(())
        }
    }

    /// Settings to start a new encoder with before the next frame, or `None` if
    /// the one in use will do. A new encoder begins with a keyframe, which is how
    /// a keyframe is forced.
    pub fn prepare_encoder(
        &mut self,
        width: u32,
        height: u32,
        target_kbps: u32,
        force_keyframe: bool,
    ) -> (start: Option<EncoderConfig>)
        ensures
            (*final(self), start) == old(self).prepared(
                width,
                height,
                target_kbps,
                force_keyframe,
            ),
            ({
                let wanted = old(self).wanted(width, height, target_kbps);
                &&& final(self).encoder == Some(wanted)
                &&& start == if force_keyframe || old(self).encoder != Some(wanted) {
                    Some(wanted)
                } else {
                    None
                }
            }),
            final(self).quality == old(self).quality,
            final(self).base_us == old(self).base_us,
            final(self).frames_seen == old(self).frames_seen,
    {
        let ceiling = self.quality.bitrate_kbps_for_capture(width, height);
        let bitrate_kbps: u32 = if target_kbps < ceiling {
            target_kbps
        } else {
            ceiling
        };
        let wanted = EncoderConfig { width, height, bitrate_kbps };
        let keep = match self.encoder {
            Some(current) => !force_keyframe && current == wanted,
            None => false,
        };
        self.encoder = Some(wanted);
        if keep {
            None
        } else {
            Some(wanted)
        }
    }

    /// Presentation time of a frame in milliseconds since the first encoded one.
    pub fn presentation_ms(&mut self, timestamp_us: u64) -> (ms: i64)
        requires
            old(self).base_us matches Some(base) ==> base <= timestamp_us,
        ensures
            (*final(self), ms as int) == old(self).timed(timestamp_us),
            final(self).base_us == Some(
                match old(self).base_us {
                    Some(base) => base,
                    None => timestamp_us,
                },
            ),
            ms == (timestamp_us - final(self).base_us->0) / 1000,
            final(self).quality == old(self).quality,
            final(self).encoder == old(self).encoder,
            final(self).frames_seen == old(self).frames_seen,
    {
        let base = match self.base_us {
            Some(base) => base,
            None => timestamp_us,
        };
        self.base_us = Some(base);
        ((timestamp_us - base) / 1000) as i64
    }
}

/// The encoder never aims above the ceiling of the share's preset, nor above the
/// bandwidth controller's target.
pub proof fn law_encoder_stays_under_ceiling(
    pump: VideoPump,
    width: u32,
    height: u32,
    target_kbps: u32,
)
    ensures
        pump.wanted(width, height, target_kbps).bitrate_kbps <= target_kbps,
        pump.wanted(width, height, target_kbps).bitrate_kbps <= pump.quality.kbps_for(
            width,
            height,
        ),
{
    law_capture_bitrate_is_bounded(pump.quality, width, height);
}

/// A frame without row padding whose size the pump accepts is never refused by
/// the colour converter.
pub proof fn law_usable_frames_are_converted(len: nat, width: u32, height: u32)
    requires
        is_encodable(width, height),
        4 * width <= u32::MAX,
        4 * width * height <= usize::MAX,
        len >= 4 * width * height,
    ensures
        codec_outcome(len, width, height, (4 * width) as u32) == Ok::<(), CodecError>(()),
{
    assert(width * height * 4 == 4 * width * height) by (nonlinear_arith);
    law_whole_frames_are_converted(len, width, height, (4 * width) as u32);
}

/// A capture that is reduced comes out complete, and at a size that the pump
/// accepts.
pub proof fn law_reduced_captures_are_usable(raw: Seq<u8>, w: u32, h: u32, target_width: u32)
    ensures
        reduced_size(target_width as int, w as int, h as int) matches Some((tw, th)) ==> {
            &&& is_encodable(tw as u32, th as u32)
            &&& prepared_pixels(raw, w, h, target_width).len() == 4 * tw * th
        },
{
    if let Some((tw, th)) = reduced_size(target_width as int, w as int, h as int) {
        assert(0 <= 4 * tw * th) by (nonlinear_arith)
            requires
                0 <= tw,
                0 <= th,
        ;
    }
}

/// A frame of encoded video.
pub open spec fn video_view(data: Seq<u8>, keyframe: bool, timestamp_us: u64) -> FrameView {
    FrameView { stream: VIDEO_STREAM, keyframe, timestamp_us, data }
}

/// A frame of encoded audio.
pub open spec fn audio_view(data: Seq<u8>, timestamp_us: u64) -> FrameView {
    FrameView { stream: AUDIO_STREAM, keyframe: false, timestamp_us, data }
}

/// What an encoder produced is packed whole, under its own stream number and time.
/// Audio has no keyframes.
pub proof fn law_packets_hold_what_was_encoded(data: Seq<u8>, keyframe: bool, timestamp_us: u64)
    ensures
        video_view(data, keyframe, timestamp_us).stream == 0,
        video_view(data, keyframe, timestamp_us).keyframe == keyframe,
        video_view(data, keyframe, timestamp_us).timestamp_us == timestamp_us,
        video_view(data, keyframe, timestamp_us).data == data,
        audio_view(data, timestamp_us).stream == 1,
        !audio_view(data, timestamp_us).keyframe,
        audio_view(data, timestamp_us).timestamp_us == timestamp_us,
        audio_view(data, timestamp_us).data == data,
{
}

/// Packs what the video encoder produced for a frame.
pub fn video_packet(data: Vec<u8>, keyframe: bool, timestamp_us: u64) -> (f: EncodedFrame)
    ensures
        f@ == video_view(data@, keyframe, timestamp_us),
        f@ == (FrameView { stream: VIDEO_STREAM, keyframe, timestamp_us, data: data@ }),
{
    EncodedFrame { stream: VIDEO_STREAM, keyframe, timestamp_us, data }
}

/// Packs what the audio encoder produced: the first `len` bytes of its buffer.
pub fn audio_packet(out: &[u8], len: usize, timestamp_us: u64) -> (f: EncodedFrame)
    requires
        len <= out@.len(),
    ensures
        f@ == audio_view(out@.take(len as int), timestamp_us),
        f@ == (FrameView {
            stream: AUDIO_STREAM,
            keyframe: false,
            timestamp_us,
            data: out@.take(len as int),
        }),
{
    let mut data: Vec<u8> = Vec::new();
    data.extend_from_slice(&out[0..len]);
    assert(data@ =~= out@.take(len as int));
    EncodedFrame { stream: AUDIO_STREAM, keyframe: false, timestamp_us, data }
}

/// Samples in one chunk for the stereo encoder: 20 ms of both channels.
pub const CHUNK_SAMPLES: usize = 1920;

/// Every sample twice.
pub open spec fn doubled(samples: Seq<u32>) -> Seq<u32> {
    Seq::new(2 * samples.len(), |i: int| samples[i / 2])
}

/// Samples as the stereo encoder takes them: mono goes to both sides.
pub open spec fn as_stereo(samples: Seq<u32>, channels: u16) -> Seq<u32> {
    if channels == 1 {
        doubled(samples)
    } else {
        samples
    }
}

/// The first `n` whole chunks of a stream.
pub open spec fn chunks(stream: Seq<u32>, n: nat) -> Seq<Seq<u32>> {
    Seq::new(n, |k: int| stream.subrange(CHUNK_SAMPLES * k, CHUNK_SAMPLES * (k + 1)))
}

/// Contents of a list of chunks.
pub open spec fn chunk_views(list: Seq<Vec<u32>>) -> Seq<Seq<u32>> {
    Seq::new(list.len(), |k: int| list[k]@)
}

/// Cuts captured audio into chunks for the encoder.
pub struct AudioPump {
    pub sample_rate: u32,
    pub channels: u16,
    /// Samples that do not fill a chunk yet.
    pub buf: Vec<u32>,
    /// Whether the user has been told about a format the encoder does not like.
    pub warned: bool,
}

/// What to do about a captured audio frame.
pub struct AudioWork {
    /// Tell the user that the input is not 48 kHz stereo.
    pub warn: bool,
    /// Chunks to encode, in order.
    pub chunks: Vec<Vec<u32>>,
}

impl AudioPump {
    pub fn new(sample_rate: u32, channels: u16) -> (p: AudioPump)
        ensures
            p.sample_rate == sample_rate,
            p.channels == channels,
            p.buf@ == Seq::<u32>::empty(),
            !p.warned,
            p.wf(),
    {
        AudioPump { sample_rate, channels, buf: Vec::new(), warned: false }
    }

    /// What is left over is less than a chunk.
    pub open spec fn wf(self) -> bool {
        self.buf@.len() < CHUNK_SAMPLES
    }

    /// Whether the next captured frame is the time to tell the user.
    pub open spec fn warns(self) -> bool {
        !self.warned && (self.sample_rate != 48_000 || self.channels != 2)
    }

    /// The pump after a captured frame, and the work that comes out.
    pub open spec fn pushed(self, samples: Seq<u32>) -> (Seq<u32>, Seq<Seq<u32>>) {
        let stream = self.buf@ + as_stereo(samples, self.channels);
        let n = stream.len() / CHUNK_SAMPLES as nat;
        (stream.skip(CHUNK_SAMPLES * n), chunks(stream, n))
    }

    /// Takes the samples of one captured frame.
    pub fn push(&mut self, samples: &[u32]) -> (work: AudioWork)
        requires
            old(self).wf(),
        ensures
            final(self).wf(),
            (final(self).buf@, chunk_views(work.chunks@)) == old(self).pushed(samples@),
            work.warn == old(self).warns(),
            !final(self).warns(),
            final(self).sample_rate == old(self).sample_rate,
            final(self).channels == old(self).channels,
            work.warn == (!old(self).warned && (old(self).sample_rate != 48_000
                || old(self).channels != 2)),
            final(self).warned == (old(self).warned || work.warn),
            ({
                let stream = old(self).buf@ + as_stereo(samples@, old(self).channels);
                let n = stream.len() / CHUNK_SAMPLES as nat;
                &&& work.chunks@.len() == n
                &&& chunk_views(work.chunks@) == chunks(stream, n)
                &&& final(self).buf@ == stream.skip(CHUNK_SAMPLES * n)
            }),
    {
        let warn = !self.warned && (self.sample_rate != 48_000 || self.channels != 2);
        if warn {
            self.warned = true;
        }
        let ghost start = self.buf@;
        if self.channels == 1 {
            push_doubled(&mut self.buf, samples);
        } else {
            self.buf.extend_from_slice(samples);
            assert(self.buf@ =~= start + samples@);
        }
        let ghost stream = self.buf@;
        let mut work: Vec<Vec<u32>> = Vec::new();
        let ghost mut taken: nat = 0;
        assert(stream.skip(0) =~= stream);
        assert(chunk_views(work@) =~= chunks(stream, 0));
        while self.buf.len() >= CHUNK_SAMPLES
            invariant
                CHUNK_SAMPLES * taken <= stream.len(),
                self.buf@ == stream.skip(CHUNK_SAMPLES * taken),
                chunk_views(work@) == chunks(stream, taken),
                self.sample_rate == old(self).sample_rate,
                self.channels == old(self).channels,
                self.warned == (old(self).warned || warn),
            decreases self.buf@.len(),
        {
            let rest = self.buf.split_off(CHUNK_SAMPLES);
            let mut chunk: Vec<u32> = rest;
            std::mem::swap(&mut chunk, &mut self.buf);
            proof {
                assert(chunk@ =~= stream.subrange(
                    CHUNK_SAMPLES * taken as int,
                    CHUNK_SAMPLES * (taken + 1),
                ));
                assert(self.buf@ =~= stream.skip(CHUNK_SAMPLES * (taken + 1)));
            }
            let ghost before = work@;
            work.push(chunk);
            proof {
                assert(chunk_views(work@) =~= chunk_views(before).push(chunk@));
                assert(chunks(stream, taken + 1) =~= chunks(stream, taken).push(chunk@));
                taken = taken + 1;
            }
        }
        assert(taken == stream.len() / CHUNK_SAMPLES as nat);
        assert(work@.len() == chunk_views(work@).len());
        AudioWork { warn, chunks: work }
    }
}

fn push_doubled(out: &mut Vec<u32>, samples: &[u32])
    ensures
        final(out)@ == old(out)@ + doubled(samples@),
{
    let ghost before = out@;
    let mut i: usize = 0;
    assert(before + doubled(samples@).take(0) =~= before);
    while i < samples.len()
        invariant
            i <= samples@.len(),
            out@ == before + doubled(samples@).take(2 * i),
        decreases samples@.len() - i,
    {
        let s = samples[i];
        out.push(s);
        out.push(s);
        assert(out@ =~= before + doubled(samples@).take(2 * (i + 1)));
        i += 1;
    }
    assert(doubled(samples@).take(2 * i) =~= doubled(samples@));
}

/// No sample is lost, repeated or moved: sample `i` of the stream is in its
/// place in the chunks, or in what is kept for later.
pub proof fn law_chunks_keep_every_sample(stream: Seq<u32>, n: nat, i: int)
    requires
        CHUNK_SAMPLES * n <= stream.len(),
        0 <= i < stream.len(),
    ensures
        i < CHUNK_SAMPLES * n ==> chunks(stream, n)[i / CHUNK_SAMPLES as int][i
            % CHUNK_SAMPLES as int] == stream[i],
        i >= CHUNK_SAMPLES * n ==> stream.skip(CHUNK_SAMPLES * n)[i - CHUNK_SAMPLES * n]
            == stream[i],
{
}

/// How often the viewer's answer is asked for.
pub const ANSWER_POLLS: u32 = 60;

/// Pause between two polls, in seconds.
pub const ANSWER_POLL_SECS: u64 = 1;

/// Where a share stands.
#[derive(Clone, Copy, Debug, PartialEq, Eq, Structural)]
pub enum SenderPhase {
    /// The session is being created.
    Creating,
    /// The offer is being gathered.
    Offering,
    /// The offer is being posted.
    Posting,
    /// The answer is awaited; this many polls have been made.
    Polling { polls: u32 },
    /// Media is being started.
    Starting,
    /// WebRTC is connecting.
    Connecting,
    /// WebRTC is connected.
    Live,
    /// The relay is being announced.
    Announcing,
    /// Frames go through the relay.
    Relaying,
    /// The relay has ended; the pumps are running out.
    Draining,
    /// The share is over.
    Over,
}

/// Something that happened to a share.
pub enum SenderEvent {
    SessionCreated(CreateSessionResponse),
    /// The offer is complete: its session description, if there is one.
    OfferGathered(Option<String>),
    OfferPosted,
    /// A poll came back: the session description of the answer, if it is there.
    AnswerPolled(Option<String>),
    /// The pause between two polls is over.
    Paused,
    MediaStarted,
    Peer(PeerState),
    /// The time for connecting is up.
    ConnectTimeout,
    /// The relay was announced, while frames of this size are captured.
    FallbackPosted { width: u32, height: u32 },
    RelayEnded,
    /// Both pumps have ended.
    PumpsEnded,
}

/// Why a share failed.
#[derive(Clone, Copy, Debug, PartialEq, Eq, Structural)]
pub enum SenderFailure {
    NoLocalDescription,
    NeverAnswered,
}

impl SenderFailure {
    pub open spec fn message(self) -> Seq<char> {
        match self {
            SenderFailure::NoLocalDescription => "no local desc after gather"@,
            SenderFailure::NeverAnswered => "viewer never answered within 60s"@,
        }
    }

    pub fn to_string(&self) -> (r: String)
        ensures
            r@ == self.message(),
    {
        match self {
            SenderFailure::NoLocalDescription => "no local desc after gather".to_string(),
            SenderFailure::NeverAnswered => "viewer never answered within 60s".to_string(),
        }
    }
}

/// What to do for a share.
pub enum SenderAction {
    /// Nothing; wait for the next event.
    Wait,
    /// Tell the user how to reach the share, and gather the offer.
    Announce(ShareInfo),
    /// Post this offer.
    PostOffer(String),
    /// Ask for the answer.
    PollAnswer,
    /// Pause for this many seconds.
    Pause { secs: u64 },
    /// Accept this answer and start capture and encoders.
    StartMedia(String),
    /// Give WebRTC this many seconds to connect.
    AwaitConnection { secs: u64 },
    /// Announce the relay.
    PostFallback,
    /// Ask for a keyframe and run the relay up to this bitrate.
    RunRelay { max_bitrate_kbps: u32 },
    /// Let the pumps run out.
    Drain,
    /// The share is over.
    Finish,
    Fail(SenderFailure),
}

pub enum SenderActionView {
    Wait,
    Announce { viewer_url: Seq<char>, pin: Seq<char> },
    PostOffer(Seq<char>),
    PollAnswer,
    Pause { secs: int },
    StartMedia(Seq<char>),
    AwaitConnection { secs: int },
    PostFallback,
    RunRelay { max_bitrate_kbps: int },
    Drain,
    Finish,
    Fail(SenderFailure),
}

impl View for SenderAction {
    type V = SenderActionView;

    open spec fn view(&self) -> SenderActionView {
        match *self {
            SenderAction::Wait => SenderActionView::Wait,
            SenderAction::Announce(info) => SenderActionView::Announce {
                viewer_url: info.viewer_url@,
                pin: info.pin@,
            },
            SenderAction::PostOffer(sdp) => SenderActionView::PostOffer(sdp@),
            SenderAction::PollAnswer => SenderActionView::PollAnswer,
            SenderAction::Pause { secs } => SenderActionView::Pause { secs: secs as int },
            SenderAction::StartMedia(sdp) => SenderActionView::StartMedia(sdp@),
            SenderAction::AwaitConnection { secs } => SenderActionView::AwaitConnection {
                secs: secs as int,
            },
            SenderAction::PostFallback => SenderActionView::PostFallback,
            SenderAction::RunRelay { max_bitrate_kbps } => SenderActionView::RunRelay {
                max_bitrate_kbps: max_bitrate_kbps as int,
            },
            SenderAction::Drain => SenderActionView::Drain,
            SenderAction::Finish => SenderActionView::Finish,
            SenderAction::Fail(f) => SenderActionView::Fail(f),
        }
    }
}

/// Transition of a share. An event that does not fit the phase is passed over.
pub open spec fn sender_step(phase: SenderPhase, quality: Quality, event: SenderEvent) -> (
    SenderPhase,
    SenderActionView,
) {
    match (phase, event) {
        (SenderPhase::Creating, SenderEvent::SessionCreated(session)) => (
            SenderPhase::Offering,
            SenderActionView::Announce { viewer_url: session.viewer_url@, pin: session.pin@ },
        ),
        (SenderPhase::Offering, SenderEvent::OfferGathered(offer)) => match offer {
            Some(sdp) => (SenderPhase::Posting, SenderActionView::PostOffer(sdp@)),
            None => (
                SenderPhase::Over,
                SenderActionView::Fail(SenderFailure::NoLocalDescription),
            ),
        },
        (SenderPhase::Posting, SenderEvent::OfferPosted) => (
            SenderPhase::Polling { polls: 1 },
            SenderActionView::PollAnswer,
        ),
        (SenderPhase::Polling { polls }, SenderEvent::AnswerPolled(answer)) => match answer {
            Some(sdp) => (SenderPhase::Starting, SenderActionView::StartMedia(sdp@)),
            None => (phase, SenderActionView::Pause { secs: ANSWER_POLL_SECS as int }),
        },
        (SenderPhase::Polling { polls }, SenderEvent::Paused) => if polls < ANSWER_POLLS {
            (SenderPhase::Polling { polls: (polls + 1) as u32 }, SenderActionView::PollAnswer)
        } else {
            (SenderPhase::Over, SenderActionView::Fail(SenderFailure::NeverAnswered))
        },
        (SenderPhase::Starting, SenderEvent::MediaStarted) => (
            SenderPhase::Connecting,
            SenderActionView::AwaitConnection { secs: CONNECT_TIMEOUT_SECS as int },
        ),
        (SenderPhase::Connecting, SenderEvent::Peer(state)) => if state is Connected {
            (SenderPhase::Live, SenderActionView::Wait)
        } else if state.is_down() {
            (SenderPhase::Announcing, SenderActionView::PostFallback)
        } else {
            (phase, SenderActionView::Wait)
        },
        (SenderPhase::Connecting, SenderEvent::ConnectTimeout) => (
            SenderPhase::Announcing,
            SenderActionView::PostFallback,
        ),
        (SenderPhase::Live, SenderEvent::Peer(state)) => if state is Failed {
            (SenderPhase::Announcing, SenderActionView::PostFallback)
        } else {
            (phase, SenderActionView::Wait)
        },
        (SenderPhase::Announcing, SenderEvent::FallbackPosted { width, height }) => (
            SenderPhase::Relaying,
            SenderActionView::RunRelay { max_bitrate_kbps: quality.kbps_for(width, height) },
        ),
        (SenderPhase::Relaying, SenderEvent::RelayEnded) => (
            SenderPhase::Draining,
            SenderActionView::Drain,
        ),
        (SenderPhase::Live, SenderEvent::PumpsEnded)
        | (SenderPhase::Draining, SenderEvent::PumpsEnded) => (
            SenderPhase::Over,
            SenderActionView::Finish,
        ),
        _ => (phase, SenderActionView::Wait),
    }
}

/// The course of one share. The quality is fixed when it starts.
pub struct SenderSession {
    pub phase: SenderPhase,
    pub quality: Quality,
}

impl SenderSession {
    /// A share whose session is being created.
    pub fn new(quality: Quality) -> (s: SenderSession)
        ensures
            s.phase == SenderPhase::Creating,
            s.quality == quality,
    {
        SenderSession { phase: SenderPhase::Creating, quality }
    }

    /// Takes one event and says what to do next.
    pub fn step(&mut self, event: SenderEvent) -> (action: SenderAction)
        ensures
            (final(self).phase, action@) == sender_step(
                old(self).phase,
                old(self).quality,
                event,
            ),
            final(self).quality == old(self).quality,
    {
        match (self.phase, event) {
            (SenderPhase::Creating, SenderEvent::SessionCreated(session)) => {
                self.phase = SenderPhase::Offering;
                SenderAction::Announce(
                    ShareInfo { viewer_url: session.viewer_url, pin: session.pin },
                )
            },
            (SenderPhase::Offering, SenderEvent::OfferGathered(offer)) => match offer {
                Some(sdp) => {
                    self.phase = SenderPhase::Posting;
                    SenderAction::PostOffer(sdp)
                },
                None => {
                    self.phase = SenderPhase::Over;
                    SenderAction::Fail(SenderFailure::NoLocalDescription)
                },
            },
            (SenderPhase::Posting, SenderEvent::OfferPosted) => {
                self.phase = SenderPhase::Polling { polls: 1 };
                SenderAction::PollAnswer
            },
            (SenderPhase::Polling { polls }, SenderEvent::AnswerPolled(answer)) => match answer {
                Some(sdp) => {
                    self.phase = SenderPhase::Starting;
                    SenderAction::StartMedia(sdp)
                },
                None => SenderAction::Pause { secs: ANSWER_POLL_SECS },
            },
            (SenderPhase::Polling { polls }, SenderEvent::Paused) => {
                if polls < ANSWER_POLLS {
                    self.phase = SenderPhase::Polling { polls: polls + 1 };
                    SenderAction::PollAnswer
                } else {
                    self.phase = SenderPhase::Over;
                    SenderAction::Fail(SenderFailure::NeverAnswered)
                }
            },
            (SenderPhase::Starting, SenderEvent::MediaStarted) => {
                self.phase = SenderPhase::Connecting;
                SenderAction::AwaitConnection { secs: CONNECT_TIMEOUT_SECS }
            },
            (SenderPhase::Connecting, SenderEvent::Peer(state)) => {
                if state == PeerState::Connected {
                    self.phase = SenderPhase::Live;
                    SenderAction::Wait
                } else if state.down() {
                    self.phase = SenderPhase::Announcing;
                    SenderAction::PostFallback
                } else {
                    SenderAction::Wait
                }
            },
            (SenderPhase::Connecting, SenderEvent::ConnectTimeout) => {
                self.phase = SenderPhase::Announcing;
                SenderAction::PostFallback
            },
            (SenderPhase::Live, SenderEvent::Peer(state)) => {
                if state == PeerState::Failed {
                    self.phase = SenderPhase::Announcing;
                    SenderAction::PostFallback
                } else {
                    SenderAction::Wait
                }
            },
            (SenderPhase::Announcing, SenderEvent::FallbackPosted { width, height }) => {
                self.phase = SenderPhase::Relaying;
                SenderAction::RunRelay {
                    max_bitrate_kbps: self.quality.bitrate_kbps_for_capture(width, height),
                }
            },
            (SenderPhase::Relaying, SenderEvent::RelayEnded) => {
                self.phase = SenderPhase::Draining;
                SenderAction::Drain
            },
            (SenderPhase::Live, SenderEvent::PumpsEnded)
            | (SenderPhase::Draining, SenderEvent::PumpsEnded) => {
                self.phase = SenderPhase::Over;
                SenderAction::Finish
            },
            _ => SenderAction::Wait,
        }
    }
}

/// Phase after a sequence of events.
pub open spec fn sender_run(quality: Quality, events: Seq<SenderEvent>) -> SenderPhase
    decreases events.len(),
{
    if events.len() == 0 {
        SenderPhase::Creating
    } else {
        sender_step(sender_run(quality, events.drop_last()), quality, events.last()).0
    }
}

/// How often the answer was asked for in the course of these events.
pub open spec fn answer_polls(quality: Quality, events: Seq<SenderEvent>) -> nat
    decreases events.len(),
{
    if events.len() == 0 {
        0
    } else {
        let before = events.drop_last();
        answer_polls(quality, before) + if sender_step(
            sender_run(quality, before),
            quality,
            events.last(),
        ).1 is PollAnswer {
            1nat
        } else {
            0
        }
    }
}

/// Whether the answer may still be asked for.
pub open spec fn before_answer(phase: SenderPhase) -> bool {
    phase is Creating || phase is Offering || phase is Posting
}

proof fn lemma_polls_counted(quality: Quality, events: Seq<SenderEvent>)
    ensures
        before_answer(sender_run(quality, events)) ==> answer_polls(quality, events) == 0,
        sender_run(quality, events) matches SenderPhase::Polling { polls } ==> {
            &&& polls <= ANSWER_POLLS
            &&& answer_polls(quality, events) == polls
        },
        answer_polls(quality, events) <= ANSWER_POLLS,
    decreases events.len(),
{
    if events.len() > 0 {
        lemma_polls_counted(quality, events.drop_last());
    }
}

/// A share that starts to connect gives WebRTC four seconds, and waits on nothing
/// else.
pub proof fn law_sender_gives_four_seconds(
    phase: SenderPhase,
    quality: Quality,
    event: SenderEvent,
)
    ensures
        ({
            let (next, action) = sender_step(phase, quality, event);
            next is Connecting && phase !is Connecting <==> action
                == (SenderActionView::AwaitConnection { secs: 4 })
        }),
        sender_step(phase, quality, event).1 matches SenderActionView::AwaitConnection { secs }
            ==> secs == 4,
{
}

/// The answer is asked for at most [`ANSWER_POLLS`] times, whatever happens.
pub proof fn law_answer_polls_are_bounded(quality: Quality, events: Seq<SenderEvent>)
    ensures
        answer_polls(quality, events) <= ANSWER_POLLS,
{
    lemma_polls_counted(quality, events);
}

/// A share that fails for want of an answer has asked for it
/// [`ANSWER_POLLS`] times.
pub proof fn law_giving_up_takes_all_polls(
    quality: Quality,
    events: Seq<SenderEvent>,
    last: SenderEvent,
)
    requires
        sender_step(sender_run(quality, events), quality, last).1 == SenderActionView::Fail(
            SenderFailure::NeverAnswered,
        ),
    ensures
        answer_polls(quality, events) == ANSWER_POLLS,
{
    lemma_polls_counted(quality, events);
}

/// Nothing but a connection ends the connecting phase without the relay: every
/// way in which WebRTC can fail to connect, running out of time included, leads
/// to the relay being announced.
pub proof fn law_failed_connection_escalates(quality: Quality, event: SenderEvent)
    requires
        event is ConnectTimeout || (event matches SenderEvent::Peer(state) && state.is_down()),
    ensures
        sender_step(SenderPhase::Connecting, quality, event) == (
            SenderPhase::Announcing,
            SenderActionView::PostFallback,
        ),
{
}

/// A connection that fails in the middle of a share leads to the relay as well;
/// a connection that is merely interrupted does not.
pub proof fn law_failure_midstream_escalates(quality: Quality, state: PeerState)
    ensures
        (sender_step(SenderPhase::Live, quality, SenderEvent::Peer(state)).1 is PostFallback) == (
        state is Failed),
{
}

/// The relay only runs once viewers have been told about it, and never above
/// the ceiling of the quality that the share was started with.
pub proof fn law_relay_follows_announcement(
    phase: SenderPhase,
    quality: Quality,
    event: SenderEvent,
)
    requires
        sender_step(phase, quality, event).1 is RunRelay,
    ensures
        phase is Announcing,
        event matches SenderEvent::FallbackPosted { width, height } && sender_step(
            phase,
            quality,
            event,
        ).1 == (SenderActionView::RunRelay { max_bitrate_kbps: quality.kbps_for(width, height) }),
{
}

/// A share that is over stays over.
pub proof fn law_over_is_final(quality: Quality, event: SenderEvent)
    ensures
        sender_step(SenderPhase::Over, quality, event) == (
            SenderPhase::Over,
            SenderActionView::Wait,
        ),
{
}

/// A share makes its way from the session to the first request for an answer: each
/// step hands on what the one before it brought.
pub proof fn law_share_is_set_up_in_order(
    quality: Quality,
    session: CreateSessionResponse,
    sdp: String,
)
    ensures
        sender_step(SenderPhase::Creating, quality, SenderEvent::SessionCreated(session)) == (
            SenderPhase::Offering,
            SenderActionView::Announce { viewer_url: session.viewer_url@, pin: session.pin@ },
        ),
        sender_step(SenderPhase::Offering, quality, SenderEvent::OfferGathered(Some(sdp))) == (
            SenderPhase::Posting,
            SenderActionView::PostOffer(sdp@),
        ),
        sender_step(SenderPhase::Offering, quality, SenderEvent::OfferGathered(None)) == (
            SenderPhase::Over,
            SenderActionView::Fail(SenderFailure::NoLocalDescription),
        ),
        sender_step(SenderPhase::Posting, quality, SenderEvent::OfferPosted) == (
            SenderPhase::Polling { polls: 1 },
            SenderActionView::PollAnswer,
        ),
{
}

/// An answer is taken at whichever poll it is found.
pub proof fn law_answer_is_taken_at_any_poll(polls: u32, quality: Quality, sdp: String)
    ensures
        sender_step(
            SenderPhase::Polling { polls },
            quality,
            SenderEvent::AnswerPolled(Some(sdp)),
        ) == (SenderPhase::Starting, SenderActionView::StartMedia(sdp@)),
{
}

/// A poll that finds nothing is followed by a second's pause, and every pause by
/// another poll until there were sixty.
pub proof fn law_empty_poll_is_repeated(polls: u32, quality: Quality)
    ensures
        sender_step(SenderPhase::Polling { polls }, quality, SenderEvent::AnswerPolled(None)) == (
            SenderPhase::Polling { polls },
            SenderActionView::Pause { secs: 1 },
        ),
        polls < 60 ==> sender_step(SenderPhase::Polling { polls }, quality, SenderEvent::Paused)
            == (
            SenderPhase::Polling { polls: (polls + 1) as u32 },
            SenderActionView::PollAnswer,
        ),
        polls >= 60 ==> sender_step(SenderPhase::Polling { polls }, quality, SenderEvent::Paused)
            == (SenderPhase::Over, SenderActionView::Fail(SenderFailure::NeverAnswered)),
{
}

proof fn lemma_polling_found_nothing(quality: Quality, events: Seq<SenderEvent>, i: int)
    requires
        0 <= i < events.len(),
        sender_run(quality, events) is Polling,
    ensures
        !(sender_run(quality, events.take(i)) is Polling && events[i] matches
            SenderEvent::AnswerPolled(Some(_))),
    decreases events.len(),
{
    let before = events.drop_last();
    if i < before.len() {
        if sender_run(quality, before) is Polling {
            lemma_polling_found_nothing(quality, before, i);
            assert(before.take(i) =~= events.take(i));
        } else {
            lemma_nothing_polled_yet(quality, before, i);
            assert(before.take(i) =~= events.take(i));
        }
    } else {
        assert(events.take(i) =~= before);
    }
}

/// Before the first poll there was none.
proof fn lemma_nothing_polled_yet(quality: Quality, events: Seq<SenderEvent>, i: int)
    requires
        0 <= i <= events.len(),
        before_answer(sender_run(quality, events)),
    ensures
        sender_run(quality, events.take(i)) !is Polling,
    decreases events.len(),
{
    if i < events.len() {
        lemma_nothing_polled_yet(quality, events.drop_last(), i);
        assert(events.drop_last().take(i) =~= events.take(i));
    } else {
        assert(events.take(i) =~= events);
    }
}

/// A share only fails for want of an answer if no poll found one.
pub proof fn law_giving_up_means_no_answer(
    quality: Quality,
    events: Seq<SenderEvent>,
    last: SenderEvent,
    i: int,
)
    requires
        sender_step(sender_run(quality, events), quality, last).1 == SenderActionView::Fail(
            SenderFailure::NeverAnswered,
        ),
        0 <= i < events.len(),
        sender_run(quality, events.take(i)) is Polling,
    ensures
        !(events[i] matches SenderEvent::AnswerPolled(Some(_))),
{
    lemma_polling_found_nothing(quality, events, i);
}

/// Once media has started WebRTC has four seconds. A connection makes the share
/// live; each of the three ways to be down, or the end of the time, leads to the
/// relay; a connection still on its way changes nothing.
pub proof fn law_connecting_has_three_ends(quality: Quality)
    ensures
        sender_step(SenderPhase::Starting, quality, SenderEvent::MediaStarted) == (
            SenderPhase::Connecting,
            SenderActionView::AwaitConnection { secs: 4 },
        ),
        forall|state: PeerState|
            (#[trigger] sender_step(
                SenderPhase::Connecting,
                quality,
                SenderEvent::Peer(state),
            )) == match state {
                PeerState::Connected => (SenderPhase::Live, SenderActionView::Wait),
                PeerState::Failed | PeerState::Disconnected | PeerState::Closed => (
                    SenderPhase::Announcing,
                    SenderActionView::PostFallback,
                ),
                PeerState::New | PeerState::Connecting => (
                    SenderPhase::Connecting,
                    SenderActionView::Wait,
                ),
            },
        sender_step(SenderPhase::Connecting, quality, SenderEvent::ConnectTimeout) == (
            SenderPhase::Announcing,
            SenderActionView::PostFallback,
        ),
{
}

/// A live share goes on until its pumps end or its connection fails, and only the
/// failure takes it to the relay.
pub proof fn law_live_share_goes_on(quality: Quality, state: PeerState)
    ensures
        sender_step(SenderPhase::Live, quality, SenderEvent::Peer(state)) == if state
            == PeerState::Failed {
            (SenderPhase::Announcing, SenderActionView::PostFallback)
        } else {
            (SenderPhase::Live, SenderActionView::Wait)
        },
        sender_step(SenderPhase::Live, quality, SenderEvent::PumpsEnded) == (
            SenderPhase::Over,
            SenderActionView::Finish,
        ),
{
}

/// The relay runs once it is announced, with the preset's bitrate for the captured
/// size as its ceiling; when it ends the pumps run out, and then the share is over.
pub proof fn law_relay_runs_and_drains(quality: Quality, width: u32, height: u32)
    ensures
        sender_step(
            SenderPhase::Announcing,
            quality,
            SenderEvent::FallbackPosted { width, height },
        ) == (
            SenderPhase::Relaying,
            SenderActionView::RunRelay { max_bitrate_kbps: quality.kbps_for(width, height) },
        ),
        sender_step(SenderPhase::Relaying, quality, SenderEvent::RelayEnded) == (
            SenderPhase::Draining,
            SenderActionView::Drain,
        ),
        sender_step(SenderPhase::Draining, quality, SenderEvent::PumpsEnded) == (
            SenderPhase::Over,
            SenderActionView::Finish,
        ),
{
}

/// Events that a phase does not wait for change nothing.
pub proof fn law_untimely_events_are_passed_over(
    phase: SenderPhase,
    quality: Quality,
    event: SenderEvent,
)
    requires
        match phase {
            SenderPhase::Creating => event !is SessionCreated,
            SenderPhase::Offering => event !is OfferGathered,
            SenderPhase::Posting => event !is OfferPosted,
            SenderPhase::Polling { .. } => event !is AnswerPolled && event !is Paused,
            SenderPhase::Starting => event !is MediaStarted,
            SenderPhase::Connecting => event !is Peer && event !is ConnectTimeout,
            SenderPhase::Live => event !is Peer && event !is PumpsEnded,
            SenderPhase::Announcing => event !is FallbackPosted,
            SenderPhase::Relaying => event !is RelayEnded,
            SenderPhase::Draining => event !is PumpsEnded,
            SenderPhase::Over => true,
        },
    ensures
        sender_step(phase, quality, event) == (phase, SenderActionView::Wait),
{
}

/// The encoder takes even sizes of sixteen pixels and more both ways.
pub proof fn law_encodable_sizes(width: u32, height: u32)
    ensures
        is_encodable(width, height) <==> 16 <= width && 16 <= height && width % 2 == 0 && height % 2
            == 0,
{
}

/// The encoder gets the captured size and the lower of target and ceiling.
pub proof fn law_encoder_gets_the_lower_bitrate(
    pump: VideoPump,
    width: u32,
    height: u32,
    target_kbps: u32,
)
    ensures
        ({
            let config = pump.wanted(width, height, target_kbps);
            let ceiling = pump.quality.kbps_for(width, height);
            &&& config.width == width
            &&& config.height == height
            &&& target_kbps <= ceiling ==> config.bitrate_kbps == target_kbps
            &&& target_kbps >= ceiling ==> config.bitrate_kbps == ceiling
        }),
{
    law_capture_bitrate_is_bounded(pump.quality, width, height);
}

/// Looking at a frame counts it and touches nothing else. Of the unusable frames
/// the first four are logged, and every thirtieth.
pub proof fn law_frames_are_counted(pump: VideoPump)
    ensures
        pump.frames_seen < u64::MAX ==> pump.counted().frames_seen == pump.frames_seen + 1,
        pump.counted().quality == pump.quality,
        pump.counted().encoder == pump.encoder,
        pump.counted().base_us == pump.base_us,
        pump.frames_seen <= 4 ==> pump.logs_drop(),
        pump.frames_seen > 4 ==> (pump.logs_drop() <==> exists|k: int|
            #![trigger 30 * k]
            pump.frames_seen == 30 * k),
{
    if pump.frames_seen % 30 == 0 {
        let k = pump.frames_seen as int / 30;
        assert(pump.frames_seen == 30 * k);
    }
}

/// An encoder is started for the first frame, on demand, and whenever size or
/// bitrate change; asking again for what is in use starts none.
pub proof fn law_encoder_is_restarted_when_needed(
    pump: VideoPump,
    width: u32,
    height: u32,
    target_kbps: u32,
    force_keyframe: bool,
)
    ensures
        ({
            let (after, start) = pump.prepared(width, height, target_kbps, force_keyframe);
            let wanted = pump.wanted(width, height, target_kbps);
            let fits = pump.encoder matches Some(e) && e.width == width && e.height == height
                && e.bitrate_kbps == wanted.bitrate_kbps;
            &&& after.encoder == Some(wanted)
            &&& after.quality == pump.quality
            &&& after.base_us == pump.base_us
            &&& after.frames_seen == pump.frames_seen
            &&& start is None <==> fits && !force_keyframe
            &&& start is Some ==> start == Some(wanted)
            &&& after.prepared(width, height, target_kbps, false).1 is None
            &&& after.prepared(width, height, target_kbps, true).1 == Some(wanted)
        }),
{
}

/// The first encoded frame is at time zero, and a later one at the milliseconds
/// between the two, fractions cut off.
pub proof fn law_presentation_starts_at_first_frame(pump: VideoPump, first_us: u64, later_us: u64)
    requires
        pump.base_us is None,
        first_us <= later_us,
    ensures
        ({
            let (started, zero) = pump.timed(first_us);
            let (after, ms) = started.timed(later_us);
            &&& zero == 0
            &&& 1000 * ms <= later_us - first_us < 1000 * ms + 1000
            &&& started.base_us == Some(first_us)
            &&& after == started
            &&& started.quality == pump.quality
            &&& started.encoder == pump.encoder
            &&& started.frames_seen == pump.frames_seen
        }),
{
}

/// Mono goes to both sides; everything else is taken as stereo.
pub proof fn law_mono_goes_to_both_sides(samples: Seq<u32>, channels: u16, i: int)
    ensures
        channels == 1 ==> as_stereo(samples, channels).len() == 2 * samples.len(),
        channels == 1 && 0 <= i < samples.len() ==> as_stereo(samples, channels)[2 * i]
            == samples[i] && as_stereo(samples, channels)[2 * i + 1] == samples[i],
        channels != 1 ==> as_stereo(samples, channels) == samples,
{
}

/// Chunks are full, what is kept is less than a chunk, and the chunks with what is
/// kept are what was kept before with the new samples: nothing is lost, repeated or
/// moved.
pub proof fn law_chunks_and_rest_are_the_stream(pump: AudioPump, samples: Seq<u32>, i: int)
    requires
        pump.buf@.len() < 1920,
    ensures
        ({
            let (rest, work) = pump.pushed(samples);
            let stream = pump.buf@ + as_stereo(samples, pump.channels);
            &&& rest.len() < 1920
            &&& forall|k: int| 0 <= k < work.len() ==> (#[trigger] work[k]).len() == 1920
            &&& 1920 * work.len() + rest.len() == stream.len()
            &&& 0 <= i < stream.len() ==> stream[i] == if i < 1920 * work.len() {
                work[i / 1920][i % 1920]
            } else {
                rest[i - 1920 * work.len()]
            }
        }),
{
}

/// How samples are split over captured frames does not matter: the same chunks come
/// out of two frames as out of one that holds both.
pub proof fn law_frame_boundaries_do_not_matter(
    pump: AudioPump,
    next: AudioPump,
    first: Seq<u32>,
    second: Seq<u32>,
)
    requires
        next.channels == pump.channels,
        next.buf@ == pump.pushed(first).0,
    ensures
        pump.pushed(first + second).1 == pump.pushed(first).1 + next.pushed(second).1,
        pump.pushed(first + second).0 == next.pushed(second).0,
{
    let a = as_stereo(first, pump.channels);
    let b = as_stereo(second, pump.channels);
    assert(as_stereo(first + second, pump.channels) =~= a + b);
    let stream = pump.buf@ + a;
    let n = stream.len() / 1920;
    let rest = stream.skip(1920 * n as int);
    let whole = pump.buf@ + as_stereo(first + second, pump.channels);
    let tail = rest + b;
    let m = tail.len() / 1920;
    assert(whole =~= stream + b);
    assert(whole.skip(1920 * n as int) =~= tail);
    assert(whole.len() / 1920 == n + m);
    assert(pump.pushed(first + second).0 =~= tail.skip(1920 * m as int));
    let left = pump.pushed(first + second).1;
    let right = pump.pushed(first).1 + next.pushed(second).1;
    assert forall|k: int| 0 <= k < n + m implies left[k] == right[k] by {
        assert(left[k] =~= right[k]);
    }
    assert(left =~= right);
}

/// The user is told of input that is not stereo at 48 kHz, once.
pub proof fn law_odd_input_is_reported_once(pump: AudioPump)
    ensures
        pump.warned ==> !pump.warns(),
        !pump.warned ==> (pump.warns() <==> !(pump.sample_rate == 48_000 && pump.channels == 2)),
{
}

/// Video and audio are told apart by their stream numbers.
pub proof fn law_stream_numbers()
    ensures
        VIDEO_STREAM == 0,
        AUDIO_STREAM == 1,
{
}

/// The view of a frame or of an action holds what it holds.
pub proof fn law_views_of_sender(
    f: EncodedFrame,
    info: ShareInfo,
    sdp: String,
    secs: u64,
    kbps: u32,
    failure: SenderFailure,
)
    ensures
        f@.stream == f.stream && f@.keyframe == f.keyframe,
        f@.timestamp_us == f.timestamp_us && f@.data == f.data@,
        SenderAction::Wait@ == SenderActionView::Wait,
        SenderAction::Announce(info)@ == (SenderActionView::Announce {
            viewer_url: info.viewer_url@,
            pin: info.pin@,
        }),
        SenderAction::PostOffer(sdp)@ == SenderActionView::PostOffer(sdp@),
        SenderAction::PollAnswer@ == SenderActionView::PollAnswer,
        (SenderAction::Pause { secs })@ == (SenderActionView::Pause { secs: secs as int }),
        SenderAction::StartMedia(sdp)@ == SenderActionView::StartMedia(sdp@),
        (SenderAction::AwaitConnection { secs })@ == (SenderActionView::AwaitConnection {
            secs: secs as int,
        }),
        SenderAction::PostFallback@ == SenderActionView::PostFallback,
        (SenderAction::RunRelay { max_bitrate_kbps: kbps })@ == (SenderActionView::RunRelay {
            max_bitrate_kbps: kbps as int,
        }),
        SenderAction::Drain@ == SenderActionView::Drain,
        SenderAction::Finish@ == SenderActionView::Finish,
        SenderAction::Fail(failure)@ == SenderActionView::Fail(failure),
{
}

/// A chunk is twenty milliseconds of both channels at 48 kHz.
pub proof fn law_chunk_is_twenty_milliseconds()
    ensures
        1000 * CHUNK_SAMPLES == 20 * 2 * 48_000,
{
}

} // verus!
