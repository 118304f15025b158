//! Decisions of the two relay loops.
//!
//! The WebSocket lives outside this crate. The sending loop hands everything
//! that happens to [`RelaySender::step`] and carries out the action that comes
//! back; the viewing loop does the same with [`viewer_step`].

use crate::fallback::congestion::{
    empty_window, law_congestion_lowers_target, next_target, LinkWindow, BACKPRESSURE_LATENCY_MS,
    MIN_BITRATE_KBPS, NANOS_PER_MILLI,
};
use crate::fallback::{
    frame_to_bytes, law_roundtrip, parse_frame, parsed, wire_format, HEADER_LEN,
};
use crate::text;
use crate::webrtc_client::sender::{EncodedFrame, FrameView, VIDEO_STREAM};
use vstd::prelude::*;

verus! {

/// Any video frame this old is dropped, keyframes included: a late keyframe
/// costs the full bitrate spike and still commits the viewer to old content.
pub const FRAME_AGE_DROP_MS: u64 = 100;

/// First message on the relay: what the frames that follow hold.
pub struct RelayConfig {
    pub v: u32,
    pub codec: String,
    pub audio: AudioConfig,
}

pub struct AudioConfig {
    pub codec: String,
    pub rate: u32,
    pub channels: u16,
}

/// Configuration that a sender announces: VP8 video with stereo Opus audio at
/// 48 kHz.
pub fn relay_config() -> (c: RelayConfig)
    ensures
        c.v == 1,
        c.codec@ == "vp8"@,
        c.audio.codec@ == "opus"@,
        c.audio.rate == 48_000,
        c.audio.channels == 2,
{
    RelayConfig {
        v: 1,
        codec: "vp8".to_string(),
        audio: AudioConfig { codec: "opus".to_string(), rate: 48_000, channels: 2 },
    }
}

/// A control message of the relay room.
pub struct RelayCmd {
    pub v: Option<u32>,
    pub cmd: Option<String>,
}

/// Something that happened in the sending loop. Times are readings of one
/// monotonic clock, in nanoseconds.
pub enum RelayEvent {
    /// A text message: the command it holds, or `None` if it is not one.
    Control(Option<RelayCmd>),
    /// The server closed the connection.
    ServerClosed,
    /// Reading from the connection failed.
    ReadFailed,
    /// The connection has no more messages.
    StreamEnded,
    /// A message of any other kind.
    OtherMessage,
    /// The encoder produced a video frame.
    Video { frame: EncodedFrame, now_ns: u128 },
    /// Video frames were lost before they could be read.
    VideoLagged { missed: u64 },
    /// The encoder is gone.
    VideoClosed,
    /// The encoder produced an audio frame.
    Audio { frame: EncodedFrame },
    /// Audio frames were lost before they could be read.
    AudioLagged { missed: u64 },
    /// Audio has ended.
    AudioClosed,
    /// A send asked for by [`RelayAction::Send`] went through.
    Sent { bytes: u64, elapsed_ns: u128 },
    /// A send asked for by [`RelayAction::Send`] failed.
    SendFailed,
}

/// What the sending loop is to do.
pub enum RelayAction {
    Continue,
    /// Ask the encoder for a fresh keyframe.
    RequestKeyframe,
    /// Send a binary message and report back how it went.
    Send(Vec<u8>),
    /// Leave the loop.
    Stop,
}

#[verifier::ext_equal]
pub enum ActionView {
    Continue,
    RequestKeyframe,
    Send(Seq<u8>),
    Stop,
}

impl View for RelayAction {
    type V = ActionView;

    open spec fn view(&self) -> ActionView {
        match *self {
            RelayAction::Continue => ActionView::Continue,
            RelayAction::RequestKeyframe => ActionView::RequestKeyframe,
            RelayAction::Send(b) => ActionView::Send(b@),
            RelayAction::Stop => ActionView::Stop,
        }
    }
}

/// State of the sending loop.
#[derive(Clone, Copy)]
pub struct RelaySender {
    /// Whether a keyframe went through since video was last interrupted. A VP8
    /// delta frame cannot be decoded without one.
    pub seen_keyframe: bool,
    /// Whether audio is still expected. Audio is best-effort: its end never
    /// ends the relay.
    pub audio_open: bool,
    /// Clock reading and timestamp of the first video frame let through, which
    /// tie the encoder's timestamps to the clock.
    pub anchor: Option<(u128, u64)>,
    /// What the bandwidth controller will look at next.
    pub window: LinkWindow,
}

pub open spec fn initial_sender() -> RelaySender {
    RelaySender {
        seen_keyframe: false,
        audio_open: true,
        anchor: None,
        window: empty_window(),
    }
}

/// The anchor that a video frame is held against.
pub open spec fn anchor_for(anchor: Option<(u128, u64)>, now_ns: u128, timestamp_us: u64) -> (
    u128,
    u64,
) {
    match anchor {
        Some(a) => a,
        None => (now_ns, timestamp_us),
    }
}

/// Clock time at which a frame with this timestamp was taken. A timestamp
/// before the anchor's counts as the anchor's.
pub open spec fn capture_time_ns(anchor: (u128, u64), timestamp_us: u64) -> int {
    anchor.0 + 1000 * (if timestamp_us > anchor.1 {
        timestamp_us - anchor.1
    } else {
        0
    })
}

/// Whether a frame is too old to send.
pub open spec fn is_stale(anchor: (u128, u64), timestamp_us: u64, now_ns: u128) -> bool {
    now_ns - capture_time_ns(anchor, timestamp_us) >= FRAME_AGE_DROP_MS * NANOS_PER_MILLI
}

/// What a control message asks for.
pub open spec fn is_keyframe_request(cmd: Option<RelayCmd>) -> bool {
    cmd matches Some(c) && c.cmd matches Some(name) && name@ == "keyframe"@
}

/// What becomes of a video frame: held back until a keyframe has come, dropped with
/// a request for a new keyframe when stale, sent otherwise.
pub open spec fn video_step(s: RelaySender, f: FrameView, now_ns: u128) -> (RelaySender, ActionView) {
    if !s.seen_keyframe && !f.keyframe {
        (s, ActionView::Continue)
    } else {
        let anchor = anchor_for(s.anchor, now_ns, f.timestamp_us);
        if is_stale(anchor, f.timestamp_us, now_ns) {
            (
                RelaySender {
                    seen_keyframe: false,
                    anchor: Some(anchor),
                    window: s.window.after_drop(1),
                    ..s
                },
                ActionView::RequestKeyframe,
            )
        } else {
            (
                RelaySender { seen_keyframe: true, anchor: Some(anchor), ..s },
                ActionView::Send(wire_format(f)),
            )
        }
    }
}

/// Transition of the sending loop: the state after an event, and the action.
pub open spec fn relay_step(s: RelaySender, event: RelayEvent) -> (RelaySender, ActionView) {
    match event {
        RelayEvent::Control(cmd) => if is_keyframe_request(cmd) {
            (s, ActionView::RequestKeyframe)
        } else {
            (s, ActionView::Continue)
        },
        RelayEvent::ServerClosed
        | RelayEvent::ReadFailed
        | RelayEvent::StreamEnded
        | RelayEvent::VideoClosed
        | RelayEvent::SendFailed => (s, ActionView::Stop),
        RelayEvent::OtherMessage => (s, ActionView::Continue),
        RelayEvent::Video { frame, now_ns } => video_step(s, frame@, now_ns),
        RelayEvent::VideoLagged { missed } => (
            RelaySender {
                seen_keyframe: false,
                window: s.window.after_drop(
                    if missed > u32::MAX {
                        u32::MAX
                    } else {
                        missed as u32
                    },
                ),
                ..s
            },
            ActionView::RequestKeyframe,
        ),
        RelayEvent::Audio { frame } => if s.audio_open {
            (s, ActionView::Send(wire_format(frame@)))
        } else {
            (s, ActionView::Continue)
        },
        RelayEvent::AudioLagged { .. } => (s, ActionView::Continue),
        RelayEvent::AudioClosed => (RelaySender { audio_open: false, ..s }, ActionView::Continue),
        RelayEvent::Sent { bytes, elapsed_ns } => (
            RelaySender { window: s.window.after_send(bytes, elapsed_ns), ..s },
            ActionView::Continue,
        ),
    }
}

impl RelaySender {
    /// State at the start of the loop: no keyframe sent yet, audio expected.
    pub fn new() -> (s: RelaySender)
        ensures
            s == initial_sender(),
    {
        RelaySender {
            seen_keyframe: false,
            audio_open: true,
            anchor: None,
            window: LinkWindow::new(),
        }
    }

    /// Takes one event and says what to do about it.
    pub fn step(&mut self, event: &RelayEvent) -> (action: RelayAction)
        ensures
            (*final(self), action@) == relay_step(*old(self), *event),
    {
        match event {
            RelayEvent::Control(cmd) => {
                if keyframe_requested(cmd) {
                    RelayAction::RequestKeyframe
                } else {
                    RelayAction::Continue
                }
            },
            RelayEvent::ServerClosed
            | RelayEvent::ReadFailed
            | RelayEvent::StreamEnded
            | RelayEvent::VideoClosed
            | RelayEvent::SendFailed => RelayAction::Stop,
            RelayEvent::OtherMessage => RelayAction::Continue,
            RelayEvent::Video { frame, now_ns } => self.step_video(frame, *now_ns),
            RelayEvent::VideoLagged { missed } => {
                let lost: u32 = if *missed > 0xffff_ffff {
                    0xffff_ffff
                } else {
                    *missed as u32
                };
                self.window.record_drops(lost);
                self.seen_keyframe = false;
                RelayAction::RequestKeyframe
            },
            RelayEvent::Audio { frame } => {
                if self.audio_open {
                    RelayAction::Send(frame_to_bytes(frame))
                } else {
                    RelayAction::Continue
                }
            },
            RelayEvent::AudioLagged { .. } => RelayAction::Continue,
            RelayEvent::AudioClosed => {
                self.audio_open = false;
                RelayAction::Continue
            },
            RelayEvent::Sent { bytes, elapsed_ns } => {
                self.window.record_send(*bytes, *elapsed_ns);
                RelayAction::Continue
            },
        }
    }

    fn step_video(&mut self, frame: &EncodedFrame, now_ns: u128) -> (action: RelayAction)
        ensures
            (*final(self), action@) == video_step(*old(self), frame@, now_ns),
    {
        if !self.seen_keyframe && !frame.keyframe {
            return RelayAction::Continue;
        }
        let (anchor_ns, anchor_us) = match self.anchor {
            Some(a) => a,
            None => (now_ns, frame.timestamp_us),
        };
        self.anchor = Some((anchor_ns, anchor_us));
        let offset_ns: u128 = frame.timestamp_us.saturating_sub(anchor_us) as u128 * 1000;
        if now_ns >= anchor_ns && now_ns - anchor_ns >= offset_ns + FRAME_AGE_DROP_MS as u128
            * NANOS_PER_MILLI {
            self.window.record_drops(1);
            self.seen_keyframe = false;
            RelayAction::RequestKeyframe
        } else {
            self.seen_keyframe = true;
            RelayAction::Send(frame_to_bytes(frame))
        }
    }

    /// Hands the window to the bandwidth controller and starts an empty one.
    pub fn take_window(&mut self) -> (w: LinkWindow)
        ensures
            w == old(self).window,
            *final(self) == (RelaySender { window: empty_window(), ..*old(self) }),
    {
        self.window.take()
    }
}

/// Whether a control message asks for a keyframe. Everything else is ignored,
/// so that commands this version does not know do no harm.
pub fn keyframe_requested(cmd: &Option<RelayCmd>) -> (r: bool)
    ensures
        r == is_keyframe_request(*cmd),
{
    match cmd {
        Some(c) => match &c.cmd {
            Some(name) => text::same(name.as_str(), "keyframe"),
            None => false,
        },
        None => false,
    }
}

/// State after a sequence of events.
pub open spec fn relay_run(s: RelaySender, events: Seq<RelayEvent>) -> RelaySender
    decreases events.len(),
{
    if events.len() == 0 {
        s
    } else {
        relay_step(relay_run(s, events.drop_last()), events.last()).0
    }
}

/// Action taken on the event at `i` of a loop that starts with `events`.
pub open spec fn action_at(events: Seq<RelayEvent>, i: int) -> ActionView {
    relay_step(relay_run(initial_sender(), events.take(i)), events[i]).1
}

/// The event at `i` is a keyframe, and it was sent.
pub open spec fn keyframe_sent_at(events: Seq<RelayEvent>, i: int) -> bool {
    events[i] matches RelayEvent::Video { frame, .. } && frame.keyframe && action_at(
        events,
        i,
    ) is Send
}

/// Video was lost at the event at `i`: missed, or dropped for its age.
pub open spec fn video_lost_at(events: Seq<RelayEvent>, i: int) -> bool {
    events[i] is VideoLagged || (events[i] is Video && action_at(events, i) is RequestKeyframe)
}

/// A keyframe was sent before `n`, and no video was lost from then to `n`.
pub open spec fn decodable_at(events: Seq<RelayEvent>, n: int) -> bool {
    exists|j: int|
        {
            &&& 0 <= j < n
            &&& #[trigger] keyframe_sent_at(events, j)
            &&& forall|k: int| j < k < n ==> !#[trigger] video_lost_at(events, k)
        }
}

proof fn lemma_seen_means_decodable(events: Seq<RelayEvent>, n: int)
    requires
        0 <= n <= events.len(),
    ensures
        relay_run(initial_sender(), events.take(n)).seen_keyframe ==> decodable_at(events, n),
    decreases n,
{
    if n > 0 {
        let m = n - 1;
        lemma_seen_means_decodable(events, m);
        assert(events.take(n).drop_last() =~= events.take(m));
        assert(events.take(n).last() == events[m]);
        let before = relay_run(initial_sender(), events.take(m));
        let after = relay_run(initial_sender(), events.take(n));
        assert(after == relay_step(before, events[m]).0);
        if after.seen_keyframe {
            if keyframe_sent_at(events, m) {
                assert(forall|k: int| m < k < n ==> !video_lost_at(events, k));
            } else {
                assert(before.seen_keyframe);
                let j = choose|j: int|
                    {
                        &&& 0 <= j < m
                        &&& #[trigger] keyframe_sent_at(events, j)
                        &&& forall|k: int| j < k < m ==> !#[trigger] video_lost_at(events, k)
                    };
                assert(!video_lost_at(events, m));
                assert forall|k: int| j < k < n implies !#[trigger] video_lost_at(events, k) by {}
                assert(keyframe_sent_at(events, j));
            }
        }
    }
}

/// A delta frame is only sent when the viewer can decode it: a keyframe was sent
/// before it, and no video was lost in between.
pub proof fn law_delta_is_decodable(events: Seq<RelayEvent>, i: int)
    requires
        0 <= i < events.len(),
        events[i] matches RelayEvent::Video { frame, .. } && !frame.keyframe,
        action_at(events, i) is Send,
    ensures
        decodable_at(events, i),
{
    lemma_seen_means_decodable(events, i);
}

/// A sent keyframe opens the way for delta frames until video is lost.
proof fn lemma_decodable_means_seen(events: Seq<RelayEvent>, j: int, n: int)
    requires
        0 <= j < n <= events.len(),
        keyframe_sent_at(events, j),
        forall|k: int| j < k < n ==> !#[trigger] video_lost_at(events, k),
    ensures
        relay_run(initial_sender(), events.take(n)).seen_keyframe,
    decreases n,
{
    let m = n - 1;
    assert(events.take(n).drop_last() =~= events.take(m));
    assert(events.take(n).last() == events[m]);
    if j < m {
        lemma_decodable_means_seen(events, j, m);
        assert(!video_lost_at(events, m));
    }
}

/// Nothing is held back without a reason: a video frame is sent, whole, exactly
/// when the viewer can decode it and it is fresh. It can be decoded if it is a
/// keyframe, or if one was sent before it and no video was lost in between.
pub proof fn law_decodable_fresh_video_is_sent(
    events: Seq<RelayEvent>,
    i: int,
    frame: EncodedFrame,
    now_ns: u128,
)
    requires
        0 <= i < events.len(),
        events[i] == (RelayEvent::Video { frame, now_ns }),
    ensures
        ({
            let anchor = anchor_for(
                relay_run(initial_sender(), events.take(i)).anchor,
                now_ns,
                frame.timestamp_us,
            );
            let sent = (frame.keyframe || decodable_at(events, i)) && !is_stale(
                anchor,
                frame.timestamp_us,
                now_ns,
            );
            &&& sent ==> action_at(events, i) == ActionView::Send(wire_format(frame@))
            &&& !sent ==> action_at(events, i) !is Send
        }),
{
    lemma_seen_means_decodable(events, i);
    if decodable_at(events, i) {
        let j = choose|j: int|
            {
                &&& 0 <= j < i
                &&& #[trigger] keyframe_sent_at(events, j)
                &&& forall|k: int| j < k < i ==> !#[trigger] video_lost_at(events, k)
            };
        lemma_decodable_means_seen(events, j, i);
    }
}

/// What the loop does never depends on the window of the bandwidth controller:
/// with another window in its place, an event has the same action and leaves the
/// rest of the state the same.
pub proof fn law_window_decides_nothing(s: RelaySender, window: LinkWindow, event: RelayEvent)
    ensures
        ({
            let (plain, action) = relay_step(s, event);
            let (other, same_action) = relay_step(RelaySender { window, ..s }, event);
            &&& same_action == action
            &&& other.seen_keyframe == plain.seen_keyframe
            &&& other.audio_open == plain.audio_open
            &&& other.anchor == plain.anchor
        }),
{
}

/// State after a sequence of events in a loop whose window was `windows[i]` when
/// event `i` came, such as one that takes the window now and then.
pub open spec fn relay_run_with(
    s: RelaySender,
    events: Seq<RelayEvent>,
    windows: Seq<LinkWindow>,
) -> RelaySender
    decreases events.len(),
{
    if events.len() == 0 {
        s
    } else {
        let before = relay_run_with(s, events.drop_last(), windows);
        relay_step(RelaySender { window: windows[events.len() - 1], ..before }, events.last()).0
    }
}

/// Taking the window between events changes nothing about a run: the state apart
/// from the window, and so every action, is that of the same events without it.
pub proof fn law_taking_window_keeps_course(
    s: RelaySender,
    events: Seq<RelayEvent>,
    windows: Seq<LinkWindow>,
    window: LinkWindow,
    next: RelayEvent,
)
    ensures
        ({
            let plain = relay_run(s, events);
            let other = relay_run_with(s, events, windows);
            &&& other.seen_keyframe == plain.seen_keyframe
            &&& other.audio_open == plain.audio_open
            &&& other.anchor == plain.anchor
            &&& relay_step(RelaySender { window, ..other }, next).1 == relay_step(plain, next).1
        }),
    decreases events.len(),
{
    if events.len() > 0 {
        let before = events.drop_last();
        let last = windows[events.len() - 1];
        law_taking_window_keeps_course(s, before, windows, last, events.last());
        law_window_decides_nothing(relay_run(s, before), last, events.last());
    }
    law_window_decides_nothing(relay_run(s, events), window, next);
}

/// Every loss of video asks the encoder for a fresh keyframe and holds delta
/// frames back until one has come.
pub proof fn law_loss_requests_keyframe(s: RelaySender, event: RelayEvent)
    requires
        event is VideoLagged || (event matches RelayEvent::Video { frame, now_ns } && (
        s.seen_keyframe || frame.keyframe) && is_stale(
            anchor_for(s.anchor, now_ns, frame.timestamp_us),
            frame.timestamp_us,
            now_ns,
        )),
    ensures
        relay_step(s, event).1 == ActionView::RequestKeyframe,
        !relay_step(s, event).0.seen_keyframe,
        forall|next: EncodedFrame, t: u128|
            !next.keyframe ==> (#[trigger] relay_step(
                relay_step(s, event).0,
                RelayEvent::Video { frame: next, now_ns: t },
            )).1 == ActionView::Continue,
{
}

/// No video frame that has reached the age limit is sent, keyframe or not.
pub proof fn law_stale_video_is_not_sent(s: RelaySender, frame: EncodedFrame, now_ns: u128)
    requires
        is_stale(anchor_for(s.anchor, now_ns, frame.timestamp_us), frame.timestamp_us, now_ns),
    ensures
        relay_step(s, RelayEvent::Video { frame, now_ns }).1 !is Send,
{
}

/// What happens to audio neither ends the relay nor touches video.
pub proof fn law_audio_never_stops_relay(s: RelaySender, event: RelayEvent)
    requires
        event is Audio || event is AudioLagged || event is AudioClosed,
    ensures
        relay_step(s, event).1 !is Stop,
        relay_step(s, event).0.seen_keyframe == s.seen_keyframe,
        relay_step(s, event).0.anchor == s.anchor,
{
}

/// Once stamped, the anchor stays.
pub proof fn law_anchor_is_stamped_once(s: RelaySender, event: RelayEvent)
    requires
        s.anchor is Some,
    ensures
        relay_step(s, event).0.anchor == s.anchor,
{
}

/// The first keyframe is always sent: it is its own anchor, so its age is zero.
pub proof fn law_first_keyframe_is_sent(s: RelaySender, frame: EncodedFrame, now_ns: u128)
    requires
        s.anchor is None,
        frame.keyframe,
    ensures
        relay_step(s, RelayEvent::Video { frame, now_ns }).1 == ActionView::Send(
            wire_format(frame@),
        ),
        relay_step(s, RelayEvent::Video { frame, now_ns }).0.seen_keyframe,
{
}

/// While frames are being sent, their age is known: the anchor has been stamped.
pub proof fn law_sending_is_anchored(events: Seq<RelayEvent>)
    ensures
        relay_run(initial_sender(), events).seen_keyframe ==> relay_run(
            initial_sender(),
            events,
        ).anchor is Some,
    decreases events.len(),
{
    if events.len() > 0 {
        law_sending_is_anchored(events.drop_last());
    }
}

/// Frames that an event counts as lost.
pub open spec fn frames_lost(s: RelaySender, event: RelayEvent) -> int {
    match event {
        RelayEvent::VideoLagged { missed } => if missed > u32::MAX {
            u32::MAX as int
        } else {
            missed as int
        },
        RelayEvent::Video { frame, now_ns } => if relay_step(s, event).1 is RequestKeyframe {
            1
        } else {
            0
        },
        _ => 0,
    }
}

/// Every loss of video reaches the bandwidth controller: as long as the counter
/// of the window has not run over, the next step lowers every target above the
/// floor.
pub proof fn law_loss_lowers_bitrate(
    s: RelaySender,
    event: RelayEvent,
    current: nat,
    max: nat,
    quiet_ns: int,
)
    requires
        frames_lost(s, event) > 0,
        s.window.drops + frames_lost(s, event) <= u32::MAX,
        current > MIN_BITRATE_KBPS,
    ensures
        next_target(relay_step(s, event).0.window, current, max, quiet_ns) < current,
{
    law_congestion_lowers_target(relay_step(s, event).0.window, current, max, quiet_ns);
}

/// Every send that blocked reaches the bandwidth controller: the next step lowers
/// every target above the floor.
pub proof fn law_slow_send_lowers_bitrate(
    s: RelaySender,
    bytes: u64,
    elapsed_ns: u128,
    current: nat,
    max: nat,
    quiet_ns: int,
)
    requires
        elapsed_ns >= BACKPRESSURE_LATENCY_MS * NANOS_PER_MILLI,
        current > MIN_BITRATE_KBPS,
    ensures
        next_target(
            relay_step(s, RelayEvent::Sent { bytes, elapsed_ns }).0.window,
            current,
            max,
            quiet_ns,
        ) < current,
{
    let after = relay_step(s, RelayEvent::Sent { bytes, elapsed_ns }).0;
    law_congestion_lowers_target(after.window, current, max, quiet_ns);
}

/// A congestion signal is kept until the controller has seen it: nothing but
/// taking the window clears it, unless the counter of lost frames runs over.
pub proof fn law_congestion_is_kept(s: RelaySender, event: RelayEvent)
    requires
        s.window.unhealthy(),
        s.window.drops + frames_lost(s, event) <= u32::MAX,
    ensures
        relay_step(s, event).0.window.unhealthy(),
{
}

/// A message on the viewing side.
pub enum ViewerMessage {
    Binary(Vec<u8>),
    Text,
    Close,
    Other,
}

/// What the viewing loop is to do.
pub enum ViewerAction {
    Continue,
    /// Decode a VP8 payload and show it.
    Decode { data: Vec<u8>, keyframe: bool },
    Stop,
}

#[verifier::ext_equal]
pub enum ViewerActionView {
    Continue,
    Decode { data: Seq<u8>, keyframe: bool },
    Stop,
}

impl View for ViewerAction {
    type V = ViewerActionView;

    open spec fn view(&self) -> ViewerActionView {
        match *self {
            ViewerAction::Continue => ViewerActionView::Continue,
            ViewerAction::Decode { data, keyframe } => ViewerActionView::Decode {
                data: data@,
                keyframe,
            },
            ViewerAction::Stop => ViewerActionView::Stop,
        }
    }
}

/// What a message of the viewing side leads to.
pub open spec fn viewer_reaction(message: ViewerMessage) -> ViewerActionView {
    match message {
        ViewerMessage::Binary(b) => if b@.len() >= HEADER_LEN && b@[0] == VIDEO_STREAM {
            ViewerActionView::Decode { data: parsed(b@).data, keyframe: parsed(b@).keyframe }
        } else {
            ViewerActionView::Continue
        },
        ViewerMessage::Close => ViewerActionView::Stop,
        _ => ViewerActionView::Continue,
    }
}

/// Takes one message of the viewing side. Video is decoded; audio, text and
/// everything that is not a frame is ignored; a close ends the loop.
pub fn viewer_step(message: &ViewerMessage) -> (action: ViewerAction)
    ensures
        action@ == viewer_reaction(*message),
        action is Stop <==> message is Close,
        action is Decode <==> (message matches ViewerMessage::Binary(b) && b@.len() >= HEADER_LEN
            && b@[0] == VIDEO_STREAM),
        message matches ViewerMessage::Binary(b) ==> (action matches ViewerAction::Decode {
            data,
            keyframe,
        } ==> data@ == parsed(b@).data && keyframe == parsed(b@).keyframe),
{
    match message {
        ViewerMessage::Binary(b) => match parse_frame(b.as_slice()) {
            Some(f) => if f.stream == VIDEO_STREAM {
                ViewerAction::Decode { data: f.data, keyframe: f.keyframe }
            } else {
                ViewerAction::Continue
            },
            None => ViewerAction::Continue,
        },
        ViewerMessage::Close => ViewerAction::Stop,
        ViewerMessage::Text | ViewerMessage::Other => ViewerAction::Continue,
    }
}

/// The viewer decodes exactly the payload that the sender put into a video
/// frame.
pub proof fn law_viewer_sees_sent_payload(f: FrameView)
    ensures
        wire_format(f).len() >= HEADER_LEN,
        wire_format(f)[0] == f.stream,
        parsed(wire_format(f)).data == f.data,
        parsed(wire_format(f)).keyframe == f.keyframe,
{
    law_roundtrip(f);
}

/// A request for a keyframe is answered in every state of the loop, whether video
/// is flowing or not, and nothing else in a control message has any effect.
pub proof fn law_keyframe_request_is_always_answered(s: RelaySender, message: Option<RelayCmd>)
    ensures
        (message matches Some(c) && c.cmd matches Some(name) && name@ == "keyframe"@)
            ==> relay_step(s, RelayEvent::Control(message)) == (s, ActionView::RequestKeyframe),
        !(message matches Some(c) && c.cmd matches Some(name) && name@ == "keyframe"@)
            ==> relay_step(s, RelayEvent::Control(message)) == (s, ActionView::Continue),
{
}

/// The relay starts with nothing sent, audio expected and nothing counted.
pub proof fn law_relay_starts_blank()
    ensures
        !initial_sender().seen_keyframe,
        initial_sender().audio_open,
        initial_sender().anchor is None,
        initial_sender().window.bytes == 0,
        initial_sender().window.drops == 0,
        !initial_sender().window.backpressure,
{
}

/// The age of a video frame decides, and nothing else once it can be decoded. The
/// first frame let through ties timestamps to the clock; from then on a frame
/// whose timestamp lies `t` microseconds after that frame's goes out less than
/// 100 ms after its own time, and is dropped, with a keyframe asked for, from then
/// on.
pub proof fn law_video_goes_by_age(s: RelaySender, frame: EncodedFrame, now_ns: u128)
    requires
        s.seen_keyframe || frame.keyframe,
    ensures
        ({
            let (after, action) = relay_step(s, RelayEvent::Video { frame, now_ns });
            let (start_ns, start_us) = match s.anchor {
                Some(a) => (a.0 as int, a.1 as int),
                None => (now_ns as int, frame.timestamp_us as int),
            };
            let t = if frame.timestamp_us > start_us {
                frame.timestamp_us - start_us
            } else {
                0
            };
            let fresh = now_ns < start_ns + 1000 * t + 100_000_000;
            &&& after.audio_open == s.audio_open
            &&& after.anchor matches Some(a) && a.0 == start_ns && a.1 == start_us
            &&& after.window.bytes == s.window.bytes
            &&& after.window.backpressure == s.window.backpressure
            &&& fresh ==> {
                &&& action == ActionView::Send(wire_format(frame@))
                &&& after.seen_keyframe
                &&& after.window.drops == s.window.drops
            }
            &&& !fresh ==> {
                &&& action == ActionView::RequestKeyframe
                &&& !after.seen_keyframe
                &&& after.window == s.window.after_drop(1)
                &&& s.window.drops < u32::MAX ==> after.window.drops == s.window.drops + 1
            }
        }),
{
}

/// A delta frame that cannot be decoded is passed over without a trace.
pub proof fn law_undecodable_delta_is_passed_over(
    s: RelaySender,
    frame: EncodedFrame,
    now_ns: u128,
)
    requires
        !s.seen_keyframe,
        !frame.keyframe,
    ensures
        relay_step(s, RelayEvent::Video { frame, now_ns }) == (s, ActionView::Continue),
{
}

/// Video lost on the way counts frame by frame, closes the way for delta frames
/// and asks for a keyframe.
pub proof fn law_lag_is_counted(s: RelaySender, missed: u64)
    ensures
        ({
            let (after, action) = relay_step(s, RelayEvent::VideoLagged { missed });
            &&& action == ActionView::RequestKeyframe
            &&& !after.seen_keyframe
            &&& after.audio_open == s.audio_open
            &&& after.anchor == s.anchor
            &&& after.window.bytes == s.window.bytes
            &&& after.window.backpressure == s.window.backpressure
            &&& s.window.drops + missed <= u32::MAX ==> after.window.drops == s.window.drops
                + missed
            &&& missed <= u32::MAX ==> after.window == s.window.after_drop(missed as u32)
            &&& missed > u32::MAX ==> after.window == s.window.after_drop(u32::MAX)
        }),
{
}

/// Audio is sent as it comes until it ends. Then nothing more is, and nothing that
/// happens brings it back.
pub proof fn law_audio_is_forwarded(s: RelaySender, frame: EncodedFrame, missed: u64)
    ensures
        s.audio_open ==> relay_step(s, RelayEvent::Audio { frame }) == (
            s,
            ActionView::Send(wire_format(frame@)),
        ),
        !s.audio_open ==> relay_step(s, RelayEvent::Audio { frame }) == (s, ActionView::Continue),
        relay_step(s, RelayEvent::AudioLagged { missed }) == (s, ActionView::Continue),
        relay_step(s, RelayEvent::AudioClosed).1 == ActionView::Continue,
        !relay_step(s, RelayEvent::AudioClosed).0.audio_open,
        relay_step(s, RelayEvent::AudioClosed).0.seen_keyframe == s.seen_keyframe,
        relay_step(s, RelayEvent::AudioClosed).0.anchor == s.anchor,
        relay_step(s, RelayEvent::AudioClosed).0.window == s.window,
        forall|event: RelayEvent|
            (#[trigger] relay_step(s, event)).0.audio_open == (s.audio_open && event
                !is AudioClosed),
{
}

/// Every send is accounted for: its bytes, and whether it took 100 ms or more.
pub proof fn law_send_is_counted(s: RelaySender, bytes: u64, elapsed_ns: u128)
    ensures
        ({
            let (after, action) = relay_step(s, RelayEvent::Sent { bytes, elapsed_ns });
            &&& action == ActionView::Continue
            &&& after.seen_keyframe == s.seen_keyframe
            &&& after.audio_open == s.audio_open
            &&& after.anchor == s.anchor
            &&& after.window.drops == s.window.drops
            &&& s.window.bytes + bytes <= u64::MAX ==> after.window.bytes == s.window.bytes + bytes
            &&& after.window.backpressure <==> s.window.backpressure || elapsed_ns >= 100_000_000
        }),
{
}

/// The loop ends exactly when the connection or the encoder is gone, and leaves
/// the state as it was.
pub proof fn law_relay_ends_with_connection_or_encoder(s: RelaySender, event: RelayEvent)
    ensures
        ({
            let gone = event is ServerClosed || event is ReadFailed || event is StreamEnded || event
                is VideoClosed || event is SendFailed;
            &&& relay_step(s, event).1 is Stop <==> gone
            &&& gone || event is OtherMessage ==> relay_step(s, event).0 == s
            &&& event is OtherMessage ==> relay_step(s, event).1 is Continue
        }),
{
}

/// Bytes go out for two reasons only: a video frame or an audio frame that came
/// in, and then they are that very frame on the wire.
pub proof fn law_only_frames_are_sent(s: RelaySender, event: RelayEvent, bytes: Seq<u8>)
    requires
        relay_step(s, event).1 == ActionView::Send(bytes),
    ensures
        match event {
            RelayEvent::Video { frame, .. } => parsed(bytes) == frame@,
            RelayEvent::Audio { frame } => parsed(bytes) == frame@,
            _ => false,
        },
        bytes.len() >= 10,
{
    match event {
        RelayEvent::Video { frame, .. } => {
            law_roundtrip(frame@);
        },
        RelayEvent::Audio { frame } => {
            law_roundtrip(frame@);
        },
        _ => {},
    }
}

/// Whatever video frame is sent, the viewer decodes its payload, all of it, and is
/// told whether it is a keyframe; whatever audio frame is sent, the viewer passes
/// it over.
pub proof fn law_viewer_decodes_video_only(f: FrameView, b: Vec<u8>)
    requires
        b@ == wire_format(f),
    ensures
        f.stream == 0 ==> viewer_reaction(ViewerMessage::Binary(b)) == (ViewerActionView::Decode {
            data: f.data,
            keyframe: f.keyframe,
        }),
        f.stream != 0 ==> viewer_reaction(ViewerMessage::Binary(b)) == ViewerActionView::Continue,
{
    law_roundtrip(f);
}

/// Nothing but a close ends the viewing loop, and nothing but a message of ten
/// bytes or more whose first byte is zero is decoded: what follows the ten bytes.
pub proof fn law_viewer_loop(message: ViewerMessage)
    ensures
        viewer_reaction(message) is Stop <==> message is Close,
        match message {
            ViewerMessage::Binary(b) => if b@.len() >= 10 && b@[0] == 0 {
                viewer_reaction(message) == (ViewerActionView::Decode {
                    data: b@.subrange(10, b@.len() as int),
                    keyframe: b@[1] % 2 == 1,
                })
            } else {
                viewer_reaction(message) is Continue
            },
            _ => viewer_reaction(message) !is Decode,
        },
{
    if let ViewerMessage::Binary(b) = message {
        assert(b@.skip(10) =~= b@.subrange(10, b@.len() as int));
    }
}

/// The view of an action holds what the action holds.
pub proof fn law_views_of_relay_actions(bytes: Vec<u8>, keyframe: bool)
    ensures
        RelayAction::Continue@ == ActionView::Continue,
        RelayAction::RequestKeyframe@ == ActionView::RequestKeyframe,
        RelayAction::Send(bytes)@ == ActionView::Send(bytes@),
        RelayAction::Stop@ == ActionView::Stop,
        ViewerAction::Continue@ == ViewerActionView::Continue,
        (ViewerAction::Decode { data: bytes, keyframe })@ == (ViewerActionView::Decode {
            data: bytes@,
            keyframe,
        }),
        ViewerAction::Stop@ == ViewerActionView::Stop,
{
}

} // verus!
