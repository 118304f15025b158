//! Viewing side of a share.
//!
//! [`ViewerSession`] decides the course of a native viewing session. The caller
//! does what talks to the network and reports back what came of it.

use crate::text;
use crate::text::{is_digit, same_ignoring_ascii_case, uppercase};
use crate::webrtc_client::{PeerState, CONNECT_TIMEOUT_SECS};
use vstd::prelude::*;

verus! {

/// A PIN is exactly six ASCII digits.
pub open spec fn is_pin(s: Seq<char>) -> bool {
    s.len() == 6 && forall|i: int| 0 <= i < s.len() ==> is_digit(#[trigger] s[i])
}

/// Whether a text is a PIN.
pub fn valid_pin(pin: &str) -> (r: bool)
    ensures
        r == is_pin(pin@),
{
    text::all_digits(pin) && pin.unicode_len() == 6
}

/// Whether a remote track holds VP8 video, which is all that the native viewer
/// shows.
pub fn is_vp8_track(mime: &str) -> (r: bool)
    ensures
        r == same_ignoring_ascii_case(mime@, "video/vp8"@),
{
    text::eq_ignore_ascii_case(mime, "video/vp8")
}

/// How often the sender's offer is asked for.
pub const OFFER_POLLS: u32 = 60;

/// Pause between two polls for the offer, in seconds.
pub const OFFER_POLL_SECS: u64 = 1;

/// How often the relay is asked for.
pub const FALLBACK_POLLS: u32 = 30;

/// Pause between two polls for the relay, in seconds.
pub const FALLBACK_POLL_SECS: u64 = 2;

/// Where a viewing session stands.
#[derive(Clone, Copy, Debug, PartialEq, Eq, Structural)]
pub enum ViewerPhase {
    /// The offer is awaited; this many polls have been made. The sender may
    /// still be gathering it.
    PollingOffer { polls: u32 },
    /// The answer is being gathered.
    Answering,
    /// The answer is being posted.
    Posting,
    /// WebRTC is connecting.
    Connecting,
    /// WebRTC is connected.
    Live,
    /// The relay is awaited; this many polls have been made.
    PollingFallback { polls: u32 },
    /// Frames come through the relay.
    Relaying,
    /// The session is over.
    Over,
}

/// Something that happened to a viewing session.
pub enum ViewerEvent {
    /// A poll came back: the session description of the offer, if it is there.
    OfferPolled(Option<String>),
    /// The answer is complete: its session description, if there is one.
    AnswerGathered(Option<String>),
    AnswerPosted,
    Peer(PeerState),
    /// The time for connecting is up.
    ConnectTimeout,
    /// A poll came back: whether the relay was announced. A poll that failed
    /// counts as no.
    FallbackPolled(bool),
    /// The pause between two polls is over.
    Paused,
    RelayEnded,
}

/// Why a viewing session failed.
#[derive(Clone, Copy, Debug, PartialEq, Eq, Structural)]
pub enum ViewerFailure {
    MalformedPin,
    NoOffer,
    NoLocalDescription,
    NoFallback,
}

impl ViewerFailure {
    pub open spec fn message(self) -> Seq<char> {
        match self {
            ViewerFailure::MalformedPin => "PIN must be exactly 6 digits"@,
            ViewerFailure::NoOffer => "offer never appeared"@,
            ViewerFailure::NoLocalDescription => "no local desc"@,
            ViewerFailure::NoFallback => "no fallback became available"@,
        }
    }

    pub fn to_string(&self) -> (r: String)
        ensures
            r@ == self.message(),
    {
        match self {
            ViewerFailure::MalformedPin => "PIN must be exactly 6 digits".to_string(),
            ViewerFailure::NoOffer => "offer never appeared".to_string(),
            ViewerFailure::NoLocalDescription => "no local desc".to_string(),
            ViewerFailure::NoFallback => "no fallback became available".to_string(),
        }
    }
}

/// What to do for a viewing session.
pub enum ViewerAction {
    /// Nothing; wait for the next event.
    Wait,
    /// Ask for the offer.
    PollOffer,
    /// Pause for this many seconds.
    Pause { secs: u64 },
    /// Accept this offer and gather the answer.
    Answer(String),
    /// Post this answer.
    PostAnswer(String),
    /// Give WebRTC this many seconds to connect.
    AwaitConnection { secs: u64 },
    /// Ask whether the relay was announced.
    PollFallback,
    /// Receive frames from the relay.
    RunRelay,
    /// The session is over.
    Finish,
    Fail(ViewerFailure),
}

pub enum ViewerActionView {
    Wait,
    PollOffer,
    Pause { secs: int },
    Answer(Seq<char>),
    PostAnswer(Seq<char>),
    AwaitConnection { secs: int },
    PollFallback,
    RunRelay,
    Finish,
    Fail(ViewerFailure),
}

impl View for ViewerAction {
    type V = ViewerActionView;

    open spec fn view(&self) -> ViewerActionView {
        match *self {
            ViewerAction::Wait => ViewerActionView::Wait,
            ViewerAction::PollOffer => ViewerActionView::PollOffer,
            ViewerAction::Pause { secs } => ViewerActionView::Pause { secs: secs as int },
            ViewerAction::Answer(sdp) => ViewerActionView::Answer(sdp@),
            ViewerAction::PostAnswer(sdp) => ViewerActionView::PostAnswer(sdp@),
            ViewerAction::AwaitConnection { secs } => ViewerActionView::AwaitConnection {
                secs: secs as int,
            },
            ViewerAction::PollFallback => ViewerActionView::PollFallback,
            ViewerAction::RunRelay => ViewerActionView::RunRelay,
            ViewerAction::Finish => ViewerActionView::Finish,
            ViewerAction::Fail(f) => ViewerActionView::Fail(f),
        }
    }
}

/// Transition of a viewing session. An event that does not fit the phase is
/// passed over.
pub open spec fn viewing_step(phase: ViewerPhase, event: ViewerEvent) -> (
    ViewerPhase,
    ViewerActionView,
) {
    match (phase, event) {
        (ViewerPhase::PollingOffer { polls }, ViewerEvent::OfferPolled(offer)) => match offer {
            Some(sdp) => (ViewerPhase::Answering, ViewerActionView::Answer(sdp@)),
            None => (phase, ViewerActionView::Pause { secs: OFFER_POLL_SECS as int }),
        },
        (ViewerPhase::PollingOffer { polls }, ViewerEvent::Paused) => if polls < OFFER_POLLS {
            (
                ViewerPhase::PollingOffer { polls: (polls + 1) as u32 },
                ViewerActionView::PollOffer,
            )
        } else {
            (ViewerPhase::Over, ViewerActionView::Fail(ViewerFailure::NoOffer))
        },
        (ViewerPhase::Answering, ViewerEvent::AnswerGathered(answer)) => match answer {
            Some(sdp) => (ViewerPhase::Posting, ViewerActionView::PostAnswer(sdp@)),
            None => (
                ViewerPhase::Over,
                ViewerActionView::Fail(ViewerFailure::NoLocalDescription),
            ),
        },
        (ViewerPhase::Posting, ViewerEvent::AnswerPosted) => (
            ViewerPhase::Connecting,
            ViewerActionView::AwaitConnection { secs: CONNECT_TIMEOUT_SECS as int },
        ),
        (ViewerPhase::Connecting, ViewerEvent::Peer(state)) => if state is Connected {
            (ViewerPhase::Live, ViewerActionView::Wait)
        } else if state.is_down() {
            (ViewerPhase::PollingFallback { polls: 1 }, ViewerActionView::PollFallback)
        } else {
            (phase, ViewerActionView::Wait)
        },
        (ViewerPhase::Connecting, ViewerEvent::ConnectTimeout) => (
            ViewerPhase::PollingFallback { polls: 1 },
            ViewerActionView::PollFallback,
        ),
        (ViewerPhase::Live, ViewerEvent::Peer(state)) => if state.is_down() {
            (ViewerPhase::Over, ViewerActionView::Finish)
        } else {
            (phase, ViewerActionView::Wait)
        },
        (ViewerPhase::PollingFallback { polls }, ViewerEvent::FallbackPolled(announced)) => {
            if announced {
                (ViewerPhase::Relaying, ViewerActionView::RunRelay)
            } else {
                (phase, ViewerActionView::Pause { secs: FALLBACK_POLL_SECS as int })
            }
        },
        (ViewerPhase::PollingFallback { polls }, ViewerEvent::Paused) => {
            if polls < FALLBACK_POLLS {
                (
                    ViewerPhase::PollingFallback { polls: (polls + 1) as u32 },
                    ViewerActionView::PollFallback,
                )
            } else {
                (ViewerPhase::Over, ViewerActionView::Fail(ViewerFailure::NoFallback))
            }
        },
        (ViewerPhase::Relaying, ViewerEvent::RelayEnded) => (
            ViewerPhase::Over,
            ViewerActionView::Finish,
        ),
        _ => (phase, ViewerActionView::Wait),
    }
}

/// Phase, code and PIN that a viewing session starts with, or why there is none.
pub open spec fn opened(code: Seq<char>, pin: Seq<char>) -> Result<
    (ViewerPhase, Seq<char>, Seq<char>),
    ViewerFailure,
> {
    if is_pin(pin) {
        Ok((ViewerPhase::PollingOffer { polls: 1 }, uppercase(code), pin))
    } else {
        Err(ViewerFailure::MalformedPin)
    }
}

/// The course of one viewing session.
pub struct ViewerSession {
    pub phase: ViewerPhase,
    pub code: String,
    pub pin: String,
}

impl ViewerSession {
    /// Opens a session for a share's code and PIN. The code is taken in upper
    /// case. The first thing to do is to ask for the offer.
    pub fn open(code: &str, pin: &str) -> (r: Result<ViewerSession, ViewerFailure>)
        ensures
            r matches Ok(s) ==> opened(code@, pin@) == Ok::<
                (ViewerPhase, Seq<char>, Seq<char>),
                ViewerFailure,
            >((s.phase, s.code@, s.pin@)),
            r matches Err(e) ==> opened(code@, pin@) == Err::<
                (ViewerPhase, Seq<char>, Seq<char>),
                ViewerFailure,
            >(e),
            r is Ok <==> is_pin(pin@),
            r matches Ok(s) ==> {
                &&& s.phase == (ViewerPhase::PollingOffer { polls: 1 })
                &&& s.code@ == uppercase(code@)
                &&& s.pin@ == pin@
            },
            r matches Err(e) ==> e == ViewerFailure::MalformedPin,
    {
        if !valid_pin(pin) {
            return Err(ViewerFailure::MalformedPin);
        }
        Ok(
            ViewerSession {
                phase: ViewerPhase::PollingOffer { polls: 1 },
                code: text::to_uppercase(code),
                pin: pin.to_string(),
            },
        )
    }

    /// Takes one event and says what to do next.
    pub fn step(&mut self, event: ViewerEvent) -> (action: ViewerAction)
        ensures
            (final(self).phase, action@) == viewing_step(old(self).phase, event),
            final(self).code == old(self).code,
            final(self).pin == old(self).pin,
    {
        match (self.phase, event) {
            (ViewerPhase::PollingOffer { polls }, ViewerEvent::OfferPolled(offer)) => match offer {
                Some(sdp) => {
                    self.phase = ViewerPhase::Answering;
                    ViewerAction::Answer(sdp)
                },
                None => ViewerAction::Pause { secs: OFFER_POLL_SECS },
            },
            (ViewerPhase::PollingOffer { polls }, ViewerEvent::Paused) => {
                if polls < OFFER_POLLS {
                    self.phase = ViewerPhase::PollingOffer { polls: polls + 1 };
                    ViewerAction::PollOffer
                } else {
                    self.phase = ViewerPhase::Over;
                    ViewerAction::Fail(ViewerFailure::NoOffer)
                }
            },
            (ViewerPhase::Answering, ViewerEvent::AnswerGathered(answer)) => match answer {
                Some(sdp) => {
                    self.phase = ViewerPhase::Posting;
                    ViewerAction::PostAnswer(sdp)
                },
                None => {
                    self.phase = ViewerPhase::Over;
                    ViewerAction::Fail(ViewerFailure::NoLocalDescription)
                },
            },
            (ViewerPhase::Posting, ViewerEvent::AnswerPosted) => {
                self.phase = ViewerPhase::Connecting;
                ViewerAction::AwaitConnection { secs: CONNECT_TIMEOUT_SECS }
            },
            (ViewerPhase::Connecting, ViewerEvent::Peer(state)) => {
                if state == PeerState::Connected {
                    self.phase = ViewerPhase::Live;
                    ViewerAction::Wait
                } else if state.down() {
                    self.phase = ViewerPhase::PollingFallback { polls: 1 };
                    ViewerAction::PollFallback
                } else {
                    ViewerAction::Wait
                }
            },
            (ViewerPhase::Connecting, ViewerEvent::ConnectTimeout) => {
                self.phase = ViewerPhase::PollingFallback { polls: 1 };
                ViewerAction::PollFallback
            },
            (ViewerPhase::Live, ViewerEvent::Peer(state)) => {
                if state.down() {
                    self.phase = ViewerPhase::Over;
                    ViewerAction::Finish
                } else {
                    ViewerAction::Wait
                }
            },
            (ViewerPhase::PollingFallback { polls }, ViewerEvent::FallbackPolled(announced)) => {
                if announced {
                    self.phase = ViewerPhase::Relaying;
                    ViewerAction::RunRelay
                } else {
                    ViewerAction::Pause { secs: FALLBACK_POLL_SECS }
                }
            },
            (ViewerPhase::PollingFallback { polls }, ViewerEvent::Paused) => {
                if polls < FALLBACK_POLLS {
                    self.phase = ViewerPhase::PollingFallback { polls: polls + 1 };
                    ViewerAction::PollFallback
                } else {
                    self.phase = ViewerPhase::Over;
                    ViewerAction::Fail(ViewerFailure::NoFallback)
                }
            },
            (ViewerPhase::Relaying, ViewerEvent::RelayEnded) => {
                self.phase = ViewerPhase::Over;
                ViewerAction::Finish
            },
            _ => ViewerAction::Wait,
        }
    }
}

/// Phase after a sequence of events.
pub open spec fn viewing_run(events: Seq<ViewerEvent>) -> ViewerPhase
    decreases events.len(),
{
    if events.len() == 0 {
        ViewerPhase::PollingOffer { polls: 1 }
    } else {
        viewing_step(viewing_run(events.drop_last()), events.last()).0
    }
}

/// How often the offer and the relay were asked for in the course of these
/// events, counting the first request for the offer.
pub open spec fn viewing_polls(events: Seq<ViewerEvent>) -> (nat, nat)
    decreases events.len(),
{
    if events.len() == 0 {
        (1, 0)
    } else {
        let before = events.drop_last();
        let (offer, relay) = viewing_polls(before);
        match viewing_step(viewing_run(before), events.last()).1 {
            ViewerActionView::PollOffer => (offer + 1, relay),
            ViewerActionView::PollFallback => (offer, relay + 1),
            _ => (offer, relay),
        }
    }
}

proof fn lemma_polls_counted(events: Seq<ViewerEvent>)
    ensures
        viewing_polls(events).0 <= OFFER_POLLS,
        viewing_polls(events).1 <= FALLBACK_POLLS,
        viewing_run(events) matches ViewerPhase::PollingOffer { polls } ==> viewing_polls(events)
            == (polls as nat, 0nat),
        viewing_run(events) is Answering || viewing_run(events) is Posting || viewing_run(
            events,
        ) is Connecting || viewing_run(events) is Live ==> viewing_polls(events).1 == 0,
        viewing_run(events) matches ViewerPhase::PollingFallback { polls } ==> viewing_polls(
            events,
        ).1 == polls,
    decreases events.len(),
{
    if events.len() > 0 {
        lemma_polls_counted(events.drop_last());
    }
}

/// The offer and the relay are asked for a limited number of times, whatever
/// happens.
pub proof fn law_polls_are_bounded(events: Seq<ViewerEvent>)
    ensures
        viewing_polls(events).0 <= OFFER_POLLS,
        viewing_polls(events).1 <= FALLBACK_POLLS,
{
    lemma_polls_counted(events);
}

/// A session that fails for want of an offer or of the relay has asked for it
/// as often as it may.
pub proof fn law_giving_up_takes_all_polls(events: Seq<ViewerEvent>, last: ViewerEvent)
    ensures
        viewing_step(viewing_run(events), last).1 == ViewerActionView::Fail(ViewerFailure::NoOffer)
            ==> viewing_polls(events).0 == OFFER_POLLS,
        viewing_step(viewing_run(events), last).1 == ViewerActionView::Fail(
            ViewerFailure::NoFallback,
        ) ==> viewing_polls(events).1 == FALLBACK_POLLS,
{
    lemma_polls_counted(events);
}

/// A viewer that starts to connect gives WebRTC four seconds, and waits on nothing
/// else.
pub proof fn law_viewer_gives_four_seconds(phase: ViewerPhase, event: ViewerEvent)
    ensures
        ({
            let (next, action) = viewing_step(phase, event);
            next is Connecting && phase !is Connecting <==> action
                == (ViewerActionView::AwaitConnection { secs: 4 })
        }),
        viewing_step(phase, event).1 matches ViewerActionView::AwaitConnection { secs } ==> secs
            == 4,
{
}

/// Every way in which WebRTC can fail to connect, running out of time included,
/// makes the viewer look for the relay.
pub proof fn law_failed_connection_looks_for_relay(event: ViewerEvent)
    requires
        event is ConnectTimeout || (event matches ViewerEvent::Peer(state) && state.is_down()),
    ensures
        viewing_step(ViewerPhase::Connecting, event) == (
            ViewerPhase::PollingFallback { polls: 1 },
            ViewerActionView::PollFallback,
        ),
{
}

/// Frames are only taken from the relay after it was announced.
pub proof fn law_relay_was_announced(phase: ViewerPhase, event: ViewerEvent)
    requires
        viewing_step(phase, event).1 is RunRelay,
    ensures
        phase is PollingFallback,
        event == ViewerEvent::FallbackPolled(true),
{
}

/// A PIN has six characters, each from `0` to `9`, and every such text is one.
pub proof fn law_pin_is_six_digits(s: Seq<char>)
    ensures
        is_pin(s) <==> s.len() == 6 && '0' <= s[0] <= '9' && '0' <= s[1] <= '9' && '0' <= s[2]
            <= '9' && '0' <= s[3] <= '9' && '0' <= s[4] <= '9' && '0' <= s[5] <= '9',
{
    if is_pin(s) {
        assert(is_digit(s[0]) && is_digit(s[1]) && is_digit(s[2]));
        assert(is_digit(s[3]) && is_digit(s[4]) && is_digit(s[5]));
    }
}

/// An offer is taken at whichever poll it is found. A poll that finds nothing is
/// followed by a second's pause, and every pause by another poll until there were
/// sixty.
pub proof fn law_offer_is_taken_at_any_poll(polls: u32, sdp: String)
    ensures
        viewing_step(ViewerPhase::PollingOffer { polls }, ViewerEvent::OfferPolled(Some(sdp))) == (
            ViewerPhase::Answering,
            ViewerActionView::Answer(sdp@),
        ),
        viewing_step(ViewerPhase::PollingOffer { polls }, ViewerEvent::OfferPolled(None)) == (
            ViewerPhase::PollingOffer { polls },
            ViewerActionView::Pause { secs: 1 },
        ),
        polls < 60 ==> viewing_step(ViewerPhase::PollingOffer { polls }, ViewerEvent::Paused) == (
            ViewerPhase::PollingOffer { polls: (polls + 1) as u32 },
            ViewerActionView::PollOffer,
        ),
        polls >= 60 ==> viewing_step(ViewerPhase::PollingOffer { polls }, ViewerEvent::Paused) == (
            ViewerPhase::Over,
            ViewerActionView::Fail(ViewerFailure::NoOffer),
        ),
{
}

/// The answer that was gathered is the one that is posted, and then WebRTC has
/// four seconds.
pub proof fn law_gathered_answer_is_posted(sdp: String)
    ensures
        viewing_step(ViewerPhase::Answering, ViewerEvent::AnswerGathered(Some(sdp))) == (
            ViewerPhase::Posting,
            ViewerActionView::PostAnswer(sdp@),
        ),
        viewing_step(ViewerPhase::Answering, ViewerEvent::AnswerGathered(None)) == (
            ViewerPhase::Over,
            ViewerActionView::Fail(ViewerFailure::NoLocalDescription),
        ),
        viewing_step(ViewerPhase::Posting, ViewerEvent::AnswerPosted) == (
            ViewerPhase::Connecting,
            ViewerActionView::AwaitConnection { secs: 4 },
        ),
{
}

/// What each state of the peer connection means to a viewer that is connecting, and
/// to one that is watching.
pub proof fn law_peer_states(state: PeerState)
    ensures
        viewing_step(ViewerPhase::Connecting, ViewerEvent::Peer(state)) == match state {
            PeerState::Connected => (ViewerPhase::Live, ViewerActionView::Wait),
            PeerState::Failed | PeerState::Disconnected | PeerState::Closed => (
                ViewerPhase::PollingFallback { polls: 1 },
                ViewerActionView::PollFallback,
            ),
            PeerState::New | PeerState::Connecting => (
                ViewerPhase::Connecting,
                ViewerActionView::Wait,
            ),
        },
        viewing_step(ViewerPhase::Live, ViewerEvent::Peer(state)) == match state {
            PeerState::Failed | PeerState::Disconnected | PeerState::Closed => (
                ViewerPhase::Over,
                ViewerActionView::Finish,
            ),
            PeerState::New | PeerState::Connecting | PeerState::Connected => (
                ViewerPhase::Live,
                ViewerActionView::Wait,
            ),
        },
        viewing_step(ViewerPhase::Connecting, ViewerEvent::ConnectTimeout) == (
            ViewerPhase::PollingFallback { polls: 1 },
            ViewerActionView::PollFallback,
        ),
{
}

/// The relay is joined at whichever poll finds it announced. A poll that does not is
/// followed by a pause of two seconds, and every pause by another poll until there
/// were thirty.
pub proof fn law_relay_is_joined_at_any_poll(polls: u32)
    ensures
        viewing_step(ViewerPhase::PollingFallback { polls }, ViewerEvent::FallbackPolled(true))
            == (ViewerPhase::Relaying, ViewerActionView::RunRelay),
        viewing_step(ViewerPhase::PollingFallback { polls }, ViewerEvent::FallbackPolled(false))
            == (ViewerPhase::PollingFallback { polls }, ViewerActionView::Pause { secs: 2 }),
        polls < 30 ==> viewing_step(ViewerPhase::PollingFallback { polls }, ViewerEvent::Paused)
            == (
            ViewerPhase::PollingFallback { polls: (polls + 1) as u32 },
            ViewerActionView::PollFallback,
        ),
        polls >= 30 ==> viewing_step(ViewerPhase::PollingFallback { polls }, ViewerEvent::Paused)
            == (ViewerPhase::Over, ViewerActionView::Fail(ViewerFailure::NoFallback)),
        viewing_step(ViewerPhase::Relaying, ViewerEvent::RelayEnded) == (
            ViewerPhase::Over,
            ViewerActionView::Finish,
        ),
{
}

/// Events that a phase does not wait for change nothing.
pub proof fn law_untimely_events_are_passed_over(phase: ViewerPhase, event: ViewerEvent)
    requires
        match phase {
            ViewerPhase::PollingOffer { .. } => event !is OfferPolled && event !is Paused,
            ViewerPhase::Answering => event !is AnswerGathered,
            ViewerPhase::Posting => event !is AnswerPosted,
            ViewerPhase::Connecting => event !is Peer && event !is ConnectTimeout,
            ViewerPhase::Live => event !is Peer,
            ViewerPhase::PollingFallback { .. } => event !is FallbackPolled && event !is Paused,
            ViewerPhase::Relaying => event !is RelayEnded,
            ViewerPhase::Over => true,
        },
    ensures
        viewing_step(phase, event) == (phase, ViewerActionView::Wait),
{
}

/// A session is opened for every PIN of six digits and for no other, whatever the
/// code, with the first poll for the offer made.
pub proof fn law_session_needs_a_pin(code: Seq<char>, pin: Seq<char>)
    ensures
        opened(code, pin) is Ok <==> pin.len() == 6 && '0' <= pin[0] <= '9' && '0' <= pin[1] <= '9'
            && '0' <= pin[2] <= '9' && '0' <= pin[3] <= '9' && '0' <= pin[4] <= '9' && '0' <= pin[5]
            <= '9',
        opened(code, pin) matches Ok((phase, c, p)) ==> {
            &&& phase == (ViewerPhase::PollingOffer { polls: 1 })
            &&& c == uppercase(code)
            &&& p == pin
        },
        opened(code, pin) matches Err(e) ==> e == ViewerFailure::MalformedPin,
{
    law_pin_is_six_digits(pin);
}

/// The view of an action holds what the action holds.
pub proof fn law_views_of_viewer_actions(sdp: String, secs: u64, failure: ViewerFailure)
    ensures
        ViewerAction::Wait@ == ViewerActionView::Wait,
        ViewerAction::PollOffer@ == ViewerActionView::PollOffer,
        (ViewerAction::Pause { secs })@ == (ViewerActionView::Pause { secs: secs as int }),
        ViewerAction::Answer(sdp)@ == ViewerActionView::Answer(sdp@),
        ViewerAction::PostAnswer(sdp)@ == ViewerActionView::PostAnswer(sdp@),
        (ViewerAction::AwaitConnection { secs })@ == (ViewerActionView::AwaitConnection {
            secs: secs as int,
        }),
        ViewerAction::PollFallback@ == ViewerActionView::PollFallback,
        ViewerAction::RunRelay@ == ViewerActionView::RunRelay,
        ViewerAction::Finish@ == ViewerActionView::Finish,
        ViewerAction::Fail(failure)@ == ViewerActionView::Fail(failure),
{
}

} // verus!
