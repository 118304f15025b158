//! The course of a share and of a viewing session.

use screenshare::capture::Quality;
use screenshare::signaling::CreateSessionResponse;
use screenshare::webrtc_client::sender::{
    SenderAction, SenderEvent, SenderFailure, SenderPhase, SenderSession, ANSWER_POLLS,
};
use screenshare::webrtc_client::viewer::{
    is_vp8_track, valid_pin, ViewerAction, ViewerEvent, ViewerFailure, ViewerPhase, ViewerSession,
    FALLBACK_POLLS, OFFER_POLLS,
};
use screenshare::webrtc_client::{stun_servers, PeerState, CONNECT_TIMEOUT_SECS};

fn created() -> SenderEvent {
    SenderEvent::SessionCreated(CreateSessionResponse {
        id: "ABCD1234".to_string(),
        sender_token: "token".to_string(),
        pin: "123456".to_string(),
        viewer_url: "https://x/viewer/ABCD1234".to_string(),
    })
}

fn sdp(text: &str) -> Option<String> {
    Some(text.to_string())
}

/// A share up to the point where WebRTC connects.
fn connecting(quality: Quality) -> SenderSession {
    let mut s = SenderSession::new(quality);
    s.step(created());
    s.step(SenderEvent::OfferGathered(sdp("offer")));
    s.step(SenderEvent::OfferPosted);
    s.step(SenderEvent::AnswerPolled(sdp("answer")));
    s.step(SenderEvent::MediaStarted);
    assert_eq!(s.phase, SenderPhase::Connecting);
    s
}

#[test]
fn both_sides_give_webrtc_four_seconds() {
    assert_eq!(CONNECT_TIMEOUT_SECS, 4);
    assert_eq!(
        stun_servers(),
        vec!["stun:stun.cloudflare.com:3478", "stun:stun.l.google.com:19302"]
    );
}

#[test]
fn share_goes_through_its_phases() {
    let mut s = SenderSession::new(Quality::Medium);
    match s.step(created()) {
        SenderAction::Announce(info) => {
            assert_eq!(info.viewer_url, "https://x/viewer/ABCD1234");
            assert_eq!(info.pin, "123456");
        }
        _ => panic!("the share was not announced"),
    }
    match s.step(SenderEvent::OfferGathered(sdp("offer"))) {
        SenderAction::PostOffer(text) => assert_eq!(text, "offer"),
        _ => panic!("the offer was not posted"),
    }
    assert!(matches!(s.step(SenderEvent::OfferPosted), SenderAction::PollAnswer));
    assert!(matches!(s.step(SenderEvent::AnswerPolled(None)), SenderAction::Pause { secs: 1 }));
    assert!(matches!(s.step(SenderEvent::Paused), SenderAction::PollAnswer));
    match s.step(SenderEvent::AnswerPolled(sdp("answer"))) {
        SenderAction::StartMedia(text) => assert_eq!(text, "answer"),
        _ => panic!("media was not started"),
    }
    assert!(matches!(s.step(SenderEvent::MediaStarted), SenderAction::AwaitConnection { secs: 4 }));
    assert!(matches!(s.step(SenderEvent::Peer(PeerState::Connecting)), SenderAction::Wait));
    assert!(matches!(s.step(SenderEvent::Peer(PeerState::Connected)), SenderAction::Wait));
    assert_eq!(s.phase, SenderPhase::Live);
    // The time limit only counts while connecting.
    assert!(matches!(s.step(SenderEvent::ConnectTimeout), SenderAction::Wait));
    assert!(matches!(s.step(SenderEvent::PumpsEnded), SenderAction::Finish));
    assert!(matches!(s.step(created()), SenderAction::Wait));
    assert_eq!(s.quality, Quality::Medium);
}

#[test]
fn share_fails_without_an_offer() {
    let mut s = SenderSession::new(Quality::High);
    s.step(created());
    match s.step(SenderEvent::OfferGathered(None)) {
        SenderAction::Fail(f) => {
            assert_eq!(f, SenderFailure::NoLocalDescription);
            assert_eq!(f.to_string(), "no local desc after gather");
        }
        _ => panic!("the share went on"),
    }
}

#[test]
fn share_gives_up_after_sixty_polls() {
    let mut s = SenderSession::new(Quality::High);
    s.step(created());
    s.step(SenderEvent::OfferGathered(sdp("offer")));
    let mut action = s.step(SenderEvent::OfferPosted);
    let mut polls = 0;
    while matches!(action, SenderAction::PollAnswer) {
        polls += 1;
        assert!(matches!(s.step(SenderEvent::AnswerPolled(None)), SenderAction::Pause { secs: 1 }));
        action = s.step(SenderEvent::Paused);
    }
    assert_eq!(polls, 60);
    assert_eq!(polls, ANSWER_POLLS);
    match action {
        SenderAction::Fail(f) => {
            assert_eq!(f, SenderFailure::NeverAnswered);
            assert_eq!(f.to_string(), "viewer never answered within 60s");
        }
        _ => panic!("the share went on"),
    }
}

#[test]
fn failing_to_connect_escalates() {
    for state in [PeerState::Failed, PeerState::Disconnected, PeerState::Closed] {
        let mut s = connecting(Quality::High);
        assert!(matches!(s.step(SenderEvent::Peer(state)), SenderAction::PostFallback));
    }
    let mut s = connecting(Quality::High);
    assert!(matches!(s.step(SenderEvent::ConnectTimeout), SenderAction::PostFallback));
    match s.step(SenderEvent::FallbackPosted { width: 1920, height: 1080 }) {
        SenderAction::RunRelay { max_bitrate_kbps } => assert_eq!(max_bitrate_kbps, 4_000),
        _ => panic!("the relay was not started"),
    }
    assert!(matches!(s.step(SenderEvent::Peer(PeerState::Closed)), SenderAction::Wait));
    assert!(matches!(s.step(SenderEvent::RelayEnded), SenderAction::Drain));
    assert!(matches!(s.step(SenderEvent::PumpsEnded), SenderAction::Finish));
}

#[test]
fn only_failure_escalates_midstream() {
    let mut s = connecting(Quality::Original);
    s.step(SenderEvent::Peer(PeerState::Connected));
    assert!(matches!(s.step(SenderEvent::Peer(PeerState::Disconnected)), SenderAction::Wait));
    assert!(matches!(s.step(SenderEvent::Peer(PeerState::Closed)), SenderAction::Wait));
    assert!(matches!(s.step(SenderEvent::Peer(PeerState::Failed)), SenderAction::PostFallback));
    match s.step(SenderEvent::FallbackPosted { width: 3840, height: 2160 }) {
        SenderAction::RunRelay { max_bitrate_kbps } => assert_eq!(max_bitrate_kbps, 24_883),
        _ => panic!("the relay was not started"),
    }
}

#[test]
fn pins_are_six_digits() {
    assert!(valid_pin("000000"));
    assert!(valid_pin("987654"));
    for pin in ["", "12345", "1234567", "12345a", " 12345", "12345 ", "١٢٣٤٥٦", "-12345"] {
        assert!(!valid_pin(pin), "{pin}");
        match ViewerSession::open("ABCD1234", pin) {
            Err(e) => {
                assert_eq!(e, ViewerFailure::MalformedPin);
                assert_eq!(e.to_string(), "PIN must be exactly 6 digits");
            }
            Ok(_) => panic!("{pin} was accepted"),
        }
    }
}

#[test]
fn code_is_taken_in_upper_case() {
    let open = |code: &str| match ViewerSession::open(code, "123456") {
        Ok(s) => s,
        Err(_) => panic!("the PIN was refused"),
    };
    let s = open("abcd1234");
    assert_eq!((s.code.as_str(), s.pin.as_str()), ("ABCD1234", "123456"));
    assert_eq!(s.phase, ViewerPhase::PollingOffer { polls: 1 });
    assert_eq!(open("straße").code, "STRASSE");
}

fn viewing() -> ViewerSession {
    match ViewerSession::open("ABCD1234", "123456") {
        Ok(s) => s,
        Err(_) => panic!("the PIN was refused"),
    }
}

/// A viewing session up to the point where WebRTC connects.
fn viewer_connecting() -> ViewerSession {
    let mut s = viewing();
    match s.step(ViewerEvent::OfferPolled(sdp("offer"))) {
        ViewerAction::Answer(text) => assert_eq!(text, "offer"),
        _ => panic!("the offer was not answered"),
    }
    match s.step(ViewerEvent::AnswerGathered(sdp("answer"))) {
        ViewerAction::PostAnswer(text) => assert_eq!(text, "answer"),
        _ => panic!("the answer was not posted"),
    }
    assert!(matches!(s.step(ViewerEvent::AnswerPosted), ViewerAction::AwaitConnection { secs: 4 }));
    s
}

#[test]
fn viewer_watches_until_the_connection_is_down() {
    for state in [PeerState::Failed, PeerState::Disconnected, PeerState::Closed] {
        let mut s = viewer_connecting();
        assert!(matches!(s.step(ViewerEvent::Peer(PeerState::New)), ViewerAction::Wait));
        assert!(matches!(s.step(ViewerEvent::Peer(PeerState::Connected)), ViewerAction::Wait));
        assert!(matches!(s.step(ViewerEvent::ConnectTimeout), ViewerAction::Wait));
        assert!(matches!(s.step(ViewerEvent::Peer(state)), ViewerAction::Finish));
    }
}

#[test]
fn viewer_turns_to_the_relay() {
    let mut s = viewer_connecting();
    assert!(matches!(s.step(ViewerEvent::ConnectTimeout), ViewerAction::PollFallback));
    assert!(matches!(
        s.step(ViewerEvent::FallbackPolled(false)),
        ViewerAction::Pause { secs: 2 }
    ));
    assert!(matches!(s.step(ViewerEvent::Paused), ViewerAction::PollFallback));
    assert!(matches!(s.step(ViewerEvent::FallbackPolled(true)), ViewerAction::RunRelay));
    assert!(matches!(s.step(ViewerEvent::RelayEnded), ViewerAction::Finish));
    assert_eq!(s.phase, ViewerPhase::Over);
}

#[test]
fn viewer_gives_up_on_the_offer_after_sixty_polls() {
    let mut s = viewing();
    let mut polls = 1;
    let failure = loop {
        assert!(matches!(
            s.step(ViewerEvent::OfferPolled(None)),
            ViewerAction::Pause { secs: 1 }
        ));
        match s.step(ViewerEvent::Paused) {
            ViewerAction::PollOffer => polls += 1,
            ViewerAction::Fail(f) => break f,
            _ => panic!("neither a poll nor a failure"),
        }
    };
    assert_eq!((polls, OFFER_POLLS), (60, 60));
    assert_eq!(failure.to_string(), "offer never appeared");
}

#[test]
fn viewer_gives_up_on_the_relay_after_thirty_polls() {
    let mut s = viewer_connecting();
    s.step(ViewerEvent::Peer(PeerState::Failed));
    let mut polls = 1;
    let failure = loop {
        s.step(ViewerEvent::FallbackPolled(false));
        match s.step(ViewerEvent::Paused) {
            ViewerAction::PollFallback => polls += 1,
            ViewerAction::Fail(f) => break f,
            _ => panic!("neither a poll nor a failure"),
        }
    };
    assert_eq!((polls, FALLBACK_POLLS), (30, 30));
    assert_eq!(failure, ViewerFailure::NoFallback);
    assert_eq!(failure.to_string(), "no fallback became available");
}

#[test]
fn viewer_fails_without_an_answer() {
    let mut s = viewing();
    s.step(ViewerEvent::OfferPolled(sdp("offer")));
    match s.step(ViewerEvent::AnswerGathered(None)) {
        ViewerAction::Fail(f) => assert_eq!(f.to_string(), "no local desc"),
        _ => panic!("the session went on"),
    }
}

#[test]
fn only_vp8_tracks_are_shown() {
    assert!(is_vp8_track("video/VP8"));
    assert!(is_vp8_track("video/vp8"));
    assert!(is_vp8_track("VIDEO/vp8"));
    assert!(!is_vp8_track("video/vp9"));
    assert!(!is_vp8_track("video/vp8 "));
    assert!(!is_vp8_track("audio/opus"));
}
