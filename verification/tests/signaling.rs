//! Requests and replies of the signaling protocol.

use screenshare::signaling::{
    backend_base, ws_url, Method, Reply, Request, SignalingClient, REQUEST_TIMEOUT_SECS,
};

fn client() -> SignalingClient {
    SignalingClient::new("https://x.dev".to_string())
}

fn sdp(r: &Request) -> Option<&str> {
    r.body.as_ref().map(|b| b.sdp.as_str())
}

#[test]
fn requests_name_their_resources() {
    assert_eq!(REQUEST_TIMEOUT_SECS, 15);
    let c = client();

    let r = c.create_session();
    assert_eq!((r.method, r.url.as_str()), (Method::Post, "https://x.dev/api/sessions"));
    assert_eq!((r.credential.header(), sdp(&r)), (None, None));

    let r = c.put_offer("ID", "tok", "v=0");
    assert_eq!((r.method, r.url.as_str()), (Method::Put, "https://x.dev/api/sessions/ID/offer"));
    assert_eq!((r.credential.header(), sdp(&r)), (Some(("X-Sender-Token", "tok")), Some("v=0")));

    let r = c.get_offer("ID", "123456");
    assert_eq!((r.method, r.url.as_str()), (Method::Get, "https://x.dev/api/sessions/ID/offer"));
    assert_eq!((r.credential.header(), sdp(&r)), (Some(("X-Viewer-Pin", "123456")), None));

    let r = c.put_answer("ID", "123456", "v=1");
    assert_eq!((r.method, r.url.as_str()), (Method::Put, "https://x.dev/api/sessions/ID/answer"));
    assert_eq!((r.credential.header(), sdp(&r)), (Some(("X-Viewer-Pin", "123456")), Some("v=1")));

    let r = c.get_answer("ID", "tok");
    assert_eq!((r.method, r.url.as_str()), (Method::Get, "https://x.dev/api/sessions/ID/answer"));
    assert_eq!((r.credential.header(), sdp(&r)), (Some(("X-Sender-Token", "tok")), None));

    let r = c.put_fallback("ID", "tok");
    assert_eq!((r.method, r.url.as_str()), (Method::Put, "https://x.dev/api/sessions/ID/fallback"));
    assert_eq!((r.credential.header(), sdp(&r)), (Some(("X-Sender-Token", "tok")), None));

    let r = c.get_fallback("ID");
    assert_eq!((r.method, r.url.as_str()), (Method::Get, "https://x.dev/api/sessions/ID/fallback"));
    assert_eq!((r.credential.header(), sdp(&r)), (None, None));
}

#[test]
fn statuses_are_read_by_request() {
    for status in [200, 204, 302, 399, 600] {
        assert_eq!(SignalingClient::read_status(status), Reply::Granted);
        assert_eq!(SignalingClient::read_answer_status(status), Reply::Granted);
        assert_eq!(SignalingClient::read_offer_status(status), Reply::Granted);
    }
    for status in [400, 403, 500, 599] {
        assert_eq!(SignalingClient::read_status(status), Reply::Refused);
        assert_eq!(SignalingClient::read_answer_status(status), Reply::Refused);
        assert_eq!(SignalingClient::read_offer_status(status), Reply::Refused);
    }
    assert_eq!(SignalingClient::read_status(404), Reply::Refused);
    assert_eq!(SignalingClient::read_answer_status(404), Reply::Missing);
    assert_eq!(SignalingClient::read_offer_status(404), Reply::Missing);
    assert_eq!(SignalingClient::read_answer_status(401), Reply::Refused);
    assert_eq!(SignalingClient::read_offer_status(401), Reply::InvalidPin);
    assert_eq!(SignalingClient::read_answer_status(423), Reply::Refused);
    assert_eq!(SignalingClient::read_offer_status(423), Reply::Locked);
}

#[test]
fn pin_replies_have_words() {
    assert_eq!(Reply::InvalidPin.message(), Some("invalid PIN"));
    assert_eq!(
        Reply::Locked.message(),
        Some("session locked (too many failed PIN attempts)")
    );
    assert_eq!(Reply::Granted.message(), None);
    assert_eq!(Reply::Missing.message(), None);
    assert_eq!(Reply::Refused.message(), None);
}

#[test]
fn schemes_are_stripped_however_often_they_occur() {
    assert_eq!(ws_url("https://https://h", "i", "r", None, None), "wss://h/ws/relay/i?role=r");
    assert_eq!(ws_url("http://http://h", "i", "r", None, None), "ws://h/ws/relay/i?role=r");
    assert_eq!(ws_url("https://http://h", "i", "r", None, None), "wss://h/ws/relay/i?role=r");
    assert_eq!(ws_url("http://https://h", "i", "r", None, None), "ws://https://h/ws/relay/i?role=r");
    assert_eq!(ws_url("h", "i", "r", None, None), "ws://h/ws/relay/i?role=r");
    assert_eq!(ws_url("", "", "", None, None), "ws:///ws/relay/?role=");
}

#[test]
fn backend_loses_its_trailing_slashes() {
    assert_eq!(backend_base("https://x.dev"), "https://x.dev");
    assert_eq!(backend_base("https://x.dev/"), "https://x.dev");
    assert_eq!(backend_base("https://x.dev//"), "https://x.dev");
    assert_eq!(backend_base("https://x.dev/a/b"), "https://x.dev/a/b");
    assert_eq!(backend_base("///"), "");
    assert_eq!(backend_base(""), "");
}
