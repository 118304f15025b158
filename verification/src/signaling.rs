//! Signaling over HTTPS.
//!
//! [`SignalingClient`] builds the requests of the signaling protocol and says
//! what the replies mean. Sending them is left to the caller.

use crate::text;
use crate::text::{without_leading, without_trailing};
use vstd::prelude::*;

verus! {

/// Time after which a request is given up.
pub const REQUEST_TIMEOUT_SECS: u64 = 15;

#[derive(Debug)]
pub struct CreateSessionResponse {
    pub id: String,
    pub sender_token: String,
    pub pin: String,
    pub viewer_url: String,
}

#[derive(Debug)]
pub struct SdpEnvelope {
    pub sdp: String,
}

#[derive(Debug)]
pub struct FallbackFlag {
    pub fallback: bool,
}

#[derive(Clone, Copy, Debug, PartialEq, Eq, Structural)]
pub enum Method {
    Get,
    Put,
    Post,
}

/// Credential sent along with a request.
pub enum Credential {
    Anonymous,
    /// Header `X-Sender-Token`.
    SenderToken(String),
    /// Header `X-Viewer-Pin`.
    ViewerPin(String),
}

pub enum CredentialView {
    Anonymous,
    SenderToken(Seq<char>),
    ViewerPin(Seq<char>),
}

impl View for Credential {
    type V = CredentialView;

    open spec fn view(&self) -> CredentialView {
        match *self {
            Credential::Anonymous => CredentialView::Anonymous,
            Credential::SenderToken(t) => CredentialView::SenderToken(t@),
            Credential::ViewerPin(p) => CredentialView::ViewerPin(p@),
        }
    }
}

/// Header that a credential is sent in: its name and value.
pub open spec fn credential_header(c: CredentialView) -> Option<(Seq<char>, Seq<char>)> {
    match c {
        CredentialView::Anonymous => None,
        CredentialView::SenderToken(t) => Some(("X-Sender-Token"@, t)),
        CredentialView::ViewerPin(p) => Some(("X-Viewer-Pin"@, p)),
    }
}

impl Credential {
    /// Name and value of the header, if there is one.
    pub fn header(&self) -> (h: Option<(&'static str, &str)>)
        ensures
            h is Some <==> credential_header(self@) is Some,
            h matches Some((name, value)) ==> credential_header(self@) == Some((name@, value@)),
            match self@ {
                CredentialView::Anonymous => h is None,
                CredentialView::SenderToken(t) => h matches Some((name, value)) && name@
                    == "X-Sender-Token"@ && value@ == t,
                CredentialView::ViewerPin(p) => h matches Some((name, value)) && name@
                    == "X-Viewer-Pin"@ && value@ == p,
            },
    {
        match self {
            Credential::Anonymous => None,
            Credential::SenderToken(t) => Some(("X-Sender-Token", t.as_str())),
            Credential::ViewerPin(p) => Some(("X-Viewer-Pin", p.as_str())),
        }
    }
}

/// A request of the signaling protocol.
pub struct Request {
    pub method: Method,
    pub url: String,
    pub credential: Credential,
    /// JSON body.
    pub body: Option<SdpEnvelope>,
}

pub struct RequestView {
    pub method: Method,
    pub url: Seq<char>,
    pub credential: CredentialView,
    pub sdp: Option<Seq<char>>,
}

impl View for Request {
    type V = RequestView;

    open spec fn view(&self) -> RequestView {
        RequestView {
            method: self.method,
            url: self.url@,
            credential: self.credential@,
            sdp: match self.body {
                Some(b) => Some(b.sdp@),
                None => None,
            },
        }
    }
}

/// What a reply means.
#[derive(Clone, Copy, Debug, PartialEq, Eq, Structural)]
pub enum Reply {
    /// The request was granted; the body holds what was asked for.
    Granted,
    /// What was asked for is not there yet.
    Missing,
    /// The PIN is wrong.
    InvalidPin,
    /// Too many wrong PINs were tried.
    Locked,
    /// Any other client or server error.
    Refused,
}

impl Reply {
    pub open spec fn text(self) -> Option<Seq<char>> {
        match self {
            Reply::InvalidPin => Some("invalid PIN"@),
            Reply::Locked => Some("session locked (too many failed PIN attempts)"@),
            _ => None,
        }
    }

    /// What to tell the user, where the reply has words of its own.
    pub fn message(&self) -> (m: Option<&'static str>)
        ensures
            m is Some <==> self.text() is Some,
            m matches Some(s) ==> self.text() == Some(s@),
    {
        match self {
            Reply::InvalidPin => Some("invalid PIN"),
            Reply::Locked => Some("session locked (too many failed PIN attempts)"),
            _ => None,
        }
    }
}

/// Whether a status code reports a client or server error.
pub open spec fn is_error_status(status: u16) -> bool {
    400 <= status <= 599
}

/// Meaning of the status of a request that either works or does not.
pub open spec fn plain_reply(status: u16) -> Reply {
    if is_error_status(status) {
        Reply::Refused
    } else {
        Reply::Granted
    }
}

/// Meaning of the status of a request for something that may not be there yet.
pub open spec fn optional_reply(status: u16) -> Reply {
    if status == 404 {
        Reply::Missing
    } else {
        plain_reply(status)
    }
}

/// Meaning of the status of a request that is guarded by a PIN.
pub open spec fn guarded_reply(status: u16) -> Reply {
    if status == 401 {
        Reply::InvalidPin
    } else if status == 423 {
        Reply::Locked
    } else {
        optional_reply(status)
    }
}

/// URL of a session's resource.
pub open spec fn session_url(base: Seq<char>, id: Seq<char>, leaf: Seq<char>) -> Seq<char> {
    base + "/api/sessions/"@ + id + "/"@ + leaf
}

/// What a client asks of the signaling server.
pub enum Errand {
    CreateSession,
    PutOffer { id: Seq<char>, token: Seq<char>, sdp: Seq<char> },
    GetOffer { id: Seq<char>, pin: Seq<char> },
    PutAnswer { id: Seq<char>, pin: Seq<char>, sdp: Seq<char> },
    GetAnswer { id: Seq<char>, token: Seq<char> },
    PutFallback { id: Seq<char>, token: Seq<char> },
    GetFallback { id: Seq<char> },
}

/// The request that an errand takes.
pub open spec fn request_for(base: Seq<char>, errand: Errand) -> RequestView {
    match errand {
        Errand::CreateSession => RequestView {
            method: Method::Post,
            url: base + "/api/sessions"@,
            credential: CredentialView::Anonymous,
            sdp: None,
        },
        Errand::PutOffer { id, token, sdp } => RequestView {
            method: Method::Put,
            url: session_url(base, id, "offer"@),
            credential: CredentialView::SenderToken(token),
            sdp: Some(sdp),
        },
        Errand::GetOffer { id, pin } => RequestView {
            method: Method::Get,
            url: session_url(base, id, "offer"@),
            credential: CredentialView::ViewerPin(pin),
            sdp: None,
        },
        Errand::PutAnswer { id, pin, sdp } => RequestView {
            method: Method::Put,
            url: session_url(base, id, "answer"@),
            credential: CredentialView::ViewerPin(pin),
            sdp: Some(sdp),
        },
        Errand::GetAnswer { id, token } => RequestView {
            method: Method::Get,
            url: session_url(base, id, "answer"@),
            credential: CredentialView::SenderToken(token),
            sdp: None,
        },
        Errand::PutFallback { id, token } => RequestView {
            method: Method::Put,
            url: session_url(base, id, "fallback"@),
            credential: CredentialView::SenderToken(token),
            sdp: None,
        },
        Errand::GetFallback { id } => RequestView {
            method: Method::Get,
            url: session_url(base, id, "fallback"@),
            credential: CredentialView::Anonymous,
            sdp: None,
        },
    }
}

/// Client of the signaling protocol.
pub struct SignalingClient {
    pub base: String,
}

impl SignalingClient {
    pub fn new(base: String) -> (c: SignalingClient)
        ensures
            c.base@ == base@,
    {
        SignalingClient { base }
    }

    fn resource(&self, id: &str, leaf: &str) -> (url: String)
        ensures
            url@ == session_url(self.base@, id@, leaf@),
    {
        let mut url = self.base.clone();
        url.append("/api/sessions/");
        url.append(id);
        url.append("/");
        url.append(leaf);
        url
    }

    /// Request for a new session.
    pub fn create_session(&self) -> (r: Request)
        ensures
            r@ == request_for(self.base@, Errand::CreateSession),
            r@ == (RequestView {
                method: Method::Post,
                url: self.base@ + "/api/sessions"@,
                credential: CredentialView::Anonymous,
                sdp: None,
            }),
    {
        let mut url = self.base.clone();
        url.append("/api/sessions");
        Request { method: Method::Post, url, credential: Credential::Anonymous, body: None }
    }

    /// Request that posts the sender's offer.
    pub fn put_offer(&self, id: &str, token: &str, sdp: &str) -> (r: Request)
        ensures
            r@ == request_for(self.base@, (Errand::PutOffer { id: id@, token: token@, sdp: sdp@ })),
            r@ == (RequestView {
                method: Method::Put,
                url: session_url(self.base@, id@, "offer"@),
                credential: CredentialView::SenderToken(token@),
                sdp: Some(sdp@),
            }),
    {
        Request {
            method: Method::Put,
            url: self.resource(id, "offer"),
            credential: Credential::SenderToken(token.to_string()),
            body: Some(SdpEnvelope { sdp: sdp.to_string() }),
        }
    }

    /// Request for the sender's offer.
    pub fn get_offer(&self, id: &str, pin: &str) -> (r: Request)
        ensures
            r@ == request_for(self.base@, (Errand::GetOffer { id: id@, pin: pin@ })),
            r@ == (RequestView {
                method: Method::Get,
                url: session_url(self.base@, id@, "offer"@),
                credential: CredentialView::ViewerPin(pin@),
                sdp: None,
            }),
    {
        Request {
            method: Method::Get,
            url: self.resource(id, "offer"),
            credential: Credential::ViewerPin(pin.to_string()),
            body: None,
        }
    }

    /// Request that posts the viewer's answer.
    pub fn put_answer(&self, id: &str, pin: &str, sdp: &str) -> (r: Request)
        ensures
            r@ == request_for(self.base@, (Errand::PutAnswer { id: id@, pin: pin@, sdp: sdp@ })),
            r@ == (RequestView {
                method: Method::Put,
                url: session_url(self.base@, id@, "answer"@),
                credential: CredentialView::ViewerPin(pin@),
                sdp: Some(sdp@),
            }),
    {
        Request {
            method: Method::Put,
            url: self.resource(id, "answer"),
            credential: Credential::ViewerPin(pin.to_string()),
            body: Some(SdpEnvelope { sdp: sdp.to_string() }),
        }
    }

    /// Request for the viewer's answer.
    pub fn get_answer(&self, id: &str, token: &str) -> (r: Request)
        ensures
            r@ == request_for(self.base@, (Errand::GetAnswer { id: id@, token: token@ })),
            r@ == (RequestView {
                method: Method::Get,
                url: session_url(self.base@, id@, "answer"@),
                credential: CredentialView::SenderToken(token@),
                sdp: None,
            }),
    {
        Request {
            method: Method::Get,
            url: self.resource(id, "answer"),
            credential: Credential::SenderToken(token.to_string()),
            body: None,
        }
    }

    /// Request that announces the relay.
    pub fn put_fallback(&self, id: &str, token: &str) -> (r: Request)
        ensures
            r@ == request_for(self.base@, (Errand::PutFallback { id: id@, token: token@ })),
            r@ == (RequestView {
                method: Method::Put,
                url: session_url(self.base@, id@, "fallback"@),
                credential: CredentialView::SenderToken(token@),
                sdp: None,
            }),
    {
        Request {
            method: Method::Put,
            url: self.resource(id, "fallback"),
            credential: Credential::SenderToken(token.to_string()),
            body: None,
        }
    }

    /// Request that asks whether the relay was announced.
    pub fn get_fallback(&self, id: &str) -> (r: Request)
        ensures
            r@ == request_for(self.base@, (Errand::GetFallback { id: id@ })),
            r@ == (RequestView {
                method: Method::Get,
                url: session_url(self.base@, id@, "fallback"@),
                credential: CredentialView::Anonymous,
                sdp: None,
            }),
    {
        Request {
            method: Method::Get,
            url: self.resource(id, "fallback"),
            credential: Credential::Anonymous,
            body: None,
        }
    }

    /// Reads the status of every reply but those to [`SignalingClient::get_offer`]
    /// and [`SignalingClient::get_answer`].
    pub fn read_status(status: u16) -> (r: Reply)
        ensures
            r == plain_reply(status),
    {
        if 400 <= status && status <= 599 {
            Reply::Refused
        } else {
            Reply::Granted
        }
    }

    /// Reads the status of a reply to [`SignalingClient::get_answer`].
    pub fn read_answer_status(status: u16) -> (r: Reply)
        ensures
            r == optional_reply(status),
    {
        if status == 404 {
            Reply::Missing
        } else {
            SignalingClient::read_status(status)
        }
    }

    /// Reads the status of a reply to [`SignalingClient::get_offer`].
    pub fn read_offer_status(status: u16) -> (r: Reply)
        ensures
            r == guarded_reply(status),
    {
        if status == 401 {
            Reply::InvalidPin
        } else if status == 423 {
            Reply::Locked
        } else {
            SignalingClient::read_answer_status(status)
        }
    }
}

/// An error status is never taken for a granted request.
pub proof fn law_errors_are_not_granted(status: u16)
    requires
        is_error_status(status),
    ensures
        plain_reply(status) != Reply::Granted,
        optional_reply(status) != Reply::Granted,
        guarded_reply(status) != Reply::Granted,
{
}

/// Scheme of the relay for a base URL.
pub open spec fn relay_scheme(base: Seq<char>) -> Seq<char> {
    if "https://"@.is_prefix_of(base) {
        "wss://"@
    } else {
        "ws://"@
    }
}

/// A query parameter, if it has a value.
pub open spec fn parameter(name: Seq<char>, value: Option<&str>) -> Seq<char> {
    match value {
        Some(v) => name + v@,
        None => Seq::empty(),
    }
}

/// URL of the relay.
pub open spec fn relay_url(
    base: Seq<char>,
    id: Seq<char>,
    role: Seq<char>,
    token: Option<&str>,
    pin: Option<&str>,
) -> Seq<char> {
    relay_scheme(base) + without_leading(without_leading(base, "https://"@), "http://"@)
        + "/ws/relay/"@ + id + "?role="@ + role + parameter("&token="@, token) + parameter(
        "&pin="@,
        pin,
    )
}

/// Builds the URL of the WebSocket relay. A sender gives its token, a viewer its
/// PIN; of the base only the scheme is changed.
pub fn ws_url(base_http: &str, id: &str, role: &str, token: Option<&str>, pin: Option<&str>) -> (url:
    String)
    ensures
        url@ == relay_url(base_http@, id@, role@, token, pin),
{
    let scheme = if text::starts_with(base_http, "https://") {
        "wss://"
    } else {
        "ws://"
    };
    let rest = text::trim_start_matches(base_http, "https://");
    let host = text::trim_start_matches(rest, "http://");
    let mut url = scheme.to_string();
    url.append(host);
    url.append("/ws/relay/");
    url.append(id);
    url.append("?role=");
    url.append(role);
    match token {
        Some(t) => {
            let ghost before = url@;
            url.append("&token=");
            url.append(t);
            assert(url@ =~= before + parameter("&token="@, token));
        },
        None => {
            assert(url@ =~= url@ + parameter("&token="@, token));
        },
    }
    match pin {
        Some(p) => {
            let ghost before = url@;
            url.append("&pin=");
            url.append(p);
            assert(url@ =~= before + parameter("&pin="@, pin));
        },
        None => {
            assert(url@ =~= url@ + parameter("&pin="@, pin));
        },
    }
    url
}

/// An HTTPS base gives a secure relay on the same host, an HTTP base a plain one.
pub proof fn law_scheme_is_mapped(
    host: Seq<char>,
    id: Seq<char>,
    role: Seq<char>,
    token: Option<&str>,
    pin: Option<&str>,
)
    requires
        !"https://"@.is_prefix_of(host),
        !"http://"@.is_prefix_of(host),
    ensures
        ("wss://"@ + host).is_prefix_of(relay_url("https://"@ + host, id, role, token, pin)),
        ("ws://"@ + host).is_prefix_of(relay_url("http://"@ + host, id, role, token, pin)),
{
    reveal_strlit("https://");
    reveal_strlit("http://");
    reveal_with_fuel(without_leading, 2);
    let secure = "https://"@ + host;
    let plain = "http://"@ + host;
    assert(secure.subrange(0, 8) =~= "https://"@);
    assert(secure.skip(8) =~= host);
    assert(plain.subrange(0, 7) =~= "http://"@);
    assert(plain.skip(7) =~= host);
    assert(plain[4] == ':' && "https://"@[4] == 's');
    assert(!"https://"@.is_prefix_of(plain)) by {
        if "https://"@.is_prefix_of(plain) {
            assert(plain.subrange(0, 8)[4] == plain[4]);
        }
    }
    let a = relay_url(secure, id, role, token, pin);
    let b = relay_url(plain, id, role, token, pin);
    assert(a.subrange(0, ("wss://"@ + host).len() as int) =~= "wss://"@ + host);
    assert(b.subrange(0, ("ws://"@ + host).len() as int) =~= "ws://"@ + host);
}

/// Prepares the backend URL given by the user: slashes at its end are dropped,
/// because every path starts with one.
pub fn backend_base(url: &str) -> (base: String)
    ensures
        base@ == without_trailing(url@, '/'),
{
    text::trim_end_matches(url, '/').to_string()
}

/// A prepared backend URL does not end in a slash.
pub proof fn law_base_has_no_trailing_slash(url: Seq<char>)
    ensures
        without_trailing(url, '/').len() > 0 ==> without_trailing(url, '/').last() != '/',
    decreases url.len(),
{
    if url.len() > 0 && url.last() == '/' {
        law_base_has_no_trailing_slash(url.drop_last());
    }
}

/// What each status means. Asking for something that is not there is not an error,
/// a wrong PIN and a locked session are told apart, and everything from 400 to 599
/// else is refused.
pub proof fn law_meaning_of_statuses(status: u16)
    ensures
        plain_reply(status) == if 400 <= status <= 599 {
            Reply::Refused
        } else {
            Reply::Granted
        },
        optional_reply(404) == Reply::Missing,
        status != 404 ==> optional_reply(status) == plain_reply(status),
        guarded_reply(401) == Reply::InvalidPin,
        guarded_reply(423) == Reply::Locked,
        guarded_reply(404) == Reply::Missing,
        status != 401 && status != 423 && status != 404 ==> guarded_reply(status) == plain_reply(
            status,
        ),
{
}

/// A session's resource is found under its id.
pub proof fn law_session_urls(base: Seq<char>, id: Seq<char>, leaf: Seq<char>)
    ensures
        session_url(base, id, leaf) == base + "/api/sessions/"@ + id + "/"@ + leaf,
{
}

/// The address of the relay: of the base only the scheme is changed, then come the
/// session, the role and the credentials that there are, token before PIN.
pub proof fn law_relay_url_in_full(
    base: Seq<char>,
    id: Seq<char>,
    role: Seq<char>,
    token: &str,
    pin: &str,
)
    ensures
        ({
            let secure = "https://"@.is_prefix_of(base);
            let host = without_leading(without_leading(base, "https://"@), "http://"@);
            let start = (if secure {
                "wss://"@
            } else {
                "ws://"@
            }) + host + "/ws/relay/"@ + id + "?role="@ + role;
            &&& relay_url(base, id, role, None, None) == start
            &&& relay_url(base, id, role, Some(token), None) == start + "&token="@ + token@
            &&& relay_url(base, id, role, None, Some(pin)) == start + "&pin="@ + pin@
            &&& relay_url(base, id, role, Some(token), Some(pin)) == start + "&token="@ + token@
                + "&pin="@ + pin@
        }),
{
    let host = without_leading(without_leading(base, "https://"@), "http://"@);
    let start = relay_scheme(base) + host + "/ws/relay/"@ + id + "?role="@ + role;
    assert(relay_url(base, id, role, None, None) =~= start);
    assert(relay_url(base, id, role, Some(token), None) =~= start + "&token="@ + token@);
    assert(relay_url(base, id, role, None, Some(pin)) =~= start + "&pin="@ + pin@);
    assert(relay_url(base, id, role, Some(token), Some(pin)) =~= start + "&token="@ + token@
        + "&pin="@ + pin@);
}

/// What one side puts the other side gets: an offer and an answer are fetched from
/// where they were put. The sender shows its token, the viewer its PIN, and only the
/// side that has a description sends one.
pub proof fn law_sides_meet(
    base: Seq<char>,
    id: Seq<char>,
    token: Seq<char>,
    pin: Seq<char>,
    sdp: Seq<char>,
)
    ensures
        ({
            let put_offer = request_for(base, Errand::PutOffer { id, token, sdp });
            let get_offer = request_for(base, Errand::GetOffer { id, pin });
            let put_answer = request_for(base, Errand::PutAnswer { id, pin, sdp });
            let get_answer = request_for(base, Errand::GetAnswer { id, token });
            let put_fallback = request_for(base, Errand::PutFallback { id, token });
            let get_fallback = request_for(base, Errand::GetFallback { id });
            let create = request_for(base, Errand::CreateSession);
            &&& put_offer.url == get_offer.url
            &&& put_offer.url == base + "/api/sessions/"@ + id + "/"@ + "offer"@
            &&& put_answer.url == get_answer.url
            &&& put_answer.url == base + "/api/sessions/"@ + id + "/"@ + "answer"@
            &&& put_fallback.url == get_fallback.url
            &&& put_fallback.url == base + "/api/sessions/"@ + id + "/"@ + "fallback"@
            &&& create.url == base + "/api/sessions"@
            &&& put_offer.method == Method::Put && put_answer.method == Method::Put
                && put_fallback.method == Method::Put
            &&& get_offer.method == Method::Get && get_answer.method == Method::Get
                && get_fallback.method == Method::Get
            &&& create.method == Method::Post
            &&& put_offer.credential == CredentialView::SenderToken(token)
            &&& get_answer.credential == CredentialView::SenderToken(token)
            &&& put_fallback.credential == CredentialView::SenderToken(token)
            &&& get_offer.credential == CredentialView::ViewerPin(pin)
            &&& put_answer.credential == CredentialView::ViewerPin(pin)
            &&& get_fallback.credential == CredentialView::Anonymous
            &&& create.credential == CredentialView::Anonymous
            &&& put_offer.sdp == Some(sdp) && put_answer.sdp == Some(sdp)
            &&& get_offer.sdp is None && get_answer.sdp is None && put_fallback.sdp is None
                && get_fallback.sdp is None && create.sdp is None
        }),
{
}

/// A token goes out as a token, a PIN as a PIN, whatever they hold, and without a
/// credential there is no header.
pub proof fn law_credential_headers(secret: Seq<char>)
    ensures
        credential_header(CredentialView::SenderToken(secret)) == Some(
            ("X-Sender-Token"@, secret),
        ),
        credential_header(CredentialView::ViewerPin(secret)) == Some(("X-Viewer-Pin"@, secret)),
        credential_header(CredentialView::Anonymous) is None,
{
}

/// The address that a prepared backend URL stands for is the one given, up to
/// slashes at its end.
pub proof fn law_base_is_the_url_without_slashes(url: Seq<char>)
    ensures
        ({
            let base = without_trailing(url, '/');
            &&& base.len() <= url.len()
            &&& base == url.take(base.len() as int)
            &&& forall|i: int| base.len() <= i < url.len() ==> #[trigger] url[i] == '/'
            &&& base.len() > 0 ==> base.last() != '/'
        }),
{
    crate::text::law_only_the_end_is_dropped(url, '/');
}

/// The view of a request holds what the request holds.
pub proof fn law_views_of_requests(r: Request, secret: String)
    ensures
        Credential::Anonymous@ == CredentialView::Anonymous,
        Credential::SenderToken(secret)@ == CredentialView::SenderToken(secret@),
        Credential::ViewerPin(secret)@ == CredentialView::ViewerPin(secret@),
        r@.method == r.method,
        r@.url == r.url@,
        r@.credential == r.credential@,
        r@.sdp is Some <==> r.body is Some,
        r.body matches Some(b) ==> r@.sdp == Some(b.sdp@),
{
}

} // verus!
