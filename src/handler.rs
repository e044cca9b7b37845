//! The forwarding handler. For each inbound request it either answers at
//! once (the root probe, a CORS preflight) or asks for one upstream call;
//! the outcome of that call is then turned into the reply.
use vstd::prelude::*;
use vstd::string::StringSliceAdditionalSpecFns;

use crate::config::Upstream;
use crate::cors::{cors_headers, cors_policy, distinct_names, lemma_cors_distinct, relay_headers, relayed_headers};
use crate::header::{headers_view, Header, HeaderView};
use crate::target::{target_of, target_url};

verus! {

pub const STATUS_OK: u16 = 200;

pub const STATUS_UNAVAILABLE: u16 = 503;

/// The method of a CORS preflight request.
pub const METHOD_OPTIONS: &'static str = "OPTIONS";

pub const CONTENT_TYPE: &'static str = "content-type";

pub const TEXT_PLAIN: &'static str = "text/plain";

/// The body of the root probe's reply.
pub const IDENTITY: &'static str = "Netty server deployed by Mujahid in Rust";

/// The body of the reply when the upstream cannot be reached.
pub const UNAVAILABLE: &'static str = "Service unavailable";

/// An inbound request. `tail` is the path after the server root, `query`
/// the query string without its '?'.
pub struct Request {
    pub method: String,
    pub tail: String,
    pub query: String,
    pub headers: Vec<Header>,
    pub body: Vec<u8>,
}

pub struct RequestView {
    pub method: Seq<char>,
    pub tail: Seq<char>,
    pub query: Seq<char>,
    pub headers: Seq<HeaderView>,
    pub body: Seq<u8>,
}

impl View for Request {
    type V = RequestView;

    open spec fn view(&self) -> RequestView {
        RequestView {
            method: self.method@,
            tail: self.tail@,
            query: self.query@,
            headers: headers_view(self.headers@),
            body: self.body@,
        }
    }
}

/// A reply to the caller, with a fully buffered body.
pub struct Reply {
    pub status: u16,
    pub headers: Vec<Header>,
    pub body: Vec<u8>,
}

pub struct ReplyView {
    pub status: u16,
    pub headers: Seq<HeaderView>,
    pub body: Seq<u8>,
}

impl View for Reply {
    type V = ReplyView;

    open spec fn view(&self) -> ReplyView {
        ReplyView { status: self.status, headers: headers_view(self.headers@), body: self.body@ }
    }
}

/// The call to make to the upstream.
pub struct Call {
    pub method: String,
    pub url: String,
    pub headers: Vec<Header>,
    pub body: Vec<u8>,
}

pub struct CallView {
    pub method: Seq<char>,
    pub url: Seq<char>,
    pub headers: Seq<HeaderView>,
    pub body: Seq<u8>,
}

impl View for Call {
    type V = CallView;

    open spec fn view(&self) -> CallView {
        CallView {
            method: self.method@,
            url: self.url@,
            headers: headers_view(self.headers@),
            body: self.body@,
        }
    }
}

/// What the handler does with a request.
pub enum Step {
    /// Answer at once, without the upstream.
    Answer(Reply),
    /// Make this call to the upstream, then `finish` with its outcome.
    Forward(Call),
}

pub enum StepView {
    Answer(ReplyView),
    Forward(CallView),
}

impl View for Step {
    type V = StepView;

    open spec fn view(&self) -> StepView {
        match self {
            Step::Answer(r) => StepView::Answer(r@),
            Step::Forward(c) => StepView::Forward(c@),
        }
    }
}

/// What came of the upstream call.
pub enum Outcome {
    /// No status line was obtained: DNS, connect, TLS, timeout or any other
    /// transport failure.
    Unreachable,
    /// The upstream answered; `body` is `None` when reading it failed.
    Responded { status: u16, headers: Vec<Header>, body: Option<Vec<u8>> },
}

pub enum OutcomeView {
    Unreachable,
    Responded { status: u16, headers: Seq<HeaderView>, body: Option<Seq<u8>> },
}

impl View for Outcome {
    type V = OutcomeView;

    open spec fn view(&self) -> OutcomeView {
        match self {
            Outcome::Unreachable => OutcomeView::Unreachable,
            Outcome::Responded { status, headers, body } => OutcomeView::Responded {
                status: *status,
                headers: headers_view(headers@),
                body: match body {
                    Some(b) => Some(b@),
                    None => None,
                },
            },
        }
    }
}

/// How a request is classified, in this order of precedence.
#[derive(Debug, Clone, Copy, PartialEq, Eq, Structural)]
pub enum Route {
    /// The tail is empty: the identification reply.
    Root,
    /// The method is OPTIONS: the preflight reply.
    Preflight,
    /// Everything else goes to the upstream.
    Forward,
}

pub open spec fn route_of(tail: Seq<char>, method: Seq<char>) -> Route {
    if tail.len() == 0 {
        Route::Root
    } else if method == METHOD_OPTIONS@ {
        Route::Preflight
    } else {
        Route::Forward
    }
}

/// The reply to the root probe.
pub open spec fn root_reply() -> ReplyView {
    ReplyView {
        status: STATUS_OK,
        headers: seq![(CONTENT_TYPE@, TEXT_PLAIN.spec_bytes())],
        body: IDENTITY.spec_bytes(),
    }
}

/// The reply to a preflight: the CORS fields and no body.
pub open spec fn preflight_reply() -> ReplyView {
    ReplyView { status: STATUS_OK, headers: cors_policy(), body: Seq::empty() }
}

/// The reply when the upstream cannot be reached. It carries the CORS fields
/// too, so that a browser lets the page see the failure.
pub open spec fn unavailable_reply() -> ReplyView {
    ReplyView {
        status: STATUS_UNAVAILABLE,
        headers: cors_policy().push((CONTENT_TYPE@, TEXT_PLAIN.spec_bytes())),
        body: UNAVAILABLE.spec_bytes(),
    }
}

/// The call that forwards a request: same method, headers and body, to the
/// joined address.
pub open spec fn call_of(base: Seq<char>, req: RequestView) -> CallView {
    CallView {
        method: req.method,
        url: target_of(base, req.tail, req.query),
        headers: req.headers,
        body: req.body,
    }
}

pub open spec fn step_of(base: Seq<char>, req: RequestView) -> StepView {
    match route_of(req.tail, req.method) {
        Route::Root => StepView::Answer(root_reply()),
        Route::Preflight => StepView::Answer(preflight_reply()),
        Route::Forward => StepView::Forward(call_of(base, req)),
    }
}

/// The reply for an outcome of the upstream call: the upstream's status
/// as it is, the relayed fields, and its body, empty if reading it failed.
pub open spec fn reply_of(outcome: OutcomeView) -> ReplyView {
    match outcome {
        OutcomeView::Unreachable => unavailable_reply(),
        OutcomeView::Responded { status, headers, body } => ReplyView {
            status,
            headers: relayed_headers(headers),
            body: match body {
                Some(b) => b,
                None => Seq::empty(),
            },
        },
    }
}

/// The whole handling of a request, given what the upstream would do.
pub open spec fn handled(base: Seq<char>, req: RequestView, outcome: OutcomeView) -> ReplyView {
    match step_of(base, req) {
        StepView::Answer(r) => r,
        StepView::Forward(_) => reply_of(outcome),
    }
}

/// Classifies a request by its tail and method.
pub fn route(tail: &str, method: &str) -> (r: Route)
    ensures
        r == route_of(tail@, method@),
{
    if tail.is_empty() {
        Route::Root
    } else if method.to_owned() == METHOD_OPTIONS.to_owned() {
        Route::Preflight
    } else {
        Route::Forward
    }
}

fn plain_text_header() -> (r: Header)
    ensures
        r@ == (CONTENT_TYPE@, TEXT_PLAIN.spec_bytes()),
{
    Header::new(CONTENT_TYPE, TEXT_PLAIN.as_bytes())
}

/// The identification reply of the root probe.
pub fn root() -> (r: Reply)
    ensures
        r@ == root_reply(),
{
    let mut headers: Vec<Header> = Vec::new();
    headers.push(plain_text_header());
    let r = Reply { status: STATUS_OK, headers, body: vstd::slice::slice_to_vec(IDENTITY.as_bytes()) };
    assert(r@.headers =~= root_reply().headers);
    r
}

/// The reply to a CORS preflight.
pub fn preflight() -> (r: Reply)
    ensures
        r@ == preflight_reply(),
{
    let r = Reply { status: STATUS_OK, headers: cors_headers(), body: Vec::new() };
    assert(r@.body =~= Seq::<u8>::empty());
    r
}

/// The reply when the upstream cannot be reached.
pub fn unavailable() -> (r: Reply)
    ensures
        r@ == unavailable_reply(),
{
    let mut headers = cors_headers();
    headers.push(plain_text_header());
    let r = Reply {
        status: STATUS_UNAVAILABLE,
        headers,
        body: vstd::slice::slice_to_vec(UNAVAILABLE.as_bytes()),
    };
    assert(r@.headers =~= unavailable_reply().headers);
    r
}

/// What to do with an inbound request: answer the root probe or a
/// preflight at once, or forward it to the upstream unchanged.
pub fn begin(upstream: &Upstream, req: Request) -> (s: Step)
    ensures
        s@ == step_of(upstream@, req@),
{
    match route(req.tail.as_str(), req.method.as_str()) {
        Route::Root => Step::Answer(root()),
        Route::Preflight => Step::Answer(preflight()),
        Route::Forward => {
            let url = target_url(upstream.base(), req.tail.as_str(), req.query.as_str());
            Step::Forward(Call { method: req.method, url, headers: req.headers, body: req.body })
        },
    }
}

/// The reply for what came of the upstream call.
pub fn finish(outcome: Outcome) -> (r: Reply)
    ensures
        r@ == reply_of(outcome@),
{
    match outcome {
        Outcome::Unreachable => unavailable(),
        Outcome::Responded { status, headers, body } => {
            let relayed = relay_headers(&headers);
            let body = match body {
                Some(b) => b,
                None => Vec::new(),
            };
            let r = Reply { status, headers: relayed, body };
            assert(r@.body =~= reply_of(outcome@).body);
            r
        },
    }
}

/// A request with an empty tail gets the identification reply, whatever its
/// method, and the upstream is not called.
pub proof fn lemma_root_probe(base: Seq<char>, req: RequestView, outcome: OutcomeView)
    requires
        req.tail.len() == 0,
    ensures
        step_of(base, req) == StepView::Answer(root_reply()),
        handled(base, req, outcome).status == STATUS_OK,
        handled(base, req, outcome).body == IDENTITY.spec_bytes(),
{
}

/// An OPTIONS request with a non-empty tail gets status 200, no body, and
/// exactly the three CORS fields, each once; the upstream is not called.
pub proof fn lemma_preflight(base: Seq<char>, req: RequestView, outcome: OutcomeView)
    requires
        req.tail.len() > 0,
        req.method == METHOD_OPTIONS@,
    ensures
        step_of(base, req) == StepView::Answer(preflight_reply()),
        handled(base, req, outcome).status == STATUS_OK,
        handled(base, req, outcome).body.len() == 0,
        handled(base, req, outcome).headers == cors_policy(),
        distinct_names(handled(base, req, outcome).headers),
{
    lemma_cors_distinct();
}

/// Any other request is forwarded as it came: same method, headers and
/// body, to the joined address. When the upstream answers with status `s`,
/// fields `h` and body `b`, the caller gets `s`, `b`, and the fields of
/// `relayed_headers(h)`.
pub proof fn lemma_forwarded(
    base: Seq<char>,
    req: RequestView,
    s: u16,
    h: Seq<HeaderView>,
    b: Seq<u8>,
)
    requires
        req.tail.len() > 0,
        req.method != METHOD_OPTIONS@,
    ensures
        step_of(base, req) == StepView::Forward(call_of(base, req)),
        call_of(base, req).method == req.method,
        call_of(base, req).url == target_of(base, req.tail, req.query),
        call_of(base, req).headers == req.headers,
        call_of(base, req).body == req.body,
        handled(base, req, OutcomeView::Responded { status: s, headers: h, body: Some(b) })
            == (ReplyView { status: s, headers: relayed_headers(h), body: b }),
{
}

/// A forwarded request whose upstream cannot be reached gets status 503
/// and a non-empty plain-text body.
pub proof fn lemma_unreachable(base: Seq<char>, req: RequestView)
    requires
        req.tail.len() > 0,
        req.method != METHOD_OPTIONS@,
    ensures
        handled(base, req, OutcomeView::Unreachable).status == STATUS_UNAVAILABLE,
        handled(base, req, OutcomeView::Unreachable).body.len() > 0,
        handled(base, req, OutcomeView::Unreachable).headers.contains(
            (CONTENT_TYPE@, TEXT_PLAIN.spec_bytes()),
        ),
{
    broadcast use vstd::string::is_ascii_spec_bytes;

    reveal_strlit("Service unavailable");
    assert(vstd::string::is_ascii(UNAVAILABLE));
    let r = unavailable_reply();
    assert(r.headers[3] == (CONTENT_TYPE@, TEXT_PLAIN.spec_bytes()));
}

/// The handler keeps no state: the same request, met by the same upstream
/// outcome, gets the same reply each time.
pub proof fn lemma_repeatable(
    base: Seq<char>,
    first: RequestView,
    second: RequestView,
    first_outcome: OutcomeView,
    second_outcome: OutcomeView,
)
    requires
        first == second,
        first_outcome == second_outcome,
    ensures
        handled(base, first, first_outcome) == handled(base, second, second_outcome),
{
}

} // verus!
