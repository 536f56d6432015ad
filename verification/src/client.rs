//! The protocol client, as a state machine.
//!
//! Fetching one resource is a series of exchanges: connect to the host, send
//! the request line, read the response, and either finish or follow a
//! redirect with another exchange. The exchanges themselves are the
//! caller's work. What is decided between them is decided here: a [`Fetch`]
//! says what to ask for, and [`Fetch::advance`] says what an exchange's
//! outcome leads to.

use crate::error::{FetchError, Refusal};
use crate::header::{gemini_text, GeminiHeader, HeaderView};
use crate::resource::{Resource, ResourceView};
use crate::response::{parsed_response, GeminiResponse, ResponseView};
use crate::text::{to_chars, to_string};
use vstd::prelude::*;

verus! {

/// The number of redirects in a row that are followed, unless a fetch is
/// started with a limit of its own.
pub const MAX_REDIRECT: usize = 256;

/// A fetch in progress: the resource to ask for next, the number of
/// redirects followed so far, and the number of redirects that may be
/// followed in all.
#[derive(Debug)]
pub struct Fetch {
    target: Resource,
    redirects: usize,
    limit: usize,
}

/// How one exchange with a server ended.
#[derive(Debug)]
pub enum FetchEvent {
    /// No connection to the host could be made.
    ConnectFailed,
    /// The secure transport could not be set up.
    HandshakeFailed,
    /// The request could not be sent.
    WriteFailed,
    /// The response could not be read.
    ReadFailed,
    /// A stage took longer than the time allowed.
    TimedOut,
    /// The server answered with this text.
    Received(String),
}

/// What follows an exchange.
#[derive(Debug)]
pub enum FetchStep {
    /// Another exchange is due.
    Request(Fetch),
    /// The fetch is over and yielded a document.
    Done(GeminiResponse),
    /// The fetch is over and failed.
    Failed(FetchError),
}

/// The mathematical content of a [`Fetch`].
pub ghost struct FetchView {
    pub target: ResourceView,
    pub redirects: nat,
    pub limit: nat,
}

/// A fetch of `target` that has followed no redirect yet and may follow
/// `limit` of them.
pub open spec fn started(target: ResourceView, limit: nat) -> FetchView {
    FetchView { target, redirects: 0, limit }
}

/// The mathematical content of a [`FetchEvent`].
pub ghost enum EventView {
    ConnectFailed,
    HandshakeFailed,
    WriteFailed,
    ReadFailed,
    TimedOut,
    Received(Seq<char>),
}

/// The mathematical content of a [`FetchStep`].
pub ghost enum StepView {
    Request(FetchView),
    Done(ResponseView),
    Failed(FetchError),
}

impl View for Fetch {
    type V = FetchView;

    closed spec fn view(&self) -> FetchView {
        FetchView {
            target: self.target@,
            redirects: self.redirects as nat,
            limit: self.limit as nat,
        }
    }
}

impl View for FetchEvent {
    type V = EventView;

    open spec fn view(&self) -> EventView {
        match self {
            FetchEvent::ConnectFailed => EventView::ConnectFailed,
            FetchEvent::HandshakeFailed => EventView::HandshakeFailed,
            FetchEvent::WriteFailed => EventView::WriteFailed,
            FetchEvent::ReadFailed => EventView::ReadFailed,
            FetchEvent::TimedOut => EventView::TimedOut,
            FetchEvent::Received(text) => EventView::Received(text@),
        }
    }
}

impl View for FetchStep {
    type V = StepView;

    open spec fn view(&self) -> StepView {
        match self {
            FetchStep::Request(fetch) => StepView::Request(fetch@),
            FetchStep::Done(response) => StepView::Done(response@),
            FetchStep::Failed(e) => StepView::Failed(*e),
        }
    }
}

/// The port that servers listen on.
pub open spec fn port_suffix() -> Seq<char> {
    seq![':', '1', '9', '6', '5']
}

/// The end of a request line.
pub open spec fn line_end() -> Seq<char> {
    seq!['\r', '\n']
}

/// What a response leads to. Native text ends the fetch with the document;
/// any other media type is not supported. A redirect leads to another
/// exchange, unless as many redirects as the fetch may follow have been
/// followed already.
/// Every other class of response is a refusal.
pub open spec fn decided(fetch: FetchView, response: ResponseView) -> StepView {
    match response.header {
        HeaderView::Success(media) => if media.essence == gemini_text() {
            StepView::Done(response)
        } else {
            StepView::Failed(FetchError::UnsupportedMediaType)
        },
        HeaderView::Redirect(target) => if fetch.redirects < fetch.limit {
            StepView::Request(
                FetchView { target, redirects: fetch.redirects + 1, limit: fetch.limit },
            )
        } else {
            StepView::Failed(FetchError::RedirectLimitExceeded)
        },
        HeaderView::Input(_) => StepView::Failed(
            FetchError::ProtocolLevelFailure(Refusal::Input),
        ),
        HeaderView::TempFail(_) => StepView::Failed(
            FetchError::ProtocolLevelFailure(Refusal::TempFail),
        ),
        HeaderView::PermFail(_) => StepView::Failed(
            FetchError::ProtocolLevelFailure(Refusal::PermFail),
        ),
        HeaderView::Auth(_) => StepView::Failed(FetchError::ProtocolLevelFailure(Refusal::Auth)),
    }
}

/// What the outcome of an exchange leads to. A failure of the transport ends
/// the fetch; it is never tried again. A response that cannot be read ends
/// it too; one that can is acted on.
pub open spec fn advanced(fetch: FetchView, event: EventView) -> StepView {
    match event {
        EventView::ConnectFailed => StepView::Failed(FetchError::ConnectFailure),
        EventView::HandshakeFailed => StepView::Failed(FetchError::HandshakeFailure),
        EventView::WriteFailed => StepView::Failed(FetchError::WriteFailure),
        EventView::ReadFailed => StepView::Failed(FetchError::ReadFailure),
        EventView::TimedOut => StepView::Failed(FetchError::StageTimeout),
        EventView::Received(text) => match parsed_response(text, fetch.target) {
            Err(e) => StepView::Failed(e),
            Ok(response) => decided(fetch, response),
        },
    }
}

/// Where a fetch stands after a series of exchanges ended as `events` say.
/// Once the fetch is over, further events change nothing.
pub open spec fn run(step: StepView, events: Seq<EventView>) -> StepView
    decreases events.len(),
{
    if events.len() == 0 {
        step
    } else {
        match step {
            StepView::Request(fetch) => run(advanced(fetch, events[0]), events.drop_first()),
            _ => step,
        }
    }
}

/// The resource that the server redirects to, where `event` is a redirect
/// received for `target`.
pub open spec fn redirect_of(target: ResourceView, event: EventView) -> Option<ResourceView> {
    match event {
        EventView::Received(text) => match parsed_response(text, target) {
            Ok(response) => match response.header {
                HeaderView::Redirect(next) => Some(next),
                _ => None,
            },
            Err(_) => None,
        },
        _ => None,
    }
}

/// Whether `events` is a chain of redirects that starts at `target`: the
/// first is a redirect received for `target`, and each one after it is a
/// redirect received for the resource that the one before redirects to.
pub open spec fn redirect_chain(target: ResourceView, events: Seq<EventView>) -> bool
    decreases events.len(),
{
    events.len() == 0 || match redirect_of(target, events[0]) {
        Some(next) => redirect_chain(next, events.drop_first()),
        None => false,
    }
}

/// The resource at the end of a chain of redirects that starts at `target`.
pub open spec fn chain_end(target: ResourceView, events: Seq<EventView>) -> ResourceView
    decreases events.len(),
{
    if events.len() == 0 {
        target
    } else {
        match redirect_of(target, events[0]) {
            Some(next) => chain_end(next, events.drop_first()),
            None => target,
        }
    }
}

/// Whether `event` is a response received for `target` that carries a
/// document of the native text format.
pub open spec fn delivers(target: ResourceView, event: EventView) -> bool {
    match event {
        EventView::Received(text) => match parsed_response(text, target) {
            Ok(response) => match response.header {
                HeaderView::Success(media) => media.essence == gemini_text(),
                _ => false,
            },
            Err(_) => false,
        },
        _ => false,
    }
}

/// A fetch that has followed `fetch.redirects` redirects follows a chain of
/// further ones as long as the total stays within its limit, and fails at
/// the redirect that would exceed it.
pub proof fn lemma_chain_from(fetch: FetchView, events: Seq<EventView>)
    requires
        redirect_chain(fetch.target, events),
        fetch.redirects + events.len() <= fetch.limit + 1,
    ensures
        fetch.redirects + events.len() <= fetch.limit ==> run(StepView::Request(fetch), events)
            == StepView::Request(
            FetchView {
                target: chain_end(fetch.target, events),
                redirects: fetch.redirects + events.len(),
                limit: fetch.limit,
            },
        ),
        events.len() > 0 && fetch.redirects + events.len() == fetch.limit + 1 ==> run(
            StepView::Request(fetch),
            events,
        ) == StepView::Failed(FetchError::RedirectLimitExceeded),
    decreases events.len(),
{
    if events.len() > 0 {
        let next = redirect_of(fetch.target, events[0]).unwrap();
        let rest = events.drop_first();
        assert(run(StepView::Request(fetch), events) == run(advanced(fetch, events[0]), rest));
        if fetch.redirects < fetch.limit {
            let after = FetchView {
                target: next,
                redirects: fetch.redirects + 1,
                limit: fetch.limit,
            };
            lemma_chain_from(after, rest);
        }
    }
}

/// `run` through `first + rest` is `run` through `rest` from where `run`
/// through `first` ends.
pub proof fn lemma_run_append(step: StepView, first: Seq<EventView>, rest: Seq<EventView>)
    ensures
        run(step, first + rest) == run(run(step, first), rest),
    decreases first.len(),
{
    if first.len() > 0 {
        assert((first + rest).drop_first() == first.drop_first() + rest);
        match step {
            StepView::Request(fetch) => {
                lemma_run_append(advanced(fetch, first[0]), first.drop_first(), rest);
            },
            _ => {},
        }
    }
}

/// The redirect bound. A fetch of `start` that may follow `limit` redirects
/// and meets a chain of exactly `limit + 1` of them fails with
/// `RedirectLimitExceeded`. One that meets a chain of at most `limit`
/// redirects and then a document of the native text format ends with that
/// document. A fetch started without a limit of its own has the limit
/// `MAX_REDIRECT`.
pub proof fn law_redirect_bound(
    start: ResourceView,
    limit: nat,
    hops: Seq<EventView>,
    last: EventView,
)
    requires
        redirect_chain(start, hops),
    ensures
        hops.len() == limit + 1 ==> run(StepView::Request(started(start, limit)), hops)
            == StepView::Failed(FetchError::RedirectLimitExceeded),
        hops.len() <= limit && delivers(chain_end(start, hops), last) ==> run(
            StepView::Request(started(start, limit)),
            hops.push(last),
        ) == StepView::Done(
            parsed_response(last->Received_0, chain_end(start, hops)).unwrap(),
        ),
{
    let fetch = started(start, limit);
    if hops.len() <= limit + 1 {
        lemma_chain_from(fetch, hops);
    }
    if hops.len() <= limit && delivers(chain_end(start, hops), last) {
        let at_end = FetchView { target: chain_end(start, hops), redirects: hops.len(), limit };
        assert(hops.push(last) == hops + seq![last]);
        lemma_run_append(StepView::Request(fetch), hops, seq![last]);
        let one = seq![last];
        assert(run(StepView::Request(at_end), one) == run(
            advanced(at_end, last),
            one.drop_first(),
        ));
    }
}

impl Fetch {
    /// A fetch of `resource` that has followed no redirect yet and may
    /// follow `MAX_REDIRECT` of them.
    pub fn start(resource: Resource) -> (fetch: Fetch)
        ensures
            fetch@ == started(resource@, MAX_REDIRECT as nat),
    {
        Fetch { target: resource, redirects: 0, limit: MAX_REDIRECT }
    }

    /// A fetch of `resource` that has followed no redirect yet and may
    /// follow `limit` of them.
    pub fn with_limit(resource: Resource, limit: usize) -> (fetch: Fetch)
        ensures
            fetch@ == started(resource@, limit as nat),
    {
        Fetch { target: resource, redirects: 0, limit }
    }

    /// The number of redirects that may be followed in all.
    pub fn limit(&self) -> (n: usize)
        ensures
            n == self@.limit,
    {
        self.limit
    }

    /// The resource to ask for in the next exchange.
    pub fn target(&self) -> (resource: &Resource)
        ensures
            resource@ == self@.target,
    {
        &self.target
    }

    /// The number of redirects followed so far.
    pub fn redirects(&self) -> (n: usize)
        ensures
            n == self@.redirects,
    {
        self.redirects
    }

    /// The address to connect to: the target's domain and the protocol's
    /// port. A target without a domain has none.
    pub fn authority(&self) -> (address: Option<String>)
        ensures
            match address {
                Some(a) => self@.target.domain is Some && a@ == self@.target.domain->0
                    + port_suffix(),
                None => self@.target.domain is None,
            },
    {
        match self.target.domain() {
            Some(domain) => {
                let mut out = to_chars(domain);
                out.push(':');
                out.push('1');
                out.push('9');
                out.push('6');
                out.push('5');
                Some(to_string(&out))
            },
            None => None,
        }
    }

    /// The request line to send: the target in full, and a line end.
    pub fn request(&self) -> (line: String)
        ensures
            line@ == self@.target.text + line_end(),
    {
        let mut out = to_chars(self.target.as_str());
        out.push('\r');
        out.push('\n');
        to_string(&out)
    }

    /// What the response `response` leads to.
    pub fn decide(self, response: GeminiResponse) -> (step: FetchStep)
        ensures
            step@ == decided(self@, response@),
    {
        match &response.header {
            GeminiHeader::Success(media) => {
                if media.is_gemini_text() {
                    FetchStep::Done(response)
                } else {
                    FetchStep::Failed(FetchError::UnsupportedMediaType)
                }
            },
            GeminiHeader::Redirect(target) => {
                if self.redirects < self.limit {
                    FetchStep::Request(
                        Fetch {
                            target: target.clone(),
                            redirects: self.redirects + 1,
                            limit: self.limit,
                        },
                    )
                } else {
                    FetchStep::Failed(FetchError::RedirectLimitExceeded)
                }
            },
            GeminiHeader::Input(_) => FetchStep::Failed(
                FetchError::ProtocolLevelFailure(Refusal::Input),
            ),
            GeminiHeader::TempFail(_) => FetchStep::Failed(
                FetchError::ProtocolLevelFailure(Refusal::TempFail),
            ),
            GeminiHeader::PermFail(_) => FetchStep::Failed(
                FetchError::ProtocolLevelFailure(Refusal::PermFail),
            ),
            GeminiHeader::Auth(_) => FetchStep::Failed(
                FetchError::ProtocolLevelFailure(Refusal::Auth),
            ),
        }
    }

    /// What the outcome `event` of the exchange leads to.
    pub fn advance(self, event: FetchEvent) -> (step: FetchStep)
        ensures
            step@ == advanced(self@, event@),
    {
        match event {
            FetchEvent::ConnectFailed => FetchStep::Failed(FetchError::ConnectFailure),
            FetchEvent::HandshakeFailed => FetchStep::Failed(FetchError::HandshakeFailure),
            FetchEvent::WriteFailed => FetchStep::Failed(FetchError::WriteFailure),
            FetchEvent::ReadFailed => FetchStep::Failed(FetchError::ReadFailure),
            FetchEvent::TimedOut => FetchStep::Failed(FetchError::StageTimeout),
            FetchEvent::Received(text) => match GeminiResponse::new(text.as_str(), &self.target) {
                Err(e) => FetchStep::Failed(e),
                Ok(response) => self.decide(response),
            },
        }
    }
}

} // verus!
