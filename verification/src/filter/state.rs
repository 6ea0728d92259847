//! The states of an exchange and what each event makes of them.

use vstd::prelude::*;
use crate::config::Policy;
use crate::patterns::matcher::{redaction, Redaction};
use crate::text::{holds, parsed_usize};

verus! {

/// Whether a bypass entry exempts a path: an entry that ends in `*` exempts
/// every path that begins with what stands before the `*`, any other entry
/// the path equal to it.
pub open spec fn entry_exempts(entry: Seq<char>, path: Seq<char>) -> bool {
    if entry.len() > 0 && entry.last() == '*' {
        entry.drop_last().is_prefix_of(path)
    } else {
        path == entry
    }
}

/// Whether one of the bypass entries exempts the path.
pub open spec fn exempts(entries: Seq<Seq<char>>, path: Seq<char>) -> bool {
    exists|k: int| 0 <= k < entries.len() && entry_exempts(#[trigger] entries[k], path)
}

/// Whether a content type, in lower case, is one of text or of structured
/// data.
pub open spec fn is_textual(content_type: Seq<char>) -> bool {
    holds(content_type, "json"@) || holds(content_type, "text"@)
}

/// Where an exchange stands.
#[derive(Clone, Copy, PartialEq, Eq, Structural, Debug)]
pub enum Phase {
    /// The request headers have not come yet.
    Undetermined,
    /// The request path is exempt: the response will not be scrubbed.
    Bypassed,
    /// The request path is not exempt.
    Scrubbing,
    /// The response of a bypassed exchange is on its way.
    PassThrough,
    /// The content type is neither text nor structured data.
    GatedByType,
    /// The declared length is over the limit.
    GatedBySize,
    /// The body will be scanned once it is complete.
    WillScrub,
    /// Part of the body has come.
    Accumulating,
    /// The body is complete and within the limit; the host is asked for it.
    Finalizing,
    /// The body has gone out, scrubbed or as it was.
    Done,
}

impl Phase {
    /// Whether the response is still to be scrubbed, or has been.
    pub open spec fn scrubs(self) -> bool {
        !self.is_closed()
    }

    /// Whether nothing will be scanned any more, whatever comes: the
    /// exchange is bypassed or gated.
    pub open spec fn is_closed(self) -> bool {
        self == Phase::Bypassed || self == Phase::PassThrough || self == Phase::GatedByType
            || self == Phase::GatedBySize
    }

    /// Whether the response is still to be scrubbed, or has been.
    pub fn should_scrub(self) -> (r: bool)
        ensures
            r == self.scrubs(),
    {
        match self {
            Phase::Bypassed | Phase::PassThrough | Phase::GatedByType | Phase::GatedBySize => false,
            _ => true,
        }
    }
}

/// What was decided on the response headers. Its marker is what the
/// diagnostic header `X-WASM-Scrub` reports.
#[derive(Clone, Copy, PartialEq, Eq, Structural, Debug)]
pub enum ScrubOutcome {
    /// The request path is exempt.
    Bypassed,
    /// The content type is neither text nor structured data.
    NonText,
    /// The declared length is over the limit.
    TooLarge,
    /// The body will be scanned once it is complete.
    WillScrub,
}

/// What is to be done on a chunk of the response body.
#[derive(Clone, Copy, PartialEq, Eq, Structural, Debug)]
pub enum BodyAction {
    /// Let the chunk pass.
    Continue,
    /// The body is complete: fetch its first `size` bytes and hand them to
    /// `scrub`.
    Scan { size: usize },
}

impl ScrubOutcome {
    /// The value of the diagnostic header that records the outcome.
    pub open spec fn marker_text(self) -> Seq<char> {
        match self {
            ScrubOutcome::Bypassed => "bypassed"@,
            ScrubOutcome::NonText => "non-text"@,
            ScrubOutcome::TooLarge => "too-large"@,
            ScrubOutcome::WillScrub => "will-scrub"@,
        }
    }

    /// The value of the diagnostic header that records the outcome.
    pub fn marker(self) -> (r: &'static str)
        ensures
            r@ == self.marker_text(),
    {
        match self {
            ScrubOutcome::Bypassed => "bypassed",
            ScrubOutcome::NonText => "non-text",
            ScrubOutcome::TooLarge => "too-large",
            ScrubOutcome::WillScrub => "will-scrub",
        }
    }

    /// Whether the declared content length is to be removed from the
    /// response: it is wherever the body may still be rewritten, since a
    /// rewritten body may have another length.
    pub fn removes_content_length(self) -> (r: bool)
        ensures
            r == (self == ScrubOutcome::WillScrub),
    {
        match self {
            ScrubOutcome::WillScrub => true,
            _ => false,
        }
    }

    /// The diagnostic headers to put on the response, as names and values:
    /// one that says the filter is active, one that records the outcome.
    /// They can only go out with the response headers; once the body has
    /// begun, the headers are on their way.
    pub fn diagnostic_headers(self) -> (r: [(&'static str, &'static str); 2])
        ensures
            r[0].0@ == "X-WASM-Active"@,
            r[0].1@ == "true"@,
            r[1].0@ == "X-WASM-Scrub"@,
            r[1].1@ == self.marker_text(),
    {
        [("X-WASM-Active", "true"), ("X-WASM-Scrub", self.marker())]
    }
}

/// What can happen to an exchange.
pub enum Event {
    /// The request headers have come, with this path if they have one.
    RequestHeaders { path: Option<Seq<char>> },
    /// The response headers have come, with this content type, put in lower
    /// case, and this declared length, where the response has them.
    ResponseHeaders { content_type: Option<Seq<char>>, content_length: Option<Seq<char>> },
    /// A chunk of the response body has come.
    Body { size: nat, end_of_stream: bool },
    /// The host has answered the request for the accumulated body.
    Fetched { body: Option<Seq<u8>> },
}

/// The state of one exchange.
pub struct ExchangeState {
    /// The number the host gave the exchange.
    pub id: u32,
    /// The policy the filter was created with.
    pub policy: Policy,
    /// The request path, once it is known.
    pub request_path: Seq<char>,
    /// Where the exchange stands.
    pub phase: Phase,
    /// Whether the response has a content type that is known to be one of
    /// text or of structured data.
    pub content_type_known_textual: bool,
    /// The length of the body chunks seen so far.
    pub accumulated_bytes: nat,
}

impl ExchangeState {
    /// The state of an exchange that has just begun.
    pub open spec fn begin(id: u32, policy: Policy) -> ExchangeState {
        ExchangeState {
            id,
            policy,
            request_path: Seq::empty(),
            phase: Phase::Undetermined,
            content_type_known_textual: false,
            accumulated_bytes: 0,
        }
    }

    /// Whether the response is still to be scrubbed, or has been.
    pub open spec fn should_scrub(self) -> bool {
        self.phase.scrubs()
    }

    /// The state after the request headers: the response will be scrubbed
    /// unless the path is exempt. This is decided once; request headers that
    /// come again change nothing.
    pub open spec fn after_request_headers(self, path: Option<Seq<char>>) -> ExchangeState {
        if self.phase != Phase::Undetermined {
            self
        } else {
            match path {
                Some(p) => ExchangeState {
                    request_path: p,
                    phase: if exempts(self.policy.bypass_paths, p) {
                        Phase::Bypassed
                    } else {
                        Phase::Scrubbing
                    },
                    ..self
                },
                None => ExchangeState { phase: Phase::Scrubbing, ..self },
            }
        }
    }

    /// Whether the response declares a length and that length is over the
    /// limit. A length that is no number is no length.
    pub open spec fn declared_too_large(self, content_length: Option<Seq<char>>) -> bool {
        content_length matches Some(l) && parsed_usize(l) matches Some(n) && n
            > self.policy.max_body_bytes
    }

    /// Whether the response headers have not come yet.
    pub open spec fn awaits_response(self) -> bool {
        self.phase == Phase::Undetermined || self.phase == Phase::Scrubbing
    }

    /// The state after the response headers, given the content type in lower
    /// case and the declared length, where the response has them. Of a
    /// bypassed exchange they are not looked at. Else the type is looked at
    /// first, then the length; either can gate the exchange. Response
    /// headers that come again can still gate it, and change nothing else.
    pub open spec fn after_response_headers(
        self,
        content_type: Option<Seq<char>>,
        content_length: Option<Seq<char>>,
    ) -> ExchangeState {
        if self.phase == Phase::Bypassed {
            ExchangeState { phase: Phase::PassThrough, ..self }
        } else if self.phase.is_closed() {
            self
        } else if content_type is Some && !is_textual(content_type->0) {
            ExchangeState { phase: Phase::GatedByType, content_type_known_textual: false, ..self }
        } else {
            ExchangeState {
                phase: if self.declared_too_large(content_length) {
                    Phase::GatedBySize
                } else if self.awaits_response() {
                    Phase::WillScrub
                } else {
                    self.phase
                },
                content_type_known_textual: content_type is Some,
                ..self
            }
        }
    }

    /// What the state says was decided on the response headers.
    pub open spec fn outcome(self) -> ScrubOutcome {
        match self.phase {
            Phase::Bypassed | Phase::PassThrough => ScrubOutcome::Bypassed,
            Phase::GatedByType => ScrubOutcome::NonText,
            Phase::GatedBySize => ScrubOutcome::TooLarge,
            _ => ScrubOutcome::WillScrub,
        }
    }

    /// Whether chunks of the body are counted: the body will be scanned, and
    /// is not complete yet.
    pub open spec fn accumulates(self) -> bool {
        self.phase == Phase::WillScrub || self.phase == Phase::Accumulating
    }

    /// The state after a chunk of `size` bytes. While the body is to be
    /// scanned, the length of the chunk is added to the running total; with
    /// the last chunk the body is either within the limit, and the host is
    /// asked for it, or over it, and goes out as it is. In any other phase
    /// the chunk is ignored.
    pub open spec fn after_body(self, size: nat, end_of_stream: bool) -> ExchangeState {
        if !self.accumulates() {
            self
        } else {
            let total = self.accumulated_bytes + size;
            ExchangeState {
                accumulated_bytes: total,
                phase: if !end_of_stream {
                    Phase::Accumulating
                } else if total > self.policy.max_body_bytes {
                    Phase::Done
                } else {
                    Phase::Finalizing
                },
                ..self
            }
        }
    }

    /// What is to be done on a chunk of `size` bytes: nothing, unless the
    /// chunk completes a body that is to be scanned and is within the limit.
    pub open spec fn body_action(self, size: nat, end_of_stream: bool) -> BodyAction {
        if self.after_body(size, end_of_stream).phase == Phase::Finalizing && self.accumulates() {
            BodyAction::Scan { size: (self.accumulated_bytes + size) as usize }
        } else {
            BodyAction::Continue
        }
    }

    /// What is put in the body's place once the host has answered the
    /// request for it: the redaction of the body, if the host was asked, gave
    /// one, and something in it matched.
    pub open spec fn replacement(self, body: Option<Seq<u8>>) -> Option<Redaction> {
        if self.phase == Phase::Finalizing && body is Some && redaction(
            self.policy.enabled,
            body->0,
        ).redacted {
            Some(redaction(self.policy.enabled, body->0))
        } else {
            None
        }
    }

    /// The state after the host has answered the request for the body.
    pub open spec fn after_fetched(self) -> ExchangeState {
        if self.phase == Phase::Finalizing {
            ExchangeState { phase: Phase::Done, ..self }
        } else {
            self
        }
    }

    /// The state after an event.
    pub open spec fn after(self, e: Event) -> ExchangeState {
        match e {
            Event::RequestHeaders { path } => self.after_request_headers(path),
            Event::ResponseHeaders { content_type, content_length } => self.after_response_headers(
                content_type,
                content_length,
            ),
            Event::Body { size, end_of_stream } => self.after_body(size, end_of_stream),
            Event::Fetched { body } => self.after_fetched(),
        }
    }

    /// Whether, on an event, the body is asked for or scanned.
    pub open spec fn touches_body(self, e: Event) -> bool {
        match e {
            Event::Body { size, end_of_stream } => self.body_action(size, end_of_stream)
                != BodyAction::Continue,
            Event::Fetched { body } => self.phase == Phase::Finalizing && body is Some,
            _ => false,
        }
    }

    /// The state after a run of events.
    pub open spec fn after_all(self, events: Seq<Event>) -> ExchangeState
        decreases events.len(),
    {
        if events.len() == 0 {
            self
        } else {
            self.after_all(events.drop_last()).after(events.last())
        }
    }
}

/// The decision to scrub can only be taken back, never made anew: no event
/// takes an exchange from a phase that does not scrub to one that does.
pub proof fn lemma_scrubbing_only_ends(st: ExchangeState, e: Event)
    ensures
        st.after(e).should_scrub() ==> st.should_scrub(),
{
}

/// The request path decides once: once the request headers are past, only
/// a bypassed exchange is bypassed, and an exchange is never undetermined
/// again.
pub proof fn lemma_path_decides_once(st: ExchangeState, e: Event)
    requires
        st.phase != Phase::Undetermined,
    ensures
        st.after(e).phase != Phase::Undetermined,
        st.after(e).phase == Phase::Bypassed ==> st.phase == Phase::Bypassed,
        st.after(e).request_path == st.request_path,
{
}

/// An exchange that is bypassed or gated stays so, whatever comes, and its
/// body is never asked for or scanned.
pub proof fn lemma_closed_stays_closed(st: ExchangeState, events: Seq<Event>)
    requires
        st.phase.is_closed(),
    ensures
        st.after_all(events).phase.is_closed(),
        st.after_all(events).policy == st.policy,
        forall|e: Event| !st.after_all(events).touches_body(e),
    decreases events.len(),
{
    if events.len() > 0 {
        lemma_closed_stays_closed(st, events.drop_last());
    }
}

/// A response that declares a length over the limit never has its body
/// asked for or scanned: not on the next event, nor on any after it.
pub proof fn lemma_oversize_never_scanned(
    st: ExchangeState,
    content_type: Option<Seq<char>>,
    content_length: Seq<char>,
    events: Seq<Event>,
    e: Event,
)
    requires
        parsed_usize(content_length) matches Some(n) && n > st.policy.max_body_bytes,
    ensures
        !st.after_response_headers(content_type, Some(content_length)).after_all(
            events,
        ).touches_body(e),
{
    lemma_closed_stays_closed(
        st.after_response_headers(content_type, Some(content_length)),
        events,
    );
}

/// The body is asked for only when its last chunk has come and it is, as a
/// whole, within the limit; and it is scanned only after it was asked for.
pub proof fn lemma_body_touched_in_order(st: ExchangeState, e: Event)
    requires
        st.touches_body(e),
    ensures
        match e {
            Event::Body { size, end_of_stream } => {
                &&& st.accumulates()
                &&& end_of_stream
                &&& st.accumulated_bytes + size <= st.policy.max_body_bytes
                &&& st.after(e).phase == Phase::Finalizing
            },
            _ => st.phase == Phase::Finalizing && st.after(e).phase == Phase::Done,
        },
{
}

} // verus!
