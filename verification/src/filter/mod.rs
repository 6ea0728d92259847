//! The exchange filter: one per HTTP exchange. It decides on the request
//! path whether the response is scrubbed at all, on the response headers
//! whether its body is of a kind and size worth scanning, and on the last
//! chunk of the body whether to scan what has accumulated.
//!
//! The filter never touches the host. Each event is handed to it as plain
//! values, and it answers with what is to be done.
//!
//! ```text
//! Undetermined --request headers--> Bypassed --response headers--> PassThrough
//!                               \-> Scrubbing --response headers--> GatedByType
//!                                                               \-> GatedBySize
//!                                                               \-> WillScrub
//! WillScrub --chunk--> Accumulating --chunk--> Accumulating
//! WillScrub, Accumulating --last chunk, over the limit--> Done
//! WillScrub, Accumulating --last chunk--> Finalizing --body fetched--> Done
//! ```

pub mod state;

use vstd::prelude::*;
use crate::config::{level_named, LogLevel, PluginConfig, Policy};
use crate::patterns::matcher::redaction;
use crate::patterns::RedactionResult;
use crate::text::{
    chars_eq, contains, lowercase, parse_usize, parsed_usize, starts_with, str_chars, text_of,
    to_lowercase,
};

pub use state::{
    entry_exempts, exempts, is_textual, BodyAction, Event, ExchangeState, Phase, ScrubOutcome,
};

verus! {

/// Whether a bypass entry exempts a path.
pub fn entry_matches(entry: &[char], path: &[char]) -> (r: bool)
    ensures
        r == entry_exempts(entry@, path@),
{
    let n = entry.len();
    if n > 0 && entry[n - 1] == '*' {
        let prefix = vstd::slice::slice_subrange(entry, 0, n - 1);
        starts_with(path, prefix)
    } else {
        chars_eq(path, entry)
    }
}

/// Whether a content type, in lower case, is one of text or of structured
/// data.
pub fn is_textual_content_type(content_type: &str) -> (r: bool)
    ensures
        r == is_textual(content_type@),
{
    let ct = str_chars(content_type);
    let json = str_chars("json");
    let text = str_chars("text");
    contains(ct.as_slice(), json.as_slice()) || contains(ct.as_slice(), text.as_slice())
}

/// Whether a declared content length is a number over `limit`.
pub fn exceeds_limit(content_length: &str, limit: usize) -> (r: bool)
    ensures
        r == (parsed_usize(content_length@) matches Some(n) && n > limit),
{
    let digits = str_chars(content_length);
    match parse_usize(digits.as_slice()) {
        Some(size) => size > limit,
        None => false,
    }
}

/// The filter of one exchange.
pub struct PiiScrubberHttp {
    context_id: u32,
    config: PluginConfig,
    request_path: String,
    phase: Phase,
    content_type_known_textual: bool,
    accumulated_body_size: usize,
}

impl View for PiiScrubberHttp {
    type V = ExchangeState;

    closed spec fn view(&self) -> ExchangeState {
        ExchangeState {
            id: self.context_id,
            policy: self.config@,
            request_path: self.request_path@,
            phase: self.phase,
            content_type_known_textual: self.content_type_known_textual,
            accumulated_bytes: self.accumulated_body_size as nat,
        }
    }
}

impl PiiScrubberHttp {
    /// The filter of an exchange that has just begun.
    pub fn new(context_id: u32, config: PluginConfig) -> (r: Self)
        ensures
            r@ == ExchangeState::begin(context_id, config@),
    {
        Self {
            context_id,
            config,
            request_path: String::new(),
            phase: Phase::Undetermined,
            content_type_known_textual: false,
            accumulated_body_size: 0,
        }
    }

    /// The number the host gave the exchange.
    pub fn context_id(&self) -> (r: u32)
        ensures
            r == self@.id,
    {
        self.context_id
    }

    /// Where the exchange stands.
    pub fn phase(&self) -> (r: Phase)
        ensures
            r == self@.phase,
    {
        self.phase
    }

    /// Whether the response is still to be scrubbed, or has been.
    pub fn should_scrub(&self) -> (r: bool)
        ensures
            r == self@.should_scrub(),
    {
        self.phase.should_scrub()
    }

    /// Whether the response has a content type that is known to be one of
    /// text or of structured data.
    pub fn content_type_known_textual(&self) -> (r: bool)
        ensures
            r == self@.content_type_known_textual,
    {
        self.content_type_known_textual
    }

    /// The length of the body chunks seen so far.
    pub fn accumulated_body_size(&self) -> (r: usize)
        ensures
            r == self@.accumulated_bytes,
    {
        self.accumulated_body_size
    }

    /// The request path, once it is known.
    pub fn request_path(&self) -> (r: &str)
        ensures
            r@ == self@.request_path,
    {
        self.request_path.as_str()
    }

    /// Check if the path should bypass scrubbing.
    pub fn should_bypass_path(&self, path: &str) -> (r: bool)
        ensures
            r == exempts(self@.policy.bypass_paths, path@),
    {
        let path_chars = str_chars(path);
        let ghost entries = self@.policy.bypass_paths;
        let mut k: usize = 0;
        while k < self.config.bypass_paths.len()
            invariant
                k <= self.config.bypass_paths.len(),
                entries == self@.policy.bypass_paths,
                path_chars@ == path@,
                forall|j: int| 0 <= j < k ==> !entry_exempts(#[trigger] entries[j], path@),
            decreases self.config.bypass_paths.len() - k,
        {
            let entry = str_chars(self.config.bypass_paths[k].as_str());
            assert(entry@ == entries[k as int]);
            if entry_matches(entry.as_slice(), path_chars.as_slice()) {
                return true;
            }
            k += 1;
        }
        false
    }

    /// Perform PII redaction on the body, with the configured patterns.
    pub fn redact_pii(&self, body: &[u8]) -> (r: RedactionResult)
        requires
            body@.len() <= u32::MAX,
        ensures
            r@ == redaction(self@.policy.enabled, body@),
            r.wf(),
    {
        let matcher = self.config.patterns.matcher();
        matcher.redact(body)
    }

    /// The request headers have come; `path` is the request path, if the
    /// host has one. Decides whether the response will be scrubbed.
    pub fn on_http_request_headers(&mut self, path: Option<&str>)
        ensures
            final(self)@ == old(self)@.after_request_headers(text_of(path)),
    {
        if self.phase != Phase::Undetermined {
            return ;
        }
        self.phase = Phase::Scrubbing;
        if let Some(p) = path {
            if self.should_bypass_path(p) {
                self.phase = Phase::Bypassed;
            }
            self.request_path = String::from_str(p);
        }
    }

    /// The response headers have come; `content_type` is the content type
    /// in lower case and `content_length` the declared length, where the
    /// response has them. Decides whether the body will be scanned.
    pub fn decide_on_response(
        &mut self,
        content_type: Option<&str>,
        content_length: Option<&str>,
    ) -> (r: ScrubOutcome)
        ensures
            final(self)@ == old(self)@.after_response_headers(
                text_of(content_type),
                text_of(content_length),
            ),
            r == final(self)@.outcome(),
    {
        match self.phase {
            Phase::Bypassed => {
                self.phase = Phase::PassThrough;
                return ScrubOutcome::Bypassed;
            },
            Phase::PassThrough => {
                return ScrubOutcome::Bypassed;
            },
            Phase::GatedByType => {
                return ScrubOutcome::NonText;
            },
            Phase::GatedBySize => {
                return ScrubOutcome::TooLarge;
            },
            _ => {},
        }
        // Only text and JSON responses are processed.
        if let Some(ct) = content_type {
            if !is_textual_content_type(ct) {
                self.phase = Phase::GatedByType;
                self.content_type_known_textual = false;
                return ScrubOutcome::NonText;
            }
        }
        self.content_type_known_textual = content_type.is_some();
        // A declared length over the limit rules the body out.
        if let Some(length) = content_length {
            if exceeds_limit(length, self.config.max_body_size_bytes) {
                self.phase = Phase::GatedBySize;
                return ScrubOutcome::TooLarge;
            }
        }
        match self.phase {
            Phase::Undetermined | Phase::Scrubbing => {
                self.phase = Phase::WillScrub;
            },
            _ => {},
        }
        ScrubOutcome::WillScrub
    }

    /// The response headers have come; `content_type` and `content_length`
    /// are the values of those headers, where the response has them.
    /// Decides whether the body will be scanned. The content type is put in
    /// lower case before it is looked at.
    pub fn on_http_response_headers(
        &mut self,
        content_type: Option<&str>,
        content_length: Option<&str>,
    ) -> (r: ScrubOutcome)
        ensures
            final(self)@ == old(self)@.after_response_headers(
                match content_type {
                    Some(t) => Some(lowercase(t@)),
                    None => None,
                },
                text_of(content_length),
            ),
            r == final(self)@.outcome(),
    {
        match content_type {
            Some(ct) => {
                let ct_lower = to_lowercase(ct);
                self.decide_on_response(Some(ct_lower.as_str()), content_length)
            },
            None => self.decide_on_response(None, content_length),
        }
    }

    /// A chunk of `body_size` bytes of the response body has come. Says
    /// whether the body is now to be fetched and scanned.
    pub fn on_http_response_body(&mut self, body_size: usize, end_of_stream: bool) -> (r:
        BodyAction)
        requires
            old(self)@.accumulates() ==> old(self)@.accumulated_bytes + body_size <= usize::MAX,
        ensures
            r == old(self)@.body_action(body_size as nat, end_of_stream),
            final(self)@ == old(self)@.after_body(body_size as nat, end_of_stream),
    {
        match self.phase {
            Phase::WillScrub | Phase::Accumulating => {},
            _ => {
                return BodyAction::Continue;
            },
        }
        // Track accumulated body size for later retrieval.
        self.accumulated_body_size += body_size;

        // Only process when we have the complete body.
        if !end_of_stream {
            self.phase = Phase::Accumulating;
            return BodyAction::Continue;
        }
        // Check size limit.
        if self.accumulated_body_size > self.config.max_body_size_bytes {
            self.phase = Phase::Done;
            return BodyAction::Continue;
        }
        self.phase = Phase::Finalizing;
        BodyAction::Scan { size: self.accumulated_body_size }
    }

    /// The host was asked for the accumulated body; `body` is what it gave.
    /// Returns the redaction to put in the body's place, or `None` where
    /// the body is to go out as it is: because the host had none to give,
    /// or because nothing in it matched. A body that was not asked for is
    /// not looked at.
    pub fn scrub(&mut self, body: Option<&[u8]>) -> (r: Option<RedactionResult>)
        requires
            old(self)@.phase == Phase::Finalizing ==> (body matches Some(b) ==> b@.len()
                <= u32::MAX),
        ensures
            final(self)@ == old(self)@.after_fetched(),
            (match r {
                Some(x) => Some(x@),
                None => None,
            }) == old(self)@.replacement(
                match body {
                    Some(b) => Some(b@),
                    None => None,
                },
            ),
            r matches Some(x) ==> x.wf(),
    {
        if self.phase != Phase::Finalizing {
            return None;
        }
        self.phase = Phase::Done;
        match body {
            Some(full_body) => {
                let result = self.redact_pii(full_body);
                if result.redacted {
                    Some(result)
                } else {
                    None
                }
            },
            None => None,
        }
    }
}

/// The root of the plugin: it holds the configuration and makes a filter
/// for each exchange.
pub struct PiiScrubberRoot {
    config: PluginConfig,
}

impl View for PiiScrubberRoot {
    type V = Policy;

    closed spec fn view(&self) -> Policy {
        self.config@
    }
}

impl PiiScrubberRoot {
    /// A root with the default configuration.
    pub fn new() -> (r: Self)
        ensures
            r@ == Policy::default_policy(),
    {
        Self { config: PluginConfig::default() }
    }

    /// The host has configured the plugin; `parsed` is the configuration
    /// it gave, or `None` where it gave none or one that could not be read.
    /// A configuration that was read replaces the one in force; else the
    /// one in force stays. Returns the log level to set.
    pub fn on_configure(&mut self, parsed: Option<PluginConfig>) -> (r: LogLevel)
        ensures
            final(self)@ == match parsed {
                Some(c) => c@,
                None => old(self)@,
            },
            r == level_named(lowercase(final(self)@.log_level)),
    {
        if let Some(config) = parsed {
            self.config = config;
        }
        self.config.level()
    }

    /// The number of bypass paths in force.
    pub fn bypass_path_count(&self) -> (r: usize)
        ensures
            r == self@.bypass_paths.len(),
    {
        self.config.bypass_paths.len()
    }

    /// The filter for a new exchange, with the configuration in force.
    pub fn create_http_context(&self, context_id: u32) -> (r: PiiScrubberHttp)
        ensures
            r@ == ExchangeState::begin(context_id, self@),
    {
        PiiScrubberHttp::new(context_id, self.config.duplicate())
    }
}

} // verus!
