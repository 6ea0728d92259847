//! The policy of the filter: which categories are scrubbed, which paths are
//! exempt, and how large a body may be to be scanned at all.

use vstd::prelude::*;
use vstd::string::StringExecFns;
use crate::patterns::{Category, PiiPatternMatcher};
use crate::text::{str_eq, to_lowercase, lowercase};

verus! {

/// How much the plugin logs.
#[derive(Clone, Copy, PartialEq, Eq, Structural, Debug)]
pub enum LogLevel {
    Trace,
    Debug,
    Info,
    Warn,
    Error,
}

/// The level that a name in lower case stands for; `Info` for any other.
pub open spec fn level_named(name: Seq<char>) -> LogLevel {
    if name == "trace"@ {
        LogLevel::Trace
    } else if name == "debug"@ {
        LogLevel::Debug
    } else if name == "info"@ {
        LogLevel::Info
    } else if name == "warn"@ {
        LogLevel::Warn
    } else if name == "error"@ {
        LogLevel::Error
    } else {
        LogLevel::Info
    }
}

/// The level that a name in lower case stands for; `Info` for any other.
pub fn level_from_lowercase(name: &str) -> (r: LogLevel)
    ensures
        r == level_named(name@),
{
    if str_eq(name, "trace") {
        LogLevel::Trace
    } else if str_eq(name, "debug") {
        LogLevel::Debug
    } else if str_eq(name, "info") {
        LogLevel::Info
    } else if str_eq(name, "warn") {
        LogLevel::Warn
    } else if str_eq(name, "error") {
        LogLevel::Error
    } else {
        LogLevel::Info
    }
}

/// Which patterns to enable.
#[derive(Debug, Clone, Copy)]
pub struct PatternConfig {
    pub credit_card: bool,
    pub ssn: bool,
    pub email: bool,
    pub phone_us: bool,
}

impl PatternConfig {
    /// The categories that are enabled.
    pub open spec fn enabled(&self) -> Set<Category> {
        Set::new(
            |c: Category|
                match c {
                    Category::CreditCard => self.credit_card,
                    Category::Ssn => self.ssn,
                    Category::Email => self.email,
                    Category::PhoneUs => self.phone_us,
                },
        )
    }

    /// A matcher with these patterns enabled.
    pub fn matcher(&self) -> (r: PiiPatternMatcher)
        ensures
            r@ == self.enabled(),
    {
        PiiPatternMatcher::new(self.credit_card, self.ssn, self.email, self.phone_us)
    }
}

impl Default for PatternConfig {
    /// Credit cards, SSNs and email addresses are scrubbed, phone numbers
    /// are not.
    fn default() -> (r: Self)
        ensures
            r.credit_card && r.ssn && r.email && !r.phone_us,
    {
        Self { credit_card: true, ssn: true, email: true, phone_us: false }
    }
}

/// The log level of a configuration that names none.
pub fn default_log_level() -> (r: String)
    ensures
        r@ == "info"@,
{
    String::from_str("info")
}

/// The size limit of a configuration that names none: one mebibyte.
pub fn default_max_body_size() -> (r: usize)
    ensures
        r == 1_048_576,
{
    1_048_576
}

/// The value of a pattern switch that the configuration leaves out, for
/// the patterns that are on by default.
pub fn default_true() -> (r: bool)
    ensures
        r,
{
    true
}

/// What a `PluginConfig` stands for.
pub struct Policy {
    /// The name of the log level, as configured.
    pub log_level: Seq<char>,
    /// The categories to scrub.
    pub enabled: Set<Category>,
    /// Path patterns exempt from scrubbing, in the order in which they are
    /// tried.
    pub bypass_paths: Seq<Seq<char>>,
    /// Bodies larger than this are not scanned.
    pub max_body_bytes: nat,
}

impl Policy {
    /// The policy of a plugin that was given no configuration.
    pub open spec fn default_policy() -> Policy {
        Policy {
            log_level: "info"@,
            enabled: Set::<Category>::full().remove(Category::PhoneUs),
            bypass_paths: seq!["/health"@, "/metrics"@],
            max_body_bytes: 1_048_576,
        }
    }
}

/// Plugin configuration.
#[derive(Debug, Clone)]
pub struct PluginConfig {
    /// Log level for the plugin.
    pub log_level: String,
    /// Which patterns to enable.
    pub patterns: PatternConfig,
    /// Paths to bypass (no scrubbing).
    pub bypass_paths: Vec<String>,
    /// Maximum body size to scan (bytes).
    pub max_body_size_bytes: usize,
}

impl View for PluginConfig {
    type V = Policy;

    open spec fn view(&self) -> Policy {
        Policy {
            log_level: self.log_level@,
            enabled: self.patterns.enabled(),
            bypass_paths: Seq::new(self.bypass_paths@.len(), |k: int| self.bypass_paths@[k]@),
            max_body_bytes: self.max_body_size_bytes as nat,
        }
    }
}

impl Default for PluginConfig {
    fn default() -> (r: Self)
        ensures
            r@ == Policy::default_policy(),
    {
        let mut bypass_paths: Vec<String> = Vec::new();
        bypass_paths.push(String::from_str("/health"));
        bypass_paths.push(String::from_str("/metrics"));
        let r = Self {
            log_level: default_log_level(),
            patterns: PatternConfig::default(),
            bypass_paths,
            max_body_size_bytes: default_max_body_size(),
        };
        assert(r@.bypass_paths =~= Policy::default_policy().bypass_paths);
        assert(r@.enabled =~= Policy::default_policy().enabled);
        r
    }
}

impl PluginConfig {
    /// A copy of the configuration.
    pub fn duplicate(&self) -> (r: Self)
        ensures
            r@ == self@,
    {
        let mut bypass_paths: Vec<String> = Vec::new();
        let mut k: usize = 0;
        while k < self.bypass_paths.len()
            invariant
                k <= self.bypass_paths.len(),
                bypass_paths@.len() == k,
                forall|j: int| 0 <= j < k ==> bypass_paths@[j]@ == self.bypass_paths@[j]@,
            decreases self.bypass_paths.len() - k,
        {
            bypass_paths.push(self.bypass_paths[k].clone());
            k += 1;
        }
        let r = Self {
            log_level: self.log_level.clone(),
            patterns: self.patterns,
            bypass_paths,
            max_body_size_bytes: self.max_body_size_bytes,
        };
        assert(r@.bypass_paths =~= self@.bypass_paths);
        r
    }

    /// The log level the configuration asks for: the one its name stands
    /// for once put in lower case, `Info` if it stands for none.
    pub fn level(&self) -> (r: LogLevel)
        ensures
            r == level_named(lowercase(self@.log_level)),
    {
        let name = to_lowercase(self.log_level.as_str());
        level_from_lowercase(name.as_str())
    }
}

} // verus!
