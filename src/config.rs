//! Site and global settings, as the rest of the library reads them.
use vstd::prelude::*;
use vstd::string::*;

use crate::number::{Decimal, MAX_SCALE};

verus! {

/// The user agent sent with direct page downloads unless one is configured.
pub const DEFAULT_USER_AGENT: &'static str = "greed/0.1.0";

/// The push-notification server used unless one is configured.
pub const DEFAULT_NTFY_SERVER: &'static str = "https://ntfy.sh";

/// One hour, in milliseconds: the poll interval unless one is configured.
pub const DEFAULT_INTERVAL_MILLIS: u64 = 3_600_000;

pub struct Config {
    pub user_agent: String,
    pub selenium: SeleniumConfig,
    pub telegram: TelegramConfig,
    pub ntfy: NtfyConfig,
    pub sites: Vec<SiteConfig>,
}

pub struct SiteConfig {
    pub name: String,
    pub url: String,
    /// Time between two checks, in milliseconds.
    pub interval_millis: u64,
    /// Fetch the page through the browser-automation endpoint rather than directly.
    pub use_browser: bool,
    pub selector: String,
    pub transformers: Vec<Transformer>,
    pub rules: Vec<RuleConfig>,
    pub notifiers: Vec<Notifiers>,
}

#[derive(Clone, Copy, Debug, PartialEq, Eq)]
pub enum Notifiers {
    Ntfy,
}

pub struct TelegramConfig {
    pub token: String,
    pub chat_id: String,
}

/// A condition on the previous and the current value of a site.
pub enum RuleConfig {
    OnChange,
    OnChangeFrom { from: String },
    OnChangeTo { to: String },
    OnChangeFromTo { from: String, to: String },
    OnDecrease,
    OnIncrease,
    LessThan { threshold: Decimal },
    LessThanOrEqualTo { threshold: Decimal },
    EqualTo { threshold: Decimal },
    MoreThan { threshold: Decimal },
    MoreThanOrEqualTo { threshold: Decimal },
}

/// A text transform applied to an extracted value.
pub enum Transformer {
    /// Keep the concatenation of the capture groups of the first match of a
    /// regular expression.
    RegexExtract { regex: String },
    /// Replace every occurrence of one text by another.
    Replace { from: String, to: String },
}

pub struct SeleniumConfig {
    pub url: String,
    pub driver: SeleniumDriver,
}

#[derive(Clone, Copy, Debug, PartialEq, Eq)]
pub enum SeleniumDriver {
    Chrome,
    Firefox,
}

pub struct NtfyConfig {
    pub server: String,
    pub topic: String,
}

impl RuleConfig {
    /// Every threshold is a well-formed number.
    pub open spec fn wf(&self) -> bool {
        match *self {
            RuleConfig::LessThan { threshold } => threshold.wf(),
            RuleConfig::LessThanOrEqualTo { threshold } => threshold.wf(),
            RuleConfig::EqualTo { threshold } => threshold.wf(),
            RuleConfig::MoreThan { threshold } => threshold.wf(),
            RuleConfig::MoreThanOrEqualTo { threshold } => threshold.wf(),
            _ => true,
        }
    }
}

pub open spec fn rules_wf(rules: Seq<RuleConfig>) -> bool {
    forall|i: int| 0 <= i < rules.len() ==> (#[trigger] rules[i]).wf()
}

/// Whether every threshold of `rules` is a well-formed number.
pub fn rules_wf_holds(rules: &Vec<RuleConfig>) -> (r: bool)
    ensures
        r == rules_wf(rules@),
{
    let mut i: usize = 0;
    while i < rules.len()
        invariant
            i <= rules@.len(),
            forall|j: int| 0 <= j < i ==> (#[trigger] rules@[j]).wf(),
        decreases rules@.len() - i,
    {
        let ok = match &rules[i] {
            RuleConfig::LessThan { threshold } => threshold.scale <= MAX_SCALE,
            RuleConfig::LessThanOrEqualTo { threshold } => threshold.scale <= MAX_SCALE,
            RuleConfig::EqualTo { threshold } => threshold.scale <= MAX_SCALE,
            RuleConfig::MoreThan { threshold } => threshold.scale <= MAX_SCALE,
            RuleConfig::MoreThanOrEqualTo { threshold } => threshold.scale <= MAX_SCALE,
            _ => true,
        };
        if !ok {
            return false;
        }
        i = i + 1;
    }
    true
}

pub fn default_user_agent() -> (r: String)
    ensures
        r@ == DEFAULT_USER_AGENT@,
{
    String::from_str(DEFAULT_USER_AGENT)
}

/// The default poll interval, in milliseconds.
pub fn default_interval() -> (r: u64)
    ensures
        r == DEFAULT_INTERVAL_MILLIS,
{
    DEFAULT_INTERVAL_MILLIS
}

pub fn default_ntfy_server() -> (r: String)
    ensures
        r@ == DEFAULT_NTFY_SERVER@,
{
    String::from_str(DEFAULT_NTFY_SERVER)
}

} // verus!
