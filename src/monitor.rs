//! The per-site monitor: its state, how the page of a tick is fetched, and
//! what a tick makes of the fetched page.
//!
//! A tick runs fetch, extract, transform, evaluate, notify and then records
//! the new value as the baseline for the next tick. Fetching and delivering
//! messages happen outside; this module decides everything in between. A
//! failed step ends the tick without touching the baseline.
use vstd::prelude::*;

use crate::config::{rules_wf, Config, RuleConfig, SeleniumDriver, SiteConfig, Transformer};
use crate::notifiers::{deliveries_spec, notify, Delivery};
use crate::extract::{concat_all, first_match_text_nodes, parse_selector, scrape, selector_parses, CssSelector, ExtractError};
use crate::rules::{evaluate, first_match, opt_view};
use crate::transform::{apply_transformers, pipeline_spec, TransformError};

verus! {

/// The state of one site's monitor: the compiled selector and the value that
/// the last completed tick observed.
pub struct SiteContext {
    pub last_value: Option<String>,
    pub selector: CssSelector,
}

/// Why a monitor cannot start.
#[derive(Clone, Debug, PartialEq, Eq)]
pub enum StartError {
    /// The site's selector does not compile; the message says why.
    InvalidSelector(String),
}

/// Why a tick failed after its page was fetched.
#[derive(Clone, Copy, Debug, PartialEq, Eq)]
pub enum CheckError {
    Extract(ExtractError),
    Transform(TransformError),
}

/// What a tick observed: the transformed value and the position of the
/// first rule it triggered, if any.
pub struct Observation {
    pub value: String,
    pub matched_rule: Option<usize>,
}

/// How the page of a site is to be fetched.
pub enum FetchRequest {
    /// A direct download with the given user agent.
    Direct { url: String, user_agent: String },
    /// Through the browser-automation endpoint, with the given driver.
    Browser { endpoint: String, driver: SeleniumDriver, url: String },
}

pub open spec fn last_value_view(last: Option<String>) -> Option<Seq<char>> {
    match last {
        Some(s) => Some(s@),
        None => None,
    }
}

/// The value a tick computes from a page, before any rule is evaluated.
pub open spec fn observed_value(selector: Seq<char>, transformers: Seq<Transformer>, html: Seq<char>) -> Result<
    Seq<char>,
    CheckError,
> {
    match first_match_text_nodes(html, selector) {
        None => Err(CheckError::Extract(ExtractError::NoMatch)),
        Some(nodes) => match pipeline_spec(concat_all(nodes), transformers) {
            Ok(v) => Ok(v),
            Err(e) => Err(CheckError::Transform(e)),
        },
    }
}

/// The outcome of a tick on a page: the observed value and the first rule
/// that the step from `prev` to it triggers.
pub open spec fn tick_outcome(
    prev: Option<Seq<char>>,
    selector: Seq<char>,
    transformers: Seq<Transformer>,
    rules: Seq<RuleConfig>,
    html: Seq<char>,
) -> Result<(Seq<char>, Option<int>), CheckError> {
    match observed_value(selector, transformers, html) {
        Ok(v) => Ok((v, first_match(rules, prev, v))),
        Err(e) => Err(e),
    }
}

/// The baseline after a tick: the observed value when the tick completed,
/// the previous baseline when it failed.
pub open spec fn next_baseline(
    prev: Option<Seq<char>>,
    outcome: Result<(Seq<char>, Option<int>), CheckError>,
) -> Option<Seq<char>> {
    match outcome {
        Ok((v, _)) => Some(v),
        Err(_) => prev,
    }
}

impl SiteContext {
    pub open spec fn last(&self) -> Option<Seq<char>> {
        last_value_view(self.last_value)
    }

    pub closed spec fn selector_source(&self) -> Seq<char> {
        self.selector.source()
    }

    /// Starts a monitor: the selector is compiled and there is no value yet.
    pub fn new(config: &SiteConfig) -> (r: Result<SiteContext, StartError>)
        ensures
            r is Ok == selector_parses(config.selector@),
            r matches Ok(c) ==> c.last_value is None && c.selector_source() == config.selector@,
    {
        match parse_selector(config.selector.as_str()) {
            Ok(selector) => Ok(SiteContext { last_value: None, selector }),
            Err(message) => Err(StartError::InvalidSelector(message)),
        }
    }

    /// The value and the triggered rule that a tick makes of the fetched
    /// page; the state is left as it is.
    pub fn check_page(&self, site: &SiteConfig, html: &str) -> (r: Result<Observation, CheckError>)
        requires
            rules_wf(site.rules@),
        ensures
            match tick_outcome(
                self.last(),
                self.selector_source(),
                site.transformers@,
                site.rules@,
                html@,
            ) {
                Ok((v, m)) => r matches Ok(o) && o.value@ == v && match o.matched_rule {
                    Some(i) => m == Some(i as int),
                    None => m is None,
                },
                Err(e) => r == Err::<Observation, CheckError>(e),
            },
    {
        let scraped = match scrape(html, &self.selector) {
            Ok(s) => s,
            Err(e) => {
                return Err(CheckError::Extract(e));
            },
        };
        let value = match apply_transformers(scraped, &site.transformers) {
            Ok(v) => v,
            Err(e) => {
                return Err(CheckError::Transform(e));
            },
        };
        let matched_rule = check_rules(self, &site.rules, value.as_str());
        Ok(Observation { value, matched_rule })
    }

    /// What a tick makes of the fetched page: the observation, and the
    /// messages to deliver before the tick completes (none when no rule was
    /// triggered). The state is left as it is.
    pub fn check_site(&self, config: &Config, site: &SiteConfig, html: &str) -> (r: Result<
        (Observation, Vec<Delivery>),
        CheckError,
    >)
        requires
            rules_wf(site.rules@),
        ensures
            match tick_outcome(
                self.last(),
                self.selector_source(),
                site.transformers@,
                site.rules@,
                html@,
            ) {
                Ok((v, m)) => r matches Ok((o, d)) && o.value@ == v && match o.matched_rule {
                    Some(i) => m == Some(i as int) && deliveries_spec(
                        d@,
                        *config,
                        *site,
                        self.last(),
                        v,
                    ),
                    None => m is None && d@.len() == 0,
                },
                Err(e) => r == Err::<(Observation, Vec<Delivery>), CheckError>(e),
            },
    {
        let observation = match self.check_page(site, html) {
            Ok(o) => o,
            Err(e) => {
                return Err(e);
            },
        };
        let deliveries = if observation.matched_rule.is_some() {
            let last_value: Option<&str> = match &self.last_value {
                Some(s) => Some(s.as_str()),
                None => None,
            };
            notify(config, site, last_value, observation.value.as_str())
        } else {
            Vec::new()
        };
        Ok((observation, deliveries))
    }

    /// Ends a completed tick: its value becomes the baseline, whether or not a
    /// rule was triggered.
    pub fn record_value(&mut self, value: String)
        ensures
            final(self).last() == Some(value@),
            final(self).selector_source() == old(self).selector_source(),
    {
        self.last_value = Some(value);
    }
}

/// The first rule that the step from the monitor's baseline to `value`
/// triggers.
pub fn check_rules(context: &SiteContext, rules: &Vec<RuleConfig>, value: &str) -> (r: Option<usize>)
    requires
        rules_wf(rules@),
    ensures
        match r {
            Some(i) => first_match(rules@, context.last(), value@) == Some(i as int),
            None => first_match(rules@, context.last(), value@) is None,
        },
{
    let last_value: Option<&str> = match &context.last_value {
        Some(s) => Some(s.as_str()),
        None => None,
    };
    assert(opt_view(last_value) == context.last());
    evaluate(rules, last_value, value)
}

/// How the page of `site` is fetched: through the browser-automation
/// endpoint when the site asks for a browser, directly otherwise.
pub fn get_page_request(config: &Config, site: &SiteConfig) -> (r: FetchRequest)
    ensures
        match r {
            FetchRequest::Browser { endpoint, driver, url } => site.use_browser && endpoint@
                == config.selenium.url@ && driver == config.selenium.driver && url@ == site.url@,
            FetchRequest::Direct { url, user_agent } => !site.use_browser && url@ == site.url@
                && user_agent@ == config.user_agent@,
        },
{
    if site.use_browser {
        FetchRequest::Browser {
            endpoint: config.selenium.url.clone(),
            driver: config.selenium.driver,
            url: site.url.clone(),
        }
    } else {
        FetchRequest::Direct { url: site.url.clone(), user_agent: config.user_agent.clone() }
    }
}

/// After a completed tick the baseline is the tick's value, and the next
/// tick evaluates its rules against that value; after a failed tick the
/// baseline is the one before it.
pub proof fn baseline_follows_ticks(
    prev: Option<Seq<char>>,
    selector: Seq<char>,
    transformers: Seq<Transformer>,
    rules: Seq<RuleConfig>,
    html: Seq<char>,
    next_html: Seq<char>,
)
    ensures
        ({
            let outcome = tick_outcome(prev, selector, transformers, rules, html);
            let baseline = next_baseline(prev, outcome);
            &&& outcome matches Ok((v, _)) ==> baseline == Some(v) && match observed_value(
                selector,
                transformers,
                next_html,
            ) {
                Ok(w) => tick_outcome(baseline, selector, transformers, rules, next_html) == Ok::<
                    (Seq<char>, Option<int>),
                    CheckError,
                >((w, first_match(rules, Some(v), w))),
                Err(e) => tick_outcome(baseline, selector, transformers, rules, next_html) == Err::<
                    (Seq<char>, Option<int>),
                    CheckError,
                >(e),
            }
            &&& outcome is Err ==> baseline == prev
        }),
{
}

/// Evaluating the rules is a function of the rules and of the two values
/// alone: evaluating the same step twice gives the same rule.
pub proof fn evaluation_is_repeatable(
    rules: Seq<RuleConfig>,
    prev: Option<Seq<char>>,
    cur: Seq<char>,
    first: Option<int>,
    second: Option<int>,
)
    requires
        first == first_match(rules, prev, cur),
        second == first_match(rules, prev, cur),
    ensures
        first == second,
{
}

} // verus!
