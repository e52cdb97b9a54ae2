//! What a triggered rule sends: one message per notification channel of
//! the site.
use vstd::prelude::*;
use vstd::string::*;

use crate::config::{Config, Notifiers, NtfyConfig, SiteConfig};

verus! {

/// A push message for an ntfy server: posted to `url`, with a title, a
/// link back to the site, a tag and a Markdown body.
pub struct NtfyMessage {
    pub url: String,
    pub title: String,
    pub click: String,
    pub tag: String,
    pub markdown: bool,
    pub body: String,
}

/// A message ready to be delivered on one channel.
pub enum Delivery {
    Ntfy(NtfyMessage),
}

/// How a previous value reads in a message; an absent one reads distinctly
/// from an empty one.
pub open spec fn shown_value(v: Option<Seq<char>>) -> Seq<char> {
    match v {
        Some(s) => s,
        None => "<nothing>"@,
    }
}

pub open spec fn ntfy_message_spec(
    m: NtfyMessage,
    config: NtfyConfig,
    site_name: Seq<char>,
    site_url: Seq<char>,
    last_value: Option<Seq<char>>,
    new_value: Seq<char>,
) -> bool {
    &&& m.url@ == config.server@ + "/"@ + config.topic@
    &&& m.title@ == "Rule for "@ + site_name + " triggered"@
    &&& m.click@ == site_url
    &&& m.tag@ == "loudspeaker"@
    &&& m.markdown
    &&& m.body@ == "A rule for "@ + site_name + " has been triggered! The value has changed from `"@
        + shown_value(last_value) + "` to `"@ + new_value + "`."@
}

pub open spec fn opt_str_view(o: Option<&str>) -> Option<Seq<char>> {
    match o {
        Some(s) => Some(s@),
        None => None,
    }
}

/// The message announcing that a rule of `site` was triggered by the change
/// from `last_value` to `new_value`.
pub fn ntfy_message(
    config: &NtfyConfig,
    site: &SiteConfig,
    last_value: Option<&str>,
    new_value: &str,
) -> (r: NtfyMessage)
    ensures
        ntfy_message_spec(r, *config, site.name@, site.url@, opt_str_view(last_value), new_value@),
{
    let mut url = config.server.clone();
    url.append("/");
    url.append(config.topic.as_str());
    let mut title = String::from_str("Rule for ");
    title.append(site.name.as_str());
    title.append(" triggered");
    let mut body = String::from_str("A rule for ");
    body.append(site.name.as_str());
    body.append(" has been triggered! The value has changed from `");
    match last_value {
        Some(v) => body.append(v),
        None => body.append("<nothing>"),
    }
    body.append("` to `");
    body.append(new_value);
    body.append("`.");
    NtfyMessage {
        url,
        title,
        click: site.url.clone(),
        tag: String::from_str("loudspeaker"),
        markdown: true,
        body,
    }
}

/// `d` holds one message for each channel of `site`, in the order the site
/// lists them, announcing the change from `last_value` to `new_value`.
pub open spec fn deliveries_spec(
    d: Seq<Delivery>,
    config: Config,
    site: SiteConfig,
    last_value: Option<Seq<char>>,
    new_value: Seq<char>,
) -> bool {
    &&& d.len() == site.notifiers@.len()
    &&& forall|i: int|
        0 <= i < d.len() ==> match (#[trigger] d[i], site.notifiers@[i]) {
            (Delivery::Ntfy(m), Notifiers::Ntfy) => ntfy_message_spec(
                m,
                config.ntfy,
                site.name@,
                site.url@,
                last_value,
                new_value,
            ),
        }
}

/// The messages to deliver when a rule of `site` is triggered, one for each
/// of its channels, in the order the site lists them.
pub fn notify(config: &Config, site: &SiteConfig, last_value: Option<&str>, new_value: &str) -> (r: Vec<
    Delivery,
>)
    ensures
        deliveries_spec(r@, *config, *site, opt_str_view(last_value), new_value@),
{
    let mut out: Vec<Delivery> = Vec::new();
    let mut i: usize = 0;
    while i < site.notifiers.len()
        invariant
            i <= site.notifiers@.len(),
            out@.len() == i,
            forall|j: int|
                0 <= j < i ==> match (#[trigger] out@[j], site.notifiers@[j]) {
                    (Delivery::Ntfy(m), Notifiers::Ntfy) => ntfy_message_spec(
                        m,
                        config.ntfy,
                        site.name@,
                        site.url@,
                        opt_str_view(last_value),
                        new_value@,
                    ),
                },
        decreases site.notifiers@.len() - i,
    {
        match site.notifiers[i] {
            Notifiers::Ntfy => {
                let m = ntfy_message(&config.ntfy, site, last_value, new_value);
                out.push(Delivery::Ntfy(m));
            },
        }
        i = i + 1;
    }
    out
}

} // verus!
