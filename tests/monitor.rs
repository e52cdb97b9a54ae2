use greed::config::{
    default_interval, default_ntfy_server, default_user_agent, Config, Notifiers, NtfyConfig,
    RuleConfig, SeleniumConfig, SeleniumDriver, SiteConfig, TelegramConfig, Transformer,
};
use greed::extract::{scrape, ExtractError};
use greed::monitor::{check_rules, get_page_request, CheckError, FetchRequest, SiteContext, StartError};
use greed::notifiers::{notify, ntfy_message, Delivery};
use greed::number::Decimal;
use greed::transform::TransformError;

fn site(selector: &str, rules: Vec<RuleConfig>) -> SiteConfig {
    SiteConfig {
        name: "shop".to_string(),
        url: "https://example.com/item".to_string(),
        interval_millis: default_interval(),
        use_browser: false,
        selector: selector.to_string(),
        transformers: Vec::new(),
        rules,
        notifiers: vec![Notifiers::Ntfy],
    }
}

fn config(sites: Vec<SiteConfig>) -> Config {
    Config {
        user_agent: default_user_agent(),
        selenium: SeleniumConfig { url: "http://localhost:4444".to_string(), driver: SeleniumDriver::Firefox },
        telegram: TelegramConfig { token: "t".to_string(), chat_id: "c".to_string() },
        ntfy: NtfyConfig { server: default_ntfy_server(), topic: "prices".to_string() },
        sites,
    }
}

fn page(value: &str) -> String {
    format!("<div><p>other</p><span class=\"price\">{value}</span></div>")
}

#[test]
fn defaults() {
    assert_eq!(default_user_agent(), "greed/0.1.0");
    assert_eq!(default_ntfy_server(), "https://ntfy.sh");
    assert_eq!(default_interval(), 3_600_000);
}

#[test]
fn invalid_selector_prevents_start() {
    let s = site("span[", vec![RuleConfig::OnChange]);
    assert!(matches!(SiteContext::new(&s), Err(StartError::InvalidSelector(_))));
}

#[test]
fn new_monitor_has_no_value() {
    let s = site("span.price", vec![RuleConfig::OnChange]);
    let ctx = SiteContext::new(&s).unwrap();
    assert_eq!(ctx.last_value, None);
}

#[test]
fn scrape_joins_the_text_of_the_first_match() {
    let s = site("p", vec![]);
    let ctx = SiteContext::new(&s).unwrap();
    assert_eq!(scrape("<p>a<b>b</b>c</p><p>second</p>", &ctx.selector), Ok("abc".to_string()));
    assert_eq!(scrape("<div>none</div>", &ctx.selector), Err(ExtractError::NoMatch));
}

#[test]
fn on_change_scenario() {
    let s = site("span.price", vec![RuleConfig::OnChange]);
    let c = config(vec![]);
    let mut ctx = SiteContext::new(&s).unwrap();

    let first = ctx.check_page(&s, &page("5")).unwrap();
    assert_eq!(first.value, "5");
    assert_eq!(first.matched_rule, None);
    ctx.record_value(first.value);
    assert_eq!(ctx.last_value.as_deref(), Some("5"));

    let second = ctx.check_page(&s, &page("7")).unwrap();
    assert_eq!(second.value, "7");
    assert_eq!(second.matched_rule, Some(0));
    let deliveries = notify(&c, &s, ctx.last_value.as_deref(), &second.value);
    assert_eq!(deliveries.len(), 1);
    match &deliveries[0] {
        Delivery::Ntfy(m) => assert!(m.body.contains("from `5` to `7`")),
    }
    ctx.record_value(second.value);
    assert_eq!(ctx.last_value.as_deref(), Some("7"));
}

#[test]
fn non_numeric_value_scenario() {
    let threshold = Decimal::parse("100").unwrap();
    let s = site("span.price", vec![RuleConfig::MoreThan { threshold }]);
    let mut ctx = SiteContext::new(&s).unwrap();
    let obs = ctx.check_page(&s, &page("N/A")).unwrap();
    assert_eq!(obs.matched_rule, None);
    ctx.record_value(obs.value);
    assert_eq!(ctx.last_value.as_deref(), Some("N/A"));
}

#[test]
fn failed_extraction_keeps_the_baseline() {
    let s = site("span.price", vec![RuleConfig::OnChange]);
    let mut ctx = SiteContext::new(&s).unwrap();
    for v in ["1", "2"] {
        let obs = ctx.check_page(&s, &page(v)).unwrap();
        ctx.record_value(obs.value);
    }
    let third = ctx.check_page(&s, "<div>gone</div>");
    assert!(matches!(third, Err(CheckError::Extract(ExtractError::NoMatch))));
    assert_eq!(ctx.last_value.as_deref(), Some("2"));
}

#[test]
fn failed_transform_keeps_the_baseline() {
    let mut s = site("span.price", vec![RuleConfig::OnChange]);
    s.transformers = vec![Transformer::RegexExtract { regex: r"(\d+)".to_string() }];
    let mut ctx = SiteContext::new(&s).unwrap();
    let obs = ctx.check_page(&s, &page("price 10")).unwrap();
    assert_eq!(obs.value, "10");
    ctx.record_value(obs.value);
    let bad = ctx.check_page(&s, &page("sold out"));
    assert!(matches!(bad, Err(CheckError::Transform(TransformError::NoMatch))));
    assert_eq!(ctx.last_value.as_deref(), Some("10"));
}

#[test]
fn next_tick_compares_with_the_recorded_value() {
    let s = site("span.price", vec![RuleConfig::OnIncrease]);
    let mut ctx = SiteContext::new(&s).unwrap();
    ctx.record_value("10".to_string());
    assert_eq!(check_rules(&ctx, &s.rules, "12"), Some(0));
    ctx.record_value("12".to_string());
    assert_eq!(check_rules(&ctx, &s.rules, "12"), None);
}

#[test]
fn message_names_site_and_transition() {
    let s = site("span", vec![]);
    let ntfy = NtfyConfig { server: "https://ntfy.example".to_string(), topic: "t".to_string() };
    let m = ntfy_message(&ntfy, &s, Some("5"), "7");
    assert_eq!(m.url, "https://ntfy.example/t");
    assert_eq!(m.title, "Rule for shop triggered");
    assert_eq!(m.click, "https://example.com/item");
    assert_eq!(m.tag, "loudspeaker");
    assert!(m.markdown);
    assert_eq!(m.body, "A rule for shop has been triggered! The value has changed from `5` to `7`.");
}

#[test]
fn absent_and_empty_previous_values_read_differently() {
    let s = site("span", vec![]);
    let ntfy = NtfyConfig { server: "s".to_string(), topic: "t".to_string() };
    let absent = ntfy_message(&ntfy, &s, None, "7");
    let empty = ntfy_message(&ntfy, &s, Some(""), "7");
    assert!(absent.body.contains("from `<nothing>` to `7`"));
    assert!(empty.body.contains("from `` to `7`"));
}

#[test]
fn one_delivery_per_channel() {
    let mut s = site("span", vec![]);
    s.notifiers = vec![Notifiers::Ntfy, Notifiers::Ntfy];
    let c = config(vec![]);
    assert_eq!(notify(&c, &s, None, "1").len(), 2);
    s.notifiers = Vec::new();
    assert_eq!(notify(&c, &s, None, "1").len(), 0);
}

#[test]
fn fetch_strategy_follows_the_site() {
    let mut s = site("span", vec![]);
    let c = config(vec![]);
    match get_page_request(&c, &s) {
        FetchRequest::Direct { url, user_agent } => {
            assert_eq!(url, "https://example.com/item");
            assert_eq!(user_agent, "greed/0.1.0");
        }
        FetchRequest::Browser { .. } => panic!("expected a direct download"),
    }
    s.use_browser = true;
    match get_page_request(&c, &s) {
        FetchRequest::Browser { endpoint, driver, url } => {
            assert_eq!(endpoint, "http://localhost:4444");
            assert_eq!(driver, SeleniumDriver::Firefox);
            assert_eq!(url, "https://example.com/item");
        }
        FetchRequest::Direct { .. } => panic!("expected the browser"),
    }
}
