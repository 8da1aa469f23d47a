use case_insensitive_string::CaseInsensitiveString;
use spider::website::CronType;
use spider_py::headers::{collect_headers, show_headers, TooManyHeaders};
use spider_py::website::{HeaderSource, Website};
use std::time::Duration;

fn website() -> Website {
    Website::new("https://example.com".to_string(), None)
}

fn pair(name: &str, value: &str) -> (String, String) {
    (name.to_string(), value.to_string())
}

fn entry(path: &str, limit: u32) -> (String, u32) {
    (path.to_string(), limit)
}

#[test]
fn new_website_has_the_defaults() {
    let mut website = website();
    assert_eq!(website.status(), "Start");
    assert_eq!(website.get_links().len(), 0);
    assert_eq!(website.size(), 0);
    assert_eq!(website.get_pages().len(), 0);
    assert_eq!(website.get_configuration_headers().len(), 0);
    let configuration = &website.crawler().configuration;
    assert!(!configuration.respect_robots_txt);
    assert!(!configuration.subdomains);
    assert!(!configuration.tld);
    assert!(!configuration.http2_prior_knowledge);
    assert_eq!(configuration.delay, 0);
    assert_eq!(configuration.request_timeout.as_deref(), Some(&Duration::from_millis(15000)));
    assert!(configuration.user_agent.is_none());
    assert!(configuration.proxies.is_none());
    assert!(configuration.blacklist_url.is_none());
    assert!(configuration.budget.is_none());
    assert!(configuration.external_domains_caseless.is_empty());
    assert_eq!(configuration.cron_str, "");
    assert_eq!(configuration.cron_type, CronType::Crawl);
}

#[test]
fn address_gets_a_scheme() {
    let start = |url: &str| {
        Website::new(url.to_string(), None).crawler().get_domain().inner().to_string()
    };
    assert_eq!(start("https://example.com"), "https://example.com");
    assert_eq!(start("example.com"), "https://example.com");
    assert_eq!(start(" example.com\t"), "https://example.com");
    assert_eq!(start("\u{3000}http://example.com "), "http://example.com");
    assert_eq!(start("example.com\t"), "https://example.com\t");
    assert_eq!(start(""), "https://");
    assert_eq!(start("HTTP://x"), "https://HTTP://x");
}

#[test]
fn settings_are_chained() {
    let mut website = website();
    website
        .with_user_agent(Some("agent".to_string()))
        .with_respect_robots_txt(true)
        .with_subdomains(true)
        .with_tld(true)
        .with_http2_prior_knowledge(true)
        .with_request_timeout(Some(2500))
        .with_delay(70)
        .with_proxies(Some(vec!["http://proxy".to_string()]))
        .with_blacklist_url(Some(vec!["/private".to_string(), "[0-9]+".to_string()]))
        .build();
    let configuration = &website.crawler().configuration;
    assert_eq!(configuration.user_agent.as_deref().map(|agent| agent.as_str()), Some("agent"));
    assert!(configuration.respect_robots_txt);
    assert!(configuration.subdomains);
    assert!(configuration.tld);
    assert!(configuration.http2_prior_knowledge);
    assert_eq!(configuration.request_timeout.as_deref(), Some(&Duration::from_millis(2500)));
    assert_eq!(configuration.delay, 70);
    assert_eq!(configuration.proxies.as_deref(), Some(&vec!["http://proxy".to_string()]));
    let blacklist = configuration.blacklist_url.as_deref().unwrap();
    assert_eq!(blacklist.len(), 2);
    assert_eq!(blacklist[0].as_str(), "/private");
    assert_eq!(blacklist[1].as_str(), "[0-9]+");
}

#[test]
fn settings_are_unset() {
    let mut website = website();
    website
        .with_user_agent(Some("agent".to_string()))
        .with_proxies(Some(vec!["http://proxy".to_string()]))
        .with_blacklist_url(Some(vec!["/private".to_string()]))
        .with_external_domains(Some(vec!["https://other.com".to_string()]))
        .with_headers(HeaderSource::Dict(vec![pair("a", "b")]))
        .unwrap();
    website
        .with_user_agent(None)
        .with_proxies(None)
        .with_blacklist_url(None)
        .with_external_domains(None)
        .with_request_timeout(None)
        .with_headers(HeaderSource::Unset)
        .unwrap();
    let configuration = &website.crawler().configuration;
    assert!(configuration.user_agent.is_none());
    assert!(configuration.proxies.is_none());
    assert!(configuration.blacklist_url.is_none());
    assert!(configuration.external_domains_caseless.is_empty());
    assert!(configuration.request_timeout.is_none());
    assert!(configuration.headers.is_none());
}

#[test]
fn external_domains_are_hosts() {
    let mut website = website();
    website.with_external_domains(Some(vec![
        "https://Foo.com/path".to_string(),
        "*".to_string(),
        "no url".to_string(),
        "http://foo.com".to_string(),
        "data:text".to_string(),
    ]));
    let domains = &website.crawler().configuration.external_domains_caseless;
    assert_eq!(domains.len(), 3);
    assert!(domains.contains(&CaseInsensitiveString::from("foo.com")));
    assert!(domains.contains(&CaseInsensitiveString::from("*")));
    assert!(domains.contains(&CaseInsensitiveString::from("")));
}

#[test]
fn cron_type_is_read() {
    let mut website = website();
    website.with_cron("1/5 * * * * *".to_string(), Some("scrape".to_string()));
    assert_eq!(website.crawler().configuration.cron_str, "1/5 * * * * *");
    assert_eq!(website.crawler().configuration.cron_type, CronType::Scrape);
    website.with_cron("0 * * * * *".to_string(), Some("Scrape".to_string()));
    assert_eq!(website.crawler().configuration.cron_type, CronType::Crawl);
    website.with_cron("".to_string(), Some("scrape".to_string()));
    website.with_cron("0 * * * * *".to_string(), None);
    assert_eq!(website.crawler().configuration.cron_str, "0 * * * * *");
    assert_eq!(website.crawler().configuration.cron_type, CronType::Crawl);
}

#[test]
fn build_keeps_everything() {
    let mut website = website();
    website.with_delay(3);
    website.subscribe(1, 88);
    website.build();
    assert_eq!(website.crawler().configuration.delay, 3);
    assert_eq!(website.unsubscribe(None).aborted, vec![1]);
    let mut invalid = Website::new("http:// no url".to_string(), None);
    invalid.with_delay(4).build();
    assert_eq!(invalid.crawler().configuration.delay, 4);
    assert!(invalid.crawler().build().is_err());
}

#[test]
fn headers_are_shown() {
    let mut website = website();
    website.with_headers(HeaderSource::Dict(vec![
        pair("X-First", "one"),
        pair("Accept", "text/html"),
        pair("x-second", "two words"),
    ])).unwrap();
    assert_eq!(
        website.get_configuration_headers(),
        vec![pair("x-first", "one"), pair("accept", "text/html"), pair("x-second", "two words")]
    );
}

#[test]
fn headers_that_are_none_are_left_out() {
    let mut website = website();
    website.with_headers(HeaderSource::Dict(vec![
        pair("", "empty name"),
        pair("two words", "space in the name"),
        pair("n\u{e4}me", "letter"),
        pair("quoted\"", "kept"),
        pair("line", "a\nb"),
        pair("tab", "a\tb"),
        pair("delete", "a\u{7f}b"),
    ])).unwrap();
    assert_eq!(
        website.get_configuration_headers(),
        vec![pair("quoted\"", "kept"), pair("tab", "a\tb")]
    );
}

#[test]
fn header_value_that_is_no_text_is_empty() {
    let mut website = website();
    website.with_headers(HeaderSource::Dict(vec![pair("name", "v\u{e4}lue"), pair("b", "")])).unwrap();
    assert_eq!(website.get_configuration_headers(), vec![pair("name", ""), pair("b", "")]);
}

#[test]
fn header_values_are_grouped_by_name() {
    let map = collect_headers(&vec![pair("a", "1"), pair("b", "2"), pair("A", "3"), pair("a", "4")])
        .unwrap();
    assert_eq!(
        show_headers(&map),
        vec![pair("a", "1"), pair("a", "3"), pair("a", "4"), pair("b", "2")]
    );
}

#[test]
fn longest_header_name_is_kept() {
    let longest = "n".repeat(65535);
    let map = collect_headers(&vec![
        (longest.clone(), "kept".to_string()),
        ("n".repeat(65536), "left out".to_string()),
    ])
    .unwrap();
    assert_eq!(show_headers(&map), vec![(longest, "kept".to_string())]);
}

#[test]
fn many_headers_are_kept() {
    let pairs: Vec<(String, String)> =
        (0..10000).map(|i| (format!("name-{}", i), format!("{}", i))).collect();
    let map = collect_headers(&pairs).unwrap();
    assert_eq!(show_headers(&map), pairs);
}

#[test]
fn too_many_headers_change_nothing() {
    let pairs: Vec<(String, String)> =
        (0..24577).map(|i| (format!("name-{}", i), format!("{}", i))).collect();
    assert_eq!(collect_headers(&pairs).err(), Some(TooManyHeaders));
    let mut website = website();
    assert!(website.with_headers(HeaderSource::Dict(vec![pair("a", "b")])).is_ok());
    assert!(website.with_headers(HeaderSource::Dict(pairs)).is_err());
    assert_eq!(website.get_configuration_headers(), vec![pair("a", "b")]);
}

#[test]
fn what_is_no_dictionary_changes_nothing() {
    let mut website = website();
    website.with_headers(HeaderSource::Dict(vec![pair("a", "b")])).unwrap();
    website.with_headers(HeaderSource::Other).unwrap();
    assert_eq!(website.get_configuration_headers(), vec![pair("a", "b")]);
    website.with_headers(HeaderSource::Dict(Vec::new())).unwrap();
    assert_eq!(website.get_configuration_headers().len(), 0);
    assert!(website.crawler().configuration.headers.is_some());
}

#[test]
fn budget_of_one_path_is_kept() {
    let mut website = website();
    website.with_budget(Some(vec![entry("/Blog", 4294967295)]));
    let budget = website.crawler().configuration.budget.clone().unwrap();
    assert_eq!(budget.len(), 1);
    assert_eq!(budget.get(&CaseInsensitiveString::from("/blog")), Some(&4294967295));
    website.with_budget(None);
    assert_eq!(website.crawler().configuration.budget, Some(budget));
}

#[test]
fn budget_keeps_every_path() {
    let mut website = website();
    website.with_budget(Some(vec![entry("/a", 1), entry("/b", 2)]));
    let budget = website.crawler().configuration.budget.clone().unwrap();
    assert_eq!(budget.len(), 2);
    assert_eq!(budget.get(&CaseInsensitiveString::from("/a")), Some(&1));
    assert_eq!(budget.get(&CaseInsensitiveString::from("/b")), Some(&2));
    website.with_budget(Some(vec![entry("a", 1), entry("b,5", 2), entry("c", 3)]));
    let budget = website.crawler().configuration.budget.clone().unwrap();
    assert_eq!(budget.len(), 3);
    assert_eq!(budget.get(&CaseInsensitiveString::from("a")), Some(&1));
    assert_eq!(budget.get(&CaseInsensitiveString::from("b,5")), Some(&2));
    assert_eq!(budget.get(&CaseInsensitiveString::from("c")), Some(&3));
    website.with_budget(Some(Vec::new()));
    assert_eq!(website.crawler().configuration.budget.clone().unwrap().len(), 0);
}

#[test]
fn later_limit_of_a_path_counts() {
    let mut website = website();
    website.with_budget(Some(vec![entry("a", 1), entry("a", 2)]));
    let budget = website.crawler().configuration.budget.clone().unwrap();
    assert_eq!(budget.len(), 1);
    assert_eq!(budget.get(&CaseInsensitiveString::from("a")), Some(&2));
}

#[test]
fn paths_that_differ_in_case_are_one() {
    let mut website = website();
    website.with_budget(Some(vec![entry("/A", 1), entry("/a", 2)]));
    let budget = website.crawler().configuration.budget.clone().unwrap();
    assert_eq!(budget.len(), 1);
    let limit = *budget.get(&CaseInsensitiveString::from("/a")).unwrap();
    assert!(limit == 1 || limit == 2);
}

#[test]
fn header_names_are_no_more_than_pairs() {
    let pairs = vec![pair("a", "1"), pair("no name", "2"), pair("A", "3"), pair("b", "4")];
    let map = collect_headers(&pairs).unwrap();
    assert_eq!(map.keys_len(), 2);
    assert!(map.keys_len() <= pairs.len());
}
