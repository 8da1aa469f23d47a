//! What the settings of a website become, and what is shown of them and of its pages.
use crate::crawler::{
    budget_view, external_host, external_hosts, has_limits, is_white_space, limits,
    same_ignoring_case, start_url, status_name, trimmed_end, trimmed_start, url_host, CrawlStatus,
    CrawlerState, CronType, MAX_CAPACITY,
};
use crate::headers::{
    ascii_lower_text, collected, has_name, header_items, is_header_name, is_header_value,
    is_name_char, names_at, pairs_view, shown_headers, shown_value, MAX_HEADER_NAMES,
    SAFE_HEADER_NAMES,
};
use crate::laws::{accepted_items, law_pairs_bound_header_names};
use crate::page::{lossy_text, page_bytes, page_url, Content, NPage};
use crate::website::{fresh_website, WebsiteView};
use spider::page::Page;
use vstd::prelude::*;
use vstd::utf8::encode_utf8;

verus! {

/// What is set on the crawler of a website changes nothing else of the website.
pub proof fn law_setting_concerns_the_crawler(website: WebsiteView, crawler: CrawlerState)
    ensures
        website.with_crawler(crawler).crawler == crawler,
        website.with_crawler(crawler).subscriptions == website.subscriptions,
        website.with_crawler(crawler).crawls == website.crawls,
        website.with_crawler(crawler).raw_content == website.raw_content,
        website.with_crawler(crawler).running_in_background == website.running_in_background,
{
}

/// A new website has no tasks and has collected nothing; every choice is off, and requests are
/// given up after fifteen seconds.
pub proof fn law_new_website_has_nothing(
    url: Seq<char>,
    host: Option<Seq<char>>,
    raw_content: bool,
)
    ensures
        fresh_website(url, host, raw_content).subscriptions.len() == 0,
        fresh_website(url, host, raw_content).crawls.len() == 0,
        !fresh_website(url, host, raw_content).running_in_background,
        fresh_website(url, host, raw_content).raw_content == raw_content,
        ({
            let crawler = fresh_website(url, host, raw_content).crawler;
            &&& crawler.url == url
            &&& crawler.url_valid <==> host is Some
            &&& crawler.status == CrawlStatus::Start
            &&& crawler.links.finite() && crawler.links.len() == 0
            &&& crawler.external_domains.finite() && crawler.external_domains.len() == 0
            &&& crawler.cron_str.len() == 0
            &&& crawler.cron_type == CronType::Crawl
            &&& crawler.delay == 0
            &&& crawler.request_timeout == Some(15000u64)
            &&& !(crawler.respect_robots_txt || crawler.subdomains || crawler.tld
                || crawler.http2_prior_knowledge || crawler.stopped)
            &&& crawler.user_agent is None && crawler.headers is None && crawler.proxies is None
            &&& crawler.blacklist_url is None && crawler.budget is None
            &&& crawler.channel is None && crawler.pages is None
        }),
{
}

/// An address without a space at either end is taken as it is where it begins with `http`, and
/// behind `https://` otherwise.
pub proof fn law_address_gets_a_scheme(url: Seq<char>)
    requires
        url.len() > 0 ==> url[0] != ' ' && url[url.len() - 1] != ' ',
    ensures
        url.len() >= 4 && url.take(4) == seq!['h', 't', 't', 'p'] ==> start_url(url) == url,
        !(url.len() >= 4 && url.take(4) == seq!['h', 't', 't', 'p']) ==> start_url(url) == seq![
            'h',
            't',
            't',
            'p',
            's',
            ':',
            '/',
            '/',
        ] + url,
{
    if url.len() >= 4 {
        assert(url.take(4) =~= url.subrange(0, 4));
    }
}

/// Spaces around an address do not count.
pub proof fn law_spaces_around_an_address(before: nat, url: Seq<char>, behind: nat)
    requires
        url.len() > 0,
        !is_white_space(url[0]),
        !is_white_space(url[url.len() - 1]),
    ensures
        start_url(Seq::new(before, |i: int| ' ') + url + Seq::new(behind, |i: int| ' '))
            == start_url(url),
{
    let left = Seq::new(before, |i: int| ' ');
    let right = Seq::new(behind, |i: int| ' ');
    let all = left + url + right;
    lemma_spaces_before(before, url + right);
    lemma_spaces_behind(url, behind);
    assert(left + (url + right) =~= all);
    assert((url + right)[0] == url[0]);
    assert(trimmed_start(url + right) == url + right);
    if before == 0 && behind == 0 {
        assert(all =~= url);
    } else if before > 0 {
        assert(all[0] == ' ');
    } else {
        assert(all.last() == ' ');
    }
}

proof fn lemma_spaces_before(n: nat, text: Seq<char>)
    ensures
        trimmed_start(Seq::new(n, |i: int| ' ') + text) == trimmed_start(text),
    decreases n,
{
    let all = Seq::new(n, |i: int| ' ') + text;
    if n == 0 {
        assert(all =~= text);
    } else {
        lemma_spaces_before((n - 1) as nat, text);
        assert(all[0] == ' ');
        assert(all.skip(1) =~= Seq::new((n - 1) as nat, |i: int| ' ') + text);
    }
}

proof fn lemma_spaces_behind(text: Seq<char>, n: nat)
    requires
        text.len() > 0,
        !is_white_space(text[text.len() - 1]),
    ensures
        trimmed_end(text + Seq::new(n, |i: int| ' ')) == text,
    decreases n,
{
    let all = text + Seq::new(n, |i: int| ' ');
    if n == 0 {
        assert(all =~= text);
    } else {
        lemma_spaces_behind(text, (n - 1) as nat);
        assert(all.last() == ' ');
        assert(all.drop_last() =~= text + Seq::new((n - 1) as nat, |i: int| ' '));
    }
}

/// The name of a status is the one that its variant has.
pub proof fn law_status_has_its_name(status: CrawlStatus)
    ensures
        status_name(status) == match status {
            CrawlStatus::Start => seq!['S', 't', 'a', 'r', 't'],
            CrawlStatus::Idle => seq!['I', 'd', 'l', 'e'],
            CrawlStatus::Active => seq!['A', 'c', 't', 'i', 'v', 'e'],
            CrawlStatus::Blocked => seq!['B', 'l', 'o', 'c', 'k', 'e', 'd'],
            CrawlStatus::Empty => seq!['E', 'm', 'p', 't', 'y'],
            CrawlStatus::Invalid => seq!['I', 'n', 'v', 'a', 'l', 'i', 'd'],
            CrawlStatus::Shutdown => seq!['S', 'h', 'u', 't', 'd', 'o', 'w', 'n'],
            CrawlStatus::Paused => seq!['P', 'a', 'u', 's', 'e', 'd'],
        },
{
    reveal_strlit("Start");
    reveal_strlit("Idle");
    reveal_strlit("Active");
    reveal_strlit("Blocked");
    reveal_strlit("Empty");
    reveal_strlit("Invalid");
    reveal_strlit("Shutdown");
    reveal_strlit("Paused");
    match status {
        CrawlStatus::Start => assert(status_name(status) =~= seq!['S', 't', 'a', 'r', 't']),
        CrawlStatus::Idle => assert(status_name(status) =~= seq!['I', 'd', 'l', 'e']),
        CrawlStatus::Active => assert(status_name(status) =~= seq!['A', 'c', 't', 'i', 'v', 'e']),
        CrawlStatus::Blocked => assert(status_name(status) =~= seq![
            'B', 'l', 'o', 'c', 'k', 'e', 'd',
        ]),
        CrawlStatus::Empty => assert(status_name(status) =~= seq!['E', 'm', 'p', 't', 'y']),
        CrawlStatus::Invalid => assert(status_name(status) =~= seq![
            'I', 'n', 'v', 'a', 'l', 'i', 'd',
        ]),
        CrawlStatus::Shutdown => assert(status_name(status) =~= seq![
            'S', 'h', 'u', 't', 'd', 'o', 'w', 'n',
        ]),
        CrawlStatus::Paused => assert(status_name(status) =~= seq!['P', 'a', 'u', 's', 'e', 'd']),
    }
}

/// Content is handed out raw, byte by byte, exactly where that is asked for; otherwise it is read
/// as UTF-8, and is the text whose encoding it is. The address goes with it.
pub proof fn law_page_is_shown(page: NPage, res: Page, raw_content: bool, text: Seq<char>)
    requires
        page.shows(res, raw_content),
    ensures
        page.url@ == page_url(res),
        raw_content <==> page.content is Raw,
        !raw_content <==> page.content is Text,
        raw_content ==> page.content->Raw_0@ == page_bytes(res),
        !raw_content ==> page.content->Text_0@ == lossy_text(page_bytes(res)),
        !raw_content && encode_utf8(text) == page_bytes(res) ==> page.content->Text_0@ == text,
{
}

/// Pages of the same bytes show the same content, and those of one address show the same address.
pub proof fn law_pages_of_one_content_look_alike(
    one: NPage,
    first: Page,
    other: NPage,
    second: Page,
    raw_content: bool,
)
    requires
        one.shows(first, raw_content),
        other.shows(second, raw_content),
        page_bytes(first) == page_bytes(second),
    ensures
        match (one.content, other.content) {
            (Content::Text(a), Content::Text(b)) => !raw_content && a@ == b@,
            (Content::Raw(a), Content::Raw(b)) => raw_content && a@ == b@,
            _ => false,
        },
        page_url(first) == page_url(second) ==> one.url@ == other.url@,
{
}

/// A limit that is given last is the one that its path has, and the other paths keep theirs.
pub proof fn law_last_limit_counts(
    entries: Seq<(Seq<char>, u32)>,
    path: Seq<char>,
    limit: u32,
    other: Seq<char>,
)
    ensures
        limits(entries.push((path, limit))).dom().contains(path),
        limits(entries.push((path, limit)))[path] == limit,
        other != path ==> (limits(entries.push((path, limit))).dom().contains(other) <==> limits(
            entries,
        ).dom().contains(other)),
        other != path && limits(entries).dom().contains(other) ==> limits(
            entries.push((path, limit)),
        )[other] == limits(entries)[other],
        !limits(Seq::<(Seq<char>, u32)>::empty()).dom().contains(other),
{
    assert(entries.push((path, limit)).drop_last() =~= entries);
}

/// Every path that is given has a limit, the case of ASCII letters aside.
pub proof fn law_given_path_has_a_limit(
    entries: Seq<(Seq<char>, u32)>,
    budget: Map<Seq<char>, u32>,
    i: int,
)
    requires
        has_limits(budget, limits(entries)),
        0 <= i < entries.len(),
    ensures
        exists|path: Seq<char>| #[trigger]
            budget.dom().contains(path) && same_ignoring_case(path, entries[i].0),
{
    lemma_limits_given(entries);
    assert(limits(entries).dom().contains(entries[i].0));
}

/// Every path that has a limit was given, and its limit is that of a path that differs in case at
/// most; no other path that has one differs from it in case alone.
pub proof fn law_limit_was_given(
    entries: Seq<(Seq<char>, u32)>,
    budget: Map<Seq<char>, u32>,
    path: Seq<char>,
    other: Seq<char>,
)
    requires
        has_limits(budget, limits(entries)),
        budget.dom().contains(path),
    ensures
        exists|i: int| 0 <= i < entries.len() && (#[trigger] entries[i]).0 == path,
        exists|i: int|
            0 <= i < entries.len() && (#[trigger] entries[i]).1 == budget[path]
                && same_ignoring_case(entries[i].0, path),
        budget.dom().contains(other) && same_ignoring_case(other, path) ==> other == path,
{
    let given = limits(entries);
    lemma_limits_given(entries);
    assert(given.dom().contains(path));
    let i = choose|i: int| 0 <= i < entries.len() && (#[trigger] entries[i]) == (path, given[path]);
    assert(entries[i].0 == path);
    let source = choose|source: Seq<char>| #[trigger]
        given.dom().contains(source) && same_ignoring_case(source, path) && given[source]
            == budget[path];
    let j = choose|j: int|
        0 <= j < entries.len() && (#[trigger] entries[j]) == (source, given[source]);
    assert(entries[j].1 == budget[path]);
}

/// A path has a limit exactly where it is given one.
proof fn lemma_limits_given(entries: Seq<(Seq<char>, u32)>)
    ensures
        forall|i: int|
            0 <= i < entries.len() ==> limits(entries).dom().contains((#[trigger] entries[i]).0),
        forall|path: Seq<char>| #[trigger]
            limits(entries).dom().contains(path) ==> exists|i: int|
                0 <= i < entries.len() && (#[trigger] entries[i]) == (path, limits(entries)[path]),
    decreases entries.len(),
{
    if entries.len() > 0 {
        let rest = entries.drop_last();
        lemma_limits_given(rest);
        assert forall|i: int| 0 <= i < entries.len() implies limits(entries).dom().contains(
            (#[trigger] entries[i]).0,
        ) by {
            if i < rest.len() {
                assert(rest[i] == entries[i]);
            }
        }
        assert forall|path: Seq<char>| #[trigger] limits(entries).dom().contains(path) implies exists|
            i: int,
        |
            0 <= i < entries.len() && (#[trigger] entries[i]) == (path, limits(entries)[path]) by {
            if path == entries.last().0 {
                assert(entries[entries.len() - 1] == (path, limits(entries)[path]));
            } else {
                assert(limits(rest).dom().contains(path));
                let i = choose|i: int|
                    0 <= i < rest.len() && (#[trigger] rest[i]) == (path, limits(rest)[path]);
                assert(entries[i] == (path, limits(entries)[path]));
            }
        }
    }
}

/// Every host that is crawled is one that a text names; a star names itself, and any other text
/// the host of the URL that it is.
pub proof fn law_external_host_is_named(texts: Seq<Seq<char>>, host: Seq<char>)
    requires
        external_hosts(texts).contains(host),
    ensures
        exists|i: int|
            0 <= i < texts.len() && (if #[trigger] texts[i] == seq!['*'] {
                host == seq!['*']
            } else {
                url_host(texts[i]) == Some(host)
            }),
    decreases texts.len(),
{
    if texts.len() > 0 {
        let rest = texts.drop_last();
        if external_hosts(rest).contains(host) {
            law_external_host_is_named(rest, host);
            let i = choose|i: int|
                0 <= i < rest.len() && (if #[trigger] rest[i] == seq!['*'] {
                    host == seq!['*']
                } else {
                    url_host(rest[i]) == Some(host)
                });
            assert(texts[i] == rest[i]);
        } else {
            assert(external_host(texts.last()) == Some(host));
            assert(texts[texts.len() - 1] == texts.last());
        }
    }
}

/// The host that a text names is crawled, the case of ASCII letters aside: the star as a star, and
/// any other text as the host of the URL that it is.
pub proof fn law_named_host_is_crawled(texts: Seq<Seq<char>>, i: int, host: Seq<char>)
    requires
        0 <= i < texts.len(),
        if texts[i] == seq!['*'] {
            host == seq!['*']
        } else {
            url_host(texts[i]) == Some(host)
        },
    ensures
        exists|held: Seq<char>| #[trigger]
            external_hosts(texts).contains(held) && same_ignoring_case(held, host),
{
    crate::laws::law_external_hosts(texts);
    assert(external_host(texts[i]) == Some(host));
}

/// Two texts are the same, case aside, exactly where they are as long and every two characters
/// are equal or the two cases of one ASCII letter.
pub proof fn law_case_of_letters(a: Seq<char>, b: Seq<char>)
    ensures
        same_ignoring_case(a, b) <==> a.len() == b.len() && forall|i: int|
            0 <= i < a.len() ==> #[trigger] a[i] == #[trigger] b[i] || 'A' <= a[i] && a[i] <= 'Z'
                && a[i] as nat + 32 == b[i] as nat || 'A' <= b[i] && b[i] <= 'Z' && b[i] as nat + 32
                == a[i] as nat,
        ascii_lower_text(ascii_lower_text(a)) == ascii_lower_text(a),
        same_ignoring_case(a, ascii_lower_text(a)),
        forall|i: int|
            0 <= i < a.len() ==> !('A' <= #[trigger] ascii_lower_text(a)[i] && ascii_lower_text(
                a,
            )[i] <= 'Z'),
{
    let low = ascii_lower_text(a);
    assert forall|i: int| 0 <= i < a.len() implies !('A' <= #[trigger] low[i] && low[i] <= 'Z') by {
        assert(low[i] == crate::headers::ascii_lower(a[i]));
    }
    assert(ascii_lower_text(low) =~= low);
    if same_ignoring_case(a, b) {
        assert(low.len() == a.len());
        assert(ascii_lower_text(b).len() == b.len());
        assert forall|i: int| 0 <= i < a.len() implies #[trigger] a[i] == #[trigger] b[i] || 'A' <= a[i]
            && a[i] <= 'Z' && a[i] as nat + 32 == b[i] as nat || 'A' <= b[i] && b[i] <= 'Z'
            && b[i] as nat + 32 == a[i] as nat by {
            assert(low[i] == ascii_lower_text(b)[i]);
        }
    }
    if a.len() == b.len() && forall|i: int|
        0 <= i < a.len() ==> #[trigger] a[i] == #[trigger] b[i] || 'A' <= a[i] && a[i] <= 'Z'
            && a[i] as nat + 32 == b[i] as nat || 'A' <= b[i] && b[i] <= 'Z' && b[i] as nat + 32
            == a[i] as nat {
        assert forall|i: int| 0 <= i < a.len() implies low[i] == ascii_lower_text(b)[i] by {
            assert(a[i] == a[i] && b[i] == b[i]);
        }
        assert(low =~= ascii_lower_text(b));
    }
}

/// A text is a header name where it has some characters, not too many, and all of them are visible
/// and none is a delimiter.
pub proof fn law_header_name_is_a_token(text: Seq<char>)
    ensures
        is_header_name(text) <==> 0 < text.len() <= 65535 && forall|i: int|
            0 <= i < text.len() ==> '!' <= #[trigger] text[i] && text[i] <= '~' && !seq![
                '(', ')', ',', '/', ':', ';', '<', '=', '>', '?', '@', '[', '\\', ']', '{', '}',
            ].contains(text[i]),
{
    let delimiters = seq![
        '(', ')', ',', '/', ':', ';', '<', '=', '>', '?', '@', '[', '\\', ']', '{', '}',
    ];
    assert forall|c: char| #[trigger] is_name_char(c) <==> '!' <= c && c <= '~' && !delimiters.contains(
        c,
    ) by {
        if '!' <= c && c <= '~' && !is_name_char(c) {
            assert(c == delimiters[0] || c == delimiters[1] || c == delimiters[2] || c
                == delimiters[3] || c == delimiters[4] || c == delimiters[5] || c == delimiters[6]
                || c == delimiters[7] || c == delimiters[8] || c == delimiters[9] || c
                == delimiters[10] || c == delimiters[11] || c == delimiters[12] || c
                == delimiters[13] || c == delimiters[14] || c == delimiters[15]);
        }
    }
    if is_header_name(text) {
        assert forall|i: int| 0 <= i < text.len() implies '!' <= #[trigger] text[i] && text[i] <= '~'
            && !delimiters.contains(text[i]) by {
            assert(is_name_char(text[i]));
        }
    }
}

/// A text is a header value where no byte of its encoding is a control byte, the tab aside.
pub proof fn law_header_value_has_no_control_bytes(text: Seq<char>)
    ensures
        is_header_value(text) <==> forall|i: int|
            0 <= i < encode_utf8(text).len() ==> #[trigger] encode_utf8(text)[i] == 9
                || encode_utf8(text)[i] >= 32 && encode_utf8(text)[i] != 127,
{
    let bytes = encode_utf8(text);
    if forall|i: int|
        0 <= i < bytes.len() ==> #[trigger] bytes[i] == 9 || bytes[i] >= 32 && bytes[i] != 127 {
        assert forall|i: int| 0 <= i < bytes.len() implies crate::headers::is_value_byte(
            #[trigger] bytes[i],
        ) by {}
    }
    if is_header_value(text) {
        assert forall|i: int| 0 <= i < bytes.len() implies #[trigger] bytes[i] == 9 || bytes[i] >= 32
            && bytes[i] != 127 by {
            assert(crate::headers::is_value_byte(bytes[i]));
        }
    }
}

/// Every pair of texts and every entry of a budget that is handed over counts, in its order.
pub proof fn law_every_entry_counts(pairs: Seq<(String, String)>, budget: Seq<(String, u32)>)
    ensures
        pairs_view(pairs).len() == pairs.len(),
        forall|i: int|
            0 <= i < pairs.len() ==> #[trigger] pairs_view(pairs)[i] == (pairs[i].0@, pairs[i].1@),
        budget_view(budget).len() == budget.len(),
        forall|i: int|
            0 <= i < budget.len() ==> #[trigger] budget_view(budget)[i] == (
                budget[i].0@,
                budget[i].1,
            ),
{
}

/// The values that pairs give a header name, in their order.
pub open spec fn given_values(pairs: Seq<(Seq<char>, Seq<char>)>, name: Seq<char>) -> Seq<
    Seq<u8>,
> {
    pairs.filter(
        |pair: (Seq<char>, Seq<char>)|
            is_header_name(pair.0) && is_header_value(pair.1) && same_ignoring_case(pair.0, name),
    ).map_values(|pair: (Seq<char>, Seq<char>)| encode_utf8(pair.1))
}

proof fn lemma_given_values(pairs: Seq<(Seq<char>, Seq<char>)>, name: Seq<char>)
    requires
        pairs.len() > 0,
    ensures
        given_values(pairs, name) == (if is_header_name(pairs.last().0) && is_header_value(
            pairs.last().1,
        ) && same_ignoring_case(pairs.last().0, name) {
            given_values(pairs.drop_last(), name).push(encode_utf8(pairs.last().1))
        } else {
            given_values(pairs.drop_last(), name)
        }),
{
    let pred = |pair: (Seq<char>, Seq<char>)|
        is_header_name(pair.0) && is_header_value(pair.1) && same_ignoring_case(pair.0, name);
    reveal(Seq::filter);
    let before = pairs.drop_last().filter(pred);
    if pred(pairs.last()) {
        assert(given_values(pairs, name) =~= given_values(pairs.drop_last(), name).push(
            encode_utf8(pairs.last().1),
        ));
    }
}

/// A header has the values of the pairs with its name, whatever their case, in the order in which
/// they came. Every name is in lower case and stands once; every name that a pair gives stands,
/// and no other.
pub proof fn law_header_has_its_values(pairs: Seq<(Seq<char>, Seq<char>)>)
    ensures
        forall|g: int|
            0 <= g < collected(pairs).len() ==> (#[trigger] collected(pairs)[g]).1 == given_values(
                pairs,
                collected(pairs)[g].0,
            ) && collected(pairs)[g].1.len() > 0 && ascii_lower_text(collected(pairs)[g].0)
                == collected(pairs)[g].0,
        forall|g: int, h: int|
            0 <= g < h < collected(pairs).len() ==> (#[trigger] collected(pairs)[g]).0 != (
            #[trigger] collected(pairs)[h]).0,
        forall|name: Seq<char>| #[trigger]
            given_values(pairs, name).len() > 0 ==> exists|g: int|
                0 <= g < collected(pairs).len() && (#[trigger] collected(pairs)[g]).0
                    == ascii_lower_text(name),
    decreases pairs.len(),
{
    let after = collected(pairs);
    if pairs.len() == 0 {
        assert forall|name: Seq<char>| #[trigger] given_values(pairs, name).len() == 0 by {
            reveal(Seq::filter);
        }
    } else {
        let rest = pairs.drop_last();
        let before = collected(rest);
        law_header_has_its_values(rest);
        let (last, value) = pairs.last();
        let low = ascii_lower_text(last);
        law_case_of_letters(last, last);
        if is_header_name(last) && is_header_value(value) {
            let at = if has_name(before, low) {
                choose|i: int| names_at(before, i, low)
            } else {
                before.len() as int
            };
            if has_name(before, low) {
                assert(names_at(before, at, low));
            } else {
                assert(forall|g: int| !#[trigger] names_at(before, g, low));
                lemma_given_values(pairs, low);
                if given_values(rest, low).len() > 0 {
                    let g = choose|g: int|
                        0 <= g < before.len() && (#[trigger] before[g]).0 == ascii_lower_text(low);
                    assert(names_at(before, g, low));
                }
                assert(given_values(rest, low) =~= Seq::empty());
                assert(seq![encode_utf8(value)] =~= Seq::<Seq<u8>>::empty().push(
                    encode_utf8(value),
                ));
            }
            assert forall|g: int| 0 <= g < after.len() implies (#[trigger] after[g]).1 == given_values(
                pairs,
                after[g].0,
            ) && after[g].1.len() > 0 && ascii_lower_text(after[g].0) == after[g].0 by {
                lemma_given_values(pairs, after[g].0);
                if g != at {
                    assert(after[g] == before[g]);
                    if has_name(before, low) {
                        assert(before[g].0 != before[at].0);
                    } else {
                        assert(!names_at(before, g, low));
                    }
                }
            }
            assert forall|g: int, h: int| 0 <= g < h < after.len() implies (#[trigger] after[g]).0
                != (#[trigger] after[h]).0 by {
                if has_name(before, low) {
                    assert(after[g].0 == before[g].0);
                    assert(after[h].0 == before[h].0);
                } else if h == before.len() {
                    assert(!names_at(before, g, low));
                }
            }
            assert forall|name: Seq<char>| #[trigger] given_values(pairs, name).len() > 0 implies exists|
                g: int,
            |
                0 <= g < after.len() && (#[trigger] after[g]).0 == ascii_lower_text(name) by {
                lemma_given_values(pairs, name);
                if same_ignoring_case(last, name) {
                    assert(after[at].0 == ascii_lower_text(name));
                } else {
                    let g = choose|g: int|
                        0 <= g < before.len() && (#[trigger] before[g]).0 == ascii_lower_text(name);
                    assert(after[g].0 == ascii_lower_text(name));
                }
            }
        } else {
            assert forall|g: int| 0 <= g < after.len() implies (#[trigger] after[g]).1 == given_values(
                pairs,
                after[g].0,
            ) by {
                lemma_given_values(pairs, after[g].0);
            }
            assert forall|name: Seq<char>| #[trigger] given_values(pairs, name).len() > 0 implies exists|
                g: int,
            |
                0 <= g < after.len() && (#[trigger] after[g]).0 == ascii_lower_text(name) by {
                lemma_given_values(pairs, name);
            }
        }
    }
}

/// One more pair leaves the header names where they are; at most its own comes behind them.
pub proof fn law_header_names_come_in_order(
    pairs: Seq<(Seq<char>, Seq<char>)>,
    name: Seq<char>,
    value: Seq<char>,
)
    ensures
        collected(pairs).len() <= collected(pairs.push((name, value))).len() <= collected(
            pairs,
        ).len() + 1,
        forall|g: int|
            0 <= g < collected(pairs).len() ==> (#[trigger] collected(pairs)[g]).0 == collected(
                pairs.push((name, value)),
            )[g].0,
        collected(pairs.push((name, value))).len() > collected(pairs).len() ==> same_ignoring_case(
            collected(pairs.push((name, value))).last().0,
            name,
        ),
{
    assert(pairs.push((name, value)).drop_last() =~= pairs);
    law_case_of_letters(name, name);
    let low = ascii_lower_text(name);
    if has_name(collected(pairs), low) {
        let i = choose|i: int| names_at(collected(pairs), i, low);
        assert(names_at(collected(pairs), i, low));
    }
}

/// The headers among pairs are those whose name is a header name and whose value a header value.
pub proof fn law_accepted_items_make_a_header(pairs: Seq<(Seq<char>, Seq<char>)>)
    ensures
        accepted_items(pairs) == pairs.filter(
            |pair: (Seq<char>, Seq<char>)| is_header_name(pair.0) && is_header_value(pair.1),
        ).map_values(
            |pair: (Seq<char>, Seq<char>)| (ascii_lower_text(pair.0), encode_utf8(pair.1)),
        ),
    decreases pairs.len(),
{
    reveal(Seq::filter);
    if pairs.len() > 0 {
        law_accepted_items_make_a_header(pairs.drop_last());
    }
    assert(accepted_items(pairs) =~= pairs.filter(
        |pair: (Seq<char>, Seq<char>)| is_header_name(pair.0) && is_header_value(pair.1),
    ).map_values(|pair: (Seq<char>, Seq<char>)| (ascii_lower_text(pair.0), encode_utf8(pair.1))));
}

/// Headers are shown name by name: one more name comes behind the others, with all of its values
/// in their order.
pub proof fn law_headers_are_shown_name_by_name(
    groups: Seq<(Seq<char>, Seq<Seq<u8>>)>,
    name: Seq<char>,
    values: Seq<Seq<u8>>,
)
    ensures
        shown_headers(Seq::<(Seq<char>, Seq<Seq<u8>>)>::empty()).len() == 0,
        ({
            let before = shown_headers(groups);
            let after = shown_headers(groups.push((name, values)));
            &&& after.len() == before.len() + values.len()
            &&& forall|i: int| 0 <= i < before.len() ==> #[trigger] after[i] == before[i]
            &&& forall|i: int|
                0 <= i < values.len() ==> after[before.len() + i] == (name, shown_value(
                    #[trigger] values[i],
                ))
        }),
{
    let all = groups.push((name, values));
    assert(all.drop_last() =~= groups);
    let more = values.map_values(|value: Seq<u8>| (all.last().0, value));
    assert(header_items(all) =~= header_items(groups) + more);
    assert forall|i: int| 0 <= i < values.len() implies shown_headers(all)[shown_headers(groups).len()
        + i] == (name, shown_value(#[trigger] values[i])) by {
        assert(header_items(all)[header_items(groups).len() + i] == more[i]);
    }
}

/// A value of visible characters, spaces and tabs is shown character by character, and any other
/// as nothing.
pub proof fn law_shown_value_is_its_characters(bytes: Seq<u8>)
    ensures
        (forall|i: int|
            0 <= i < bytes.len() ==> 32 <= #[trigger] bytes[i] < 127 || bytes[i] == 9) ==> (
        shown_value(bytes).len() == bytes.len() && forall|i: int|
            0 <= i < bytes.len() ==> #[trigger] shown_value(bytes)[i] as nat == bytes[i]),
        (exists|i: int|
            0 <= i < bytes.len() && !(32 <= #[trigger] bytes[i] < 127 || bytes[i] == 9))
            ==> shown_value(bytes).len() == 0,
{
    if exists|i: int| 0 <= i < bytes.len() && !(32 <= #[trigger] bytes[i] < 127 || bytes[i] == 9) {
        let i = choose|i: int|
            0 <= i < bytes.len() && !(32 <= #[trigger] bytes[i] < 127 || bytes[i] == 9);
        assert(!crate::headers::is_visible_byte(bytes[i]));
    }
}

/// As many as 6553 pairs always fit, more than 24576 names never do, and an ordinary buffer makes
/// a channel.
pub proof fn law_ordinary_sizes_fit(pairs: Seq<(Seq<char>, Seq<char>)>, buffer: usize)
    ensures
        pairs.len() <= 6553 ==> collected(pairs).len() <= SAFE_HEADER_NAMES,
        collected(pairs).len() > 24576 ==> collected(pairs).len() > MAX_HEADER_NAMES,
        buffer <= 0x10_0000 ==> buffer / 2 <= MAX_CAPACITY,
{
    law_pairs_bound_header_names(pairs);
}

} // verus!
