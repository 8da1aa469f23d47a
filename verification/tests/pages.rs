use spider::bytes::Bytes;
use spider::page::{build, Page};
use spider::utils::PageResponse;
use spider_py::page::{show_pages, Content, NPage};

fn page(url: &str, content: Option<&'static [u8]>) -> Page {
    let mut response = PageResponse::default();
    response.content = content.map(|bytes| Bytes::from_static(bytes));
    build(url, response)
}

fn text_of(page: &NPage) -> &str {
    match &page.content {
        Content::Text(text) => text,
        Content::Raw(_) => panic!("the content is converted"),
    }
}

fn bytes_of(page: &NPage) -> &[u8] {
    match &page.content {
        Content::Raw(bytes) => bytes,
        Content::Text(_) => panic!("the content is not converted"),
    }
}

#[test]
fn content_is_read_as_utf8() {
    let shown = NPage::new(&page("https://example.com/a", Some("w\u{f6}rt".as_bytes())), false);
    assert_eq!(shown.url, "https://example.com/a");
    assert_eq!(text_of(&shown), "w\u{f6}rt");
}

#[test]
fn content_that_is_not_utf8_is_replaced() {
    let shown = NPage::new(&page("https://example.com", Some(b"a\xffb")), false);
    assert_eq!(text_of(&shown), "a\u{fffd}b");
}

#[test]
fn raw_content_stays() {
    let shown = NPage::new(&page("https://example.com", Some(b"a\xffb")), true);
    assert_eq!(bytes_of(&shown), b"a\xffb");
}

#[test]
fn page_without_content() {
    let without = page("https://example.com", None);
    assert_eq!(text_of(&NPage::new(&without, false)), "");
    assert_eq!(bytes_of(&NPage::new(&without, true)).len(), 0);
}

#[test]
fn pages_keep_their_order() {
    let pages = vec![
        page("https://example.com/1", Some(b"one")),
        page("https://example.com/2", Some(b"two")),
    ];
    let shown = show_pages(&pages, false);
    assert_eq!(shown.len(), 2);
    assert_eq!(shown[0].url, "https://example.com/1");
    assert_eq!(text_of(&shown[0]), "one");
    assert_eq!(shown[1].url, "https://example.com/2");
    assert_eq!(text_of(&shown[1]), "two");
}
