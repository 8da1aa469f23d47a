//! The pages that a crawl hands out.
use spider::page::Page;
use vstd::prelude::*;
use vstd::utf8::encode_utf8;

verus! {

/// `spider::page::Page`: a page as the crawler fetched it.
#[verifier::external_type_specification]
#[verifier::external_body]
pub struct ExPage(spider::page::Page);

/// The address that a page was fetched from.
pub uninterp spec fn page_url(page: spider::page::Page) -> Seq<char>;

/// The bytes of a page, none where the page has no content.
pub uninterp spec fn page_bytes(page: spider::page::Page) -> Seq<u8>;

/// The text that bytes are read as: UTF-8, with replacement characters for what is not.
pub uninterp spec fn lossy_text(bytes: Seq<u8>) -> Seq<char>;

/// `Page::get_url`: the address of a page.
#[verifier::external_body]
fn get_url(page: &Page) -> (url: String)
    ensures
        url@ == page_url(*page),
{
    page.get_url().to_string()
}

/// `Page::get_html`: the bytes of a page read as UTF-8. Bytes that are the UTF-8 encoding of
/// a text give that text; what replaces the bytes of any others is left to `lossy_text`.
#[verifier::external_body]
fn get_html(page: &Page) -> (html: String)
    ensures
        html@ == lossy_text(page_bytes(*page)),
        forall|text: Seq<char>|
            #[trigger] encode_utf8(text) == page_bytes(*page) ==> html@ == text,
{
    page.get_html()
}

/// `Page::get_html_bytes_u8`: the bytes of a page.
#[verifier::external_body]
fn get_bytes(page: &Page) -> (bytes: Vec<u8>)
    ensures
        bytes@ == page_bytes(*page),
{
    page.get_html_bytes_u8().to_vec()
}

/// The content of a page.
pub enum Content {
    /// The content read as UTF-8.
    Text(String),
    /// The content as it came.
    Raw(Vec<u8>),
}

/// A page fit for a listener.
pub struct NPage {
    /// The address that the page was fetched from.
    pub url: String,
    /// The content of the page.
    pub content: Content,
}

impl NPage {
    /// A page as the crawler fetched it, its content converted to UTF-8 or not.
    pub fn new(res: &Page, raw_content: bool) -> (page: NPage)
        ensures
            page.shows(*res, raw_content),
    {
        let content = if raw_content {
            Content::Raw(get_bytes(res))
        } else {
            Content::Text(get_html(res))
        };
        NPage { url: get_url(res), content }
    }

    /// Whether this is what a listener sees of the page `res`. Content that is the UTF-8
    /// encoding of a text is seen as that text.
    pub open spec fn shows(&self, res: Page, raw_content: bool) -> bool {
        &&& self.url@ == page_url(res)
        &&& match self.content {
            Content::Text(shown) => !raw_content && shown@ == lossy_text(page_bytes(res)) && (
            forall|text: Seq<char>| #[trigger]
                encode_utf8(text) == page_bytes(res) ==> shown@ == text),
            Content::Raw(bytes) => raw_content && bytes@ == page_bytes(res),
        }
    }
}

/// The pages `res`, in their order.
pub fn show_pages(res: &Vec<Page>, raw_content: bool) -> (pages: Vec<NPage>)
    ensures
        pages@.len() == res@.len(),
        forall|i: int|
            0 <= i < res@.len() ==> (#[trigger] pages@[i]).shows(res@[i], raw_content),
{
    let mut pages: Vec<NPage> = Vec::new();
    let mut i: usize = 0;
    while i < res.len()
        invariant
            i <= res@.len(),
            pages@.len() == i,
            forall|j: int| 0 <= j < i ==> (#[trigger] pages@[j]).shows(res@[j], raw_content),
        decreases res@.len() - i,
    {
        pages.push(NPage::new(&res[i], raw_content));
        i = i + 1;
    }
    pages
}

} // verus!
