//! The HTTP headers that a crawl sends with its requests.
use spider::reqwest::header::{
    HeaderMap, HeaderName, HeaderValue, InvalidHeaderName, InvalidHeaderValue, MaxSizeReached,
    ToStrError,
};
use vstd::prelude::*;
use vstd::string::*;
use vstd::utf8::encode_utf8;

verus! {

/// `reqwest::header::HeaderMap`: the values under each header name.
#[verifier::external_type_specification]
#[verifier::external_body]
#[verifier::reject_recursive_types(T)]
pub struct ExHeaderMap<T>(spider::reqwest::header::HeaderMap<T>);

/// `reqwest::header::HeaderName`: a header name, which is in lower case.
#[verifier::external_type_specification]
#[verifier::external_body]
pub struct ExHeaderName(spider::reqwest::header::HeaderName);

/// `reqwest::header::HeaderValue`: a header value, a string of bytes.
#[verifier::external_type_specification]
#[verifier::external_body]
pub struct ExHeaderValue(spider::reqwest::header::HeaderValue);

/// `reqwest::header::InvalidHeaderName`: a text is no header name.
#[verifier::external_type_specification]
#[verifier::external_body]
pub struct ExInvalidHeaderName(spider::reqwest::header::InvalidHeaderName);

/// `reqwest::header::InvalidHeaderValue`: a text is no header value.
#[verifier::external_type_specification]
#[verifier::external_body]
pub struct ExInvalidHeaderValue(spider::reqwest::header::InvalidHeaderValue);

/// `reqwest::header::ToStrError`: a header value is no text.
#[verifier::external_type_specification]
#[verifier::external_body]
pub struct ExToStrError(spider::reqwest::header::ToStrError);

/// `reqwest::header::MaxSizeReached`: a map can not grow any more.
#[verifier::external_type_specification]
#[verifier::external_body]
pub struct ExMaxSizeReached(spider::reqwest::header::MaxSizeReached);

/// The headers of a map: each name once, in the order in which the names came, with its
/// values in the order in which they came.
pub uninterp spec fn map_groups(
    map: spider::reqwest::header::HeaderMap,
) -> Seq<(Seq<char>, Seq<Seq<u8>>)>;

/// The characters of a header name.
pub uninterp spec fn name_text(name: spider::reqwest::header::HeaderName) -> Seq<char>;

/// The bytes of a header value.
pub uninterp spec fn value_bytes(value: spider::reqwest::header::HeaderValue) -> Seq<u8>;

/// The number of header names up to which a map always takes another header.
pub const SAFE_HEADER_NAMES: usize = 6553;

/// The number of header names from which on a map takes no more headers.
pub const MAX_HEADER_NAMES: usize = 24576;

/// There are too many headers for a map.
#[derive(Clone, Copy, Debug, PartialEq, Eq, Structural)]
pub struct TooManyHeaders;

/// The length of the longest header name.
pub const MAX_HEADER_NAME_LEN: usize = 65535;

/// A character in lower case, where it is an ASCII letter.
pub open spec fn ascii_lower(c: char) -> char {
    if 'A' <= c && c <= 'Z' {
        (c as nat + 32) as char
    } else {
        c
    }
}

/// A text with its ASCII letters in lower case.
pub open spec fn ascii_lower_text(text: Seq<char>) -> Seq<char> {
    text.map_values(|c: char| ascii_lower(c))
}

/// Whether a header name may hold the character.
pub open spec fn is_name_char(c: char) -> bool {
    ||| 'a' <= c && c <= 'z'
    ||| 'A' <= c && c <= 'Z'
    ||| '0' <= c && c <= '9'
    ||| '!' <= c && c <= '\''
    ||| '^' <= c && c <= '`'
    ||| c == '*'
    ||| c == '+'
    ||| c == '-'
    ||| c == '.'
    ||| c == '|'
    ||| c == '~'
}

/// Whether a text is a header name.
pub open spec fn is_header_name(text: Seq<char>) -> bool {
    &&& 0 < text.len() <= MAX_HEADER_NAME_LEN
    &&& forall|i: int| 0 <= i < text.len() ==> is_name_char(#[trigger] text[i])
}

/// Whether a header value may hold the byte: no control byte but the tab.
pub open spec fn is_value_byte(b: u8) -> bool {
    b >= 32 && b != 127 || b == 9
}

/// Whether a text is a header value.
pub open spec fn is_header_value(text: Seq<char>) -> bool {
    forall|i: int|
        0 <= i < encode_utf8(text).len() ==> is_value_byte(#[trigger] encode_utf8(text)[i])
}

/// Whether a byte is a visible ASCII character, a space or a tab.
pub open spec fn is_visible_byte(b: u8) -> bool {
    32 <= b < 127 || b == 9
}

/// Whether the bytes of a header value can be read as a text.
pub open spec fn is_visible(bytes: Seq<u8>) -> bool {
    forall|i: int| 0 <= i < bytes.len() ==> is_visible_byte(#[trigger] bytes[i])
}

/// ASCII bytes as a text.
pub open spec fn ascii_text(bytes: Seq<u8>) -> Seq<char> {
    bytes.map_values(|b: u8| b as char)
}

/// Whether the group at position `i` holds the values under the name `name`.
pub open spec fn names_at(groups: Seq<(Seq<char>, Seq<Seq<u8>>)>, i: int, name: Seq<char>) -> bool {
    0 <= i < groups.len() && groups[i].0 == name
}

/// Whether some group holds values under the name `name`.
pub open spec fn has_name(groups: Seq<(Seq<char>, Seq<Seq<u8>>)>, name: Seq<char>) -> bool {
    exists|i: int| names_at(groups, i, name)
}

/// The headers with one more value: behind the values under its name, or under a name of
/// its own behind all the others.
pub open spec fn with_header(
    groups: Seq<(Seq<char>, Seq<Seq<u8>>)>,
    name: Seq<char>,
    value: Seq<u8>,
) -> Seq<(Seq<char>, Seq<Seq<u8>>)> {
    if has_name(groups, name) {
        let i = choose|i: int| names_at(groups, i, name);
        groups.update(i, (name, groups[i].1.push(value)))
    } else {
        groups.push((name, seq![value]))
    }
}

/// The headers name by name: every value with its name.
pub open spec fn header_items(groups: Seq<(Seq<char>, Seq<Seq<u8>>)>) -> Seq<
    (Seq<char>, Seq<u8>),
>
    decreases groups.len(),
{
    if groups.len() == 0 {
        Seq::empty()
    } else {
        header_items(groups.drop_last()) + groups.last().1.map_values(
            |value: Seq<u8>| (groups.last().0, value),
        )
    }
}

/// The text that a header value is shown as: nothing, where it can not be read as a text.
pub open spec fn shown_value(bytes: Seq<u8>) -> Seq<char> {
    if is_visible(bytes) {
        ascii_text(bytes)
    } else {
        Seq::empty()
    }
}

/// The headers as they are shown: every name with one of its values.
pub open spec fn shown_headers(groups: Seq<(Seq<char>, Seq<Seq<u8>>)>) -> Seq<
    (Seq<char>, Seq<char>),
> {
    header_items(groups).map_values(
        |item: (Seq<char>, Seq<u8>)| (item.0, shown_value(item.1)),
    )
}

/// Pairs of texts.
pub open spec fn pairs_view(pairs: Seq<(String, String)>) -> Seq<(Seq<char>, Seq<char>)> {
    pairs.map_values(|pair: (String, String)| (pair.0@, pair.1@))
}

/// The headers that pairs of a name and a value give: a pair whose name is no header name
/// or whose value is no header value is left out.
pub open spec fn collected(pairs: Seq<(Seq<char>, Seq<char>)>) -> Seq<(Seq<char>, Seq<Seq<u8>>)>
    decreases pairs.len(),
{
    if pairs.len() == 0 {
        Seq::empty()
    } else {
        let before = collected(pairs.drop_last());
        let (name, value) = pairs.last();
        if is_header_name(name) && is_header_value(value) {
            with_header(before, ascii_lower_text(name), encode_utf8(value))
        } else {
            before
        }
    }
}

/// Header values with their names, as handed out by a map.
pub open spec fn items_view(
    items: Seq<(String, spider::reqwest::header::HeaderValue)>,
) -> Seq<(Seq<char>, Seq<u8>)> {
    items.map_values(
        |item: (String, spider::reqwest::header::HeaderValue)| (item.0@, value_bytes(item.1)),
    )
}

/// `HeaderName::from_str`: a name of at most 65535 characters, each of them one that names
/// may hold, in lower case; any other text is refused.
#[verifier::external_body]
fn header_name(text: &str) -> (name: Result<HeaderName, InvalidHeaderName>)
    ensures
        name is Ok <==> is_header_name(text@),
        name matches Ok(name) ==> name_text(name) == ascii_lower_text(text@),
{
    text.parse::<HeaderName>()
}

/// `HeaderValue::from_str`: the bytes of a text, where each of them is one that values may
/// hold; any other text is refused.
#[verifier::external_body]
fn header_value(text: &str) -> (value: Result<HeaderValue, InvalidHeaderValue>)
    ensures
        value is Ok <==> is_header_value(text@),
        value matches Ok(value) ==> value_bytes(value) == encode_utf8(text@),
{
    HeaderValue::from_str(text)
}

/// `HeaderValue::to_str`: the text of a value whose bytes are all visible ASCII
/// characters, spaces or tabs; any other value is refused.
#[verifier::external_body]
fn header_text(value: &HeaderValue) -> (text: Result<String, ToStrError>)
    ensures
        text is Ok <==> is_visible(value_bytes(*value)),
        text matches Ok(text) ==> text@ == ascii_text(value_bytes(*value)),
{
    value.to_str().map(|text| text.to_string())
}

/// `HeaderMap::new`: a map without headers.
#[verifier::external_body]
fn map_new() -> (map: HeaderMap)
    ensures
        map_groups(map) == Seq::<(Seq<char>, Seq<Seq<u8>>)>::empty(),
{
    HeaderMap::new()
}

/// `HeaderMap::try_append`: one more value under a name. The map refuses it where it would
/// have to grow past its largest size, of which it fills three quarters. Earlier, from a fifth
/// of that size on, it refuses where too many names collide in its hash table, which is not
/// said here.
#[verifier::external_body]
fn map_try_append(map: &mut HeaderMap, name: HeaderName, value: HeaderValue) -> (appended: Result<
    bool,
    MaxSizeReached,
>)
    ensures
        map_groups(*old(map)).len() <= SAFE_HEADER_NAMES ==> appended is Ok,
        map_groups(*old(map)).len() >= MAX_HEADER_NAMES ==> appended is Err,
        appended matches Ok(had_name) ==> had_name == has_name(
            map_groups(*old(map)),
            name_text(name),
        ) && map_groups(*final(map)) == with_header(
            map_groups(*old(map)),
            name_text(name),
            value_bytes(value),
        ),
{
    map.try_append(name, value)
}

/// `HeaderMap::iter`: hands out every value with its name, name by name.
#[verifier::external_body]
fn map_items(map: &HeaderMap) -> (items: Vec<(String, HeaderValue)>)
    ensures
        items_view(items@) == header_items(map_groups(*map)),
{
    map.iter().map(|item| (item.0.to_string(), item.1.clone())).collect()
}

/// More pairs give no fewer names.
proof fn lemma_collected_grows(pairs: Seq<(Seq<char>, Seq<char>)>, i: int)
    requires
        0 <= i <= pairs.len(),
    ensures
        collected(pairs.take(i)).len() <= collected(pairs).len(),
    decreases pairs.len() - i,
{
    if i == pairs.len() {
        assert(pairs.take(i) =~= pairs);
    } else {
        assert(pairs.take(i + 1).drop_last() =~= pairs.take(i));
        lemma_collected_grows(pairs, i + 1);
    }
}

/// The headers that pairs of a name and a value give. All of them fit up to
/// `SAFE_HEADER_NAMES` names, and none above `MAX_HEADER_NAMES`; between the two the hash
/// table decides.
pub fn collect_headers(pairs: &Vec<(String, String)>) -> (map: Result<HeaderMap, TooManyHeaders>)
    ensures
        map matches Ok(map) ==> map_groups(map) == collected(pairs_view(pairs@)),
        collected(pairs_view(pairs@)).len() <= SAFE_HEADER_NAMES ==> map is Ok,
        collected(pairs_view(pairs@)).len() > MAX_HEADER_NAMES ==> map is Err,
{
    let ghost all = pairs_view(pairs@);
    let mut map = map_new();
    let mut i: usize = 0;
    while i < pairs.len()
        invariant
            i <= pairs@.len(),
            all == pairs_view(pairs@),
            map_groups(map) == collected(all.take(i as int)),
            map_groups(map).len() <= MAX_HEADER_NAMES,
        decreases pairs@.len() - i,
    {
        proof {
            lemma_collected_grows(all, i as int);
            assert(all.take(i + 1).drop_last() =~= all.take(i as int));
        }
        match header_name(pairs[i].0.as_str()) {
            Ok(name) => {
                match header_value(pairs[i].1.as_str()) {
                    Ok(value) => {
                        match map_try_append(&mut map, name, value) {
                            Ok(_) => (),
                            Err(_) => {
                                return Err(TooManyHeaders);
                            },
                        }
                    },
                    _ => (),
                }
            },
            _ => (),
        }
        i = i + 1;
    }
    assert(all.take(i as int) =~= all);
    Ok(map)
}

/// The headers as they are shown.
pub fn show_headers(map: &HeaderMap) -> (shown: Vec<(String, String)>)
    ensures
        pairs_view(shown@) == shown_headers(map_groups(*map)),
{
    let items = map_items(map);
    let ghost all = items_view(items@);
    let mut shown: Vec<(String, String)> = Vec::new();
    let mut i: usize = 0;
    while i < items.len()
        invariant
            i <= items@.len(),
            all == items_view(items@),
            shown@.len() == i,
            forall|j: int|
                0 <= j < i ==> (#[trigger] shown@[j]).0@ == all[j].0 && shown@[j].1@
                    == shown_value(all[j].1),
        decreases items@.len() - i,
    {
        let mut value = String::new();
        match header_text(&items[i].1) {
            Ok(text) => {
                value.append(text.as_str());
            },
            _ => (),
        }
        assert(value@ =~= shown_value(all[i as int].1));
        shown.push((items[i].0.clone(), value));
        i = i + 1;
    }
    assert(pairs_view(shown@) =~= shown_headers(map_groups(*map)));
    shown
}

} // verus!
