//! Reading what a provider's page holds.
//!
//! The pages are HTML. Parsing and querying them is done by the `select`
//! crate; the functions here hand it a page and the selectors to look for
//! and bring back plain text. What a query yields is a function of the page
//! and the selectors alone; each query has a `spec` function here that names
//! what it yields, and the contracts built on top speak of that name.

use vstd::prelude::*;
use vstd::string::*;
use vstd::utf8::*;
use select::document::Document;
use select::predicate::{Attr, Class, Name, Predicate};
use crate::error::ParseFault;
use crate::text::decode_utf8_bytes;

verus! {

/// The largest body, in bytes, that is read as a page. The parser keeps text
/// in buffers that grow to the next power of two and cannot grow beyond
/// 2^31 bytes, and it may write three bytes for one byte read: a NUL becomes
/// a replacement character. So three times the length of a page must stay
/// within 2^31.
pub const MAX_PAGE_BYTES: usize = 0x2AAA_AAAA;

/// What was found within one listed item: the texts of its labels, and the
/// attribute of each of its dates as far as it is set.
pub type Matches = (Seq<Seq<char>>, Seq<Option<Seq<char>>>);

/// For each element of class `item_class`, in document order: the texts of
/// its descendants that have `link_attr` set to `link_value` beneath an
/// element of class `name_class`, and the attribute `stamp_attr` of its
/// descendants named `date_tag` beneath an element of class `date_class`,
/// both in document order.
pub uninterp spec fn listed_matches(
    page: Seq<char>,
    item_class: Seq<char>,
    name_class: Seq<char>,
    link_attr: Seq<char>,
    link_value: Seq<char>,
    date_class: Seq<char>,
    date_tag: Seq<char>,
    stamp_attr: Seq<char>,
) -> Seq<Matches>;

/// The texts, in document order, of the elements named `tag` with class
/// `class` that stand beneath an element whose attribute `attr` is `value`.
pub uninterp spec fn marked_texts(
    page: Seq<char>,
    attr: Seq<char>,
    value: Seq<char>,
    tag: Seq<char>,
    class: Seq<char>,
) -> Seq<Seq<char>>;

/// The attribute `attr`, as far as it is set, of each element named `tag`
/// beneath an element that has both classes, in document order.
pub uninterp spec fn nested_links(
    page: Seq<char>,
    first_class: Seq<char>,
    second_class: Seq<char>,
    tag: Seq<char>,
    attr: Seq<char>,
) -> Seq<Option<Seq<char>>>;

/// The attribute `attr`, as far as it is set, of each element named `tag`,
/// in document order.
pub uninterp spec fn all_links(page: Seq<char>, tag: Seq<char>, attr: Seq<char>) -> Seq<
    Option<Seq<char>>,
>;

/// `Document::from` on the page, `Document::find` for the items, and for
/// each item `Node::find`, `Node::text` and `Node::attr`: what the query
/// yields on this page is what `listed_matches` names.
#[verifier::external_body]
pub(crate) fn read_matches(
    page: &str,
    item_class: &str,
    name_class: &str,
    link_attr: &str,
    link_value: &str,
    date_class: &str,
    date_tag: &str,
    stamp_attr: &str,
) -> (found: Vec<(Vec<String>, Vec<Option<String>>)>)
    requires
        page.spec_bytes().len() <= MAX_PAGE_BYTES,
    ensures
        found.deep_view() == listed_matches(
            page@,
            item_class@,
            name_class@,
            link_attr@,
            link_value@,
            date_class@,
            date_tag@,
            stamp_attr@,
        ),
{
    Document::from(page)
        .find(Class(item_class))
        .map(|item| {
            let labels = item.find(Class(name_class).descendant(Attr(link_attr, link_value)));
            let dates = item.find(Class(date_class).descendant(Name(date_tag)));
            (
                labels.map(|n| n.text()).collect(),
                dates.map(|n| n.attr(stamp_attr).map(String::from)).collect(),
            )
        })
        .collect()
}

/// `Document::from`, `Document::find` and `Node::text`: the texts that the
/// query yields on this page are those that `marked_texts` names.
#[verifier::external_body]
pub(crate) fn read_marked_texts(
    page: &str,
    attr: &str,
    value: &str,
    tag: &str,
    class: &str,
) -> (texts: Vec<String>)
    requires
        page.spec_bytes().len() <= MAX_PAGE_BYTES,
    ensures
        texts.deep_view() == marked_texts(page@, attr@, value@, tag@, class@),
{
    Document::from(page)
        .find(Attr(attr, value).descendant(Name(tag).and(Class(class))))
        .map(|n| n.text())
        .collect()
}

/// `Document::from`, `Document::find` and `Node::attr`: the attribute
/// values that the query yields on this page are those that `nested_links`
/// names.
#[verifier::external_body]
pub(crate) fn read_nested_links(
    page: &str,
    first_class: &str,
    second_class: &str,
    tag: &str,
    attr: &str,
) -> (links: Vec<Option<String>>)
    requires
        page.spec_bytes().len() <= MAX_PAGE_BYTES,
    ensures
        links.deep_view() == nested_links(page@, first_class@, second_class@, tag@, attr@),
{
    Document::from(page)
        .find(Class(first_class).and(Class(second_class)).descendant(Name(tag)))
        .map(|n| n.attr(attr).map(String::from))
        .collect()
}

/// `Document::from`, `Document::find` and `Node::attr`: the attribute
/// values that the query yields on this page are those that `all_links`
/// names.
#[verifier::external_body]
pub(crate) fn read_all_links(page: &str, tag: &str, attr: &str) -> (links: Vec<Option<String>>)
    requires
        page.spec_bytes().len() <= MAX_PAGE_BYTES,
    ensures
        links.deep_view() == all_links(page@, tag@, attr@),
{
    Document::from(page).find(Name(tag)).map(|n| n.attr(attr).map(String::from)).collect()
}

/// The page that a body holds: its text, unless the body is too long or is
/// not well-formed UTF-8.
pub open spec fn page_of(bytes: Seq<u8>) -> Result<Seq<char>, ParseFault> {
    if bytes.len() > MAX_PAGE_BYTES {
        Err(ParseFault::PageTooLarge)
    } else if !valid_utf8(bytes) {
        Err(ParseFault::NotUtf8)
    } else {
        Ok(decode_utf8(bytes))
    }
}

/// Reads a body as a page.
pub fn decode_page(bytes: Vec<u8>) -> (r: Result<String, ParseFault>)
    ensures
        match r {
            Ok(page) => page_of(bytes@) == Ok::<Seq<char>, ParseFault>(page@)
                && encode_utf8(page@).len() <= MAX_PAGE_BYTES,
            Err(fault) => page_of(bytes@) == Err::<Seq<char>, ParseFault>(fault),
        },
{
    if bytes.len() > MAX_PAGE_BYTES {
        return Err(ParseFault::PageTooLarge);
    }
    let ghost raw = bytes@;
    match decode_utf8_bytes(bytes) {
        Some(page) => {
            proof {
                decode_utf8_encode_utf8(raw);
            }
            Ok(page)
        },
        None => Err(ParseFault::NotUtf8),
    }
}

} // verus!
