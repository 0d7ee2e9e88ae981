//! Icon-link extraction from HTML, behind a trusted call into `scraper`.
//!
//! The resolver's two CSS selectors live here, together with the attribute
//! triple it reads from each matched `<link>` element.

use vstd::prelude::*;

verus! {

/// The attributes of one matched `<link>` element: its `href`, `sizes` and
/// `type` values, each absent when the element lacks the attribute.
pub struct IconAttrs {
    pub href: Option<String>,
    pub sizes: Option<String>,
    pub mime: Option<String>,
}

/// The mathematical content of an [`IconAttrs`].
pub struct AttrsView {
    pub href: Option<Seq<char>>,
    pub sizes: Option<Seq<char>>,
    pub mime: Option<Seq<char>>,
}

impl View for IconAttrs {
    type V = AttrsView;

    open spec fn view(&self) -> AttrsView {
        AttrsView {
            href: match self.href {
                Some(h) => Some(h@),
                None => None,
            },
            sizes: match self.sizes {
                Some(s) => Some(s@),
                None => None,
            },
            mime: match self.mime {
                Some(m) => Some(m@),
                None => None,
            },
        }
    }
}

/// The selector of generic icon links.
pub open spec fn icon_selector_spec() -> Seq<char> {
    "link[rel~=\"icon\"], link[rel~=\"shortcut icon\"]"@
}

/// The selector of generic icon links, for the extraction call.
pub fn icon_selector() -> (r: &'static str)
    ensures
        r@ == icon_selector_spec(),
{
    "link[rel~=\"icon\"], link[rel~=\"shortcut icon\"]"
}

/// The selector of apple-touch-icon links.
pub open spec fn apple_selector_spec() -> Seq<char> {
    "link[rel~=\"apple-touch-icon\"]"@
}

/// The selector of apple-touch-icon links, for the extraction call.
pub fn apple_selector() -> (r: &'static str)
    ensures
        r@ == apple_selector_spec(),
{
    "link[rel~=\"apple-touch-icon\"]"
}

/// The `href`, `sizes` and `type` attributes of the elements that `selector`
/// matches in `html`, in document order. HTML parsing is forgiving, so this is
/// total; an invalid selector matches nothing. The result is a function of the
/// two strings alone.
pub uninterp spec fn selected_link_attrs(html: Seq<char>, selector: Seq<char>) -> Seq<AttrsView>;

/// Relies on scraper: `Html::parse_document`, `Selector::parse`,
/// `Html::select` and `ElementRef::attr`. Parses `html`, runs the CSS
/// `selector` over the document, and hands back each matched element's
/// `href`, `sizes` and `type` attributes, in document order.
#[verifier::external_body]
pub(crate) fn select_link_attrs(html: &str, selector: &str) -> (r: Vec<IconAttrs>)
    ensures
        r@.map_values(|a: IconAttrs| a@) == selected_link_attrs(html@, selector@),
{
    let mut out = Vec::new();
    if let Ok(sel) = scraper::Selector::parse(selector) {
        let doc = scraper::Html::parse_document(html);
        for el in doc.select(&sel) {
            out.push(IconAttrs {
                href: el.attr("href").map(|v| v.to_string()),
                sizes: el.attr("sizes").map(|v| v.to_string()),
                mime: el.attr("type").map(|v| v.to_string()),
            });
        }
    }
    out
}

} // verus!
