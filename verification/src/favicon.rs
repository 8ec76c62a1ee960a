//! Finding the icons of a site.
//!
//! The addresses where an icon may be are told from the page and from
//! custom; what comes back from each is kept where it is an image.

use vstd::prelude::*;
use vstd::slice::slice_subrange;
use vstd::utf8::{decode_utf8, valid_utf8};
use crate::error::Error;
use crate::text::{
    contains, from_utf8, is_infix, joined, lowercase, lowered, starts_with, str_eq,
};

verus! {

/// A request for the icons of the site at an address.
#[derive(Debug, PartialEq, Eq)]
pub struct FetchFaviconQuery {
    pub url: String,
}

/// An icon that was found.
#[derive(Debug, PartialEq, Eq)]
pub struct FaviconIcon {
    pub url: String,
    /// The image, in base64.
    pub data: String,
    pub content_type: String,
}

/// What a [`FaviconIcon`] holds.
pub struct FaviconIconView {
    pub url: Seq<char>,
    pub data: Seq<char>,
    pub content_type: Seq<char>,
}

impl DeepView for FaviconIcon {
    type V = FaviconIconView;

    open spec fn deep_view(&self) -> FaviconIconView {
        FaviconIconView { url: self.url@, data: self.data@, content_type: self.content_type@ }
    }
}

impl View for FaviconIcon {
    type V = FaviconIconView;

    open spec fn view(&self) -> FaviconIconView {
        self.deep_view()
    }
}

/// The icons that were found.
#[derive(Debug, PartialEq, Eq)]
pub struct FaviconResult {
    pub icons: Vec<FaviconIcon>,
}

/// The scheme and the host of the address `url`, as `url::Url::parse`
/// reads them; none where it does not parse.
pub uninterp spec fn url_origin(url: Seq<char>) -> Option<(Seq<char>, Option<Seq<char>>)>;

/// The address that `url::Url::join` makes of `href` on the base `base`;
/// none where either does not parse.
pub uninterp spec fn url_joined(base: Seq<char>, href: Seq<char>) -> Option<Seq<char>>;

/// The standard base64 text of `bytes`, with padding, as the `base64`
/// crate writes it.
pub uninterp spec fn base64_standard(bytes: Seq<u8>) -> Seq<char>;

/// The attribute `attr` of each element that the CSS selector `selector`
/// picks from the HTML document `html`, as `scraper` reads them; no element
/// where the selector does not parse.
pub uninterp spec fn selected_attrs(html: Seq<char>, selector: Seq<char>, attr: Seq<char>) -> Seq<
    Option<Seq<char>>,
>;

/// Parses `url` with `url::Url::parse` and gives what `Url::scheme` and
/// `Url::host_str` return for it.
///
/// Taken on trust: the result depends on `url` alone. What it is, is not
/// said here; it goes by the name [`url_origin`].
#[verifier::external_body]
pub(crate) fn parse_origin(url: &str) -> (r: Option<(String, Option<String>)>)
    ensures
        r.deep_view() == url_origin(url@),
{
    match url::Url::parse(url) {
        Ok(parsed) => Some((parsed.scheme().to_string(), parsed.host_str().map(|h| h.to_string()))),
        Err(_) => None,
    }
}

/// Parses `base` with `url::Url::parse` and gives the text of what
/// `Url::join` makes of `href` on it.
///
/// Taken on trust: the result depends on `base` and `href` alone. What it
/// is, is not said here; it goes by the name [`url_joined`].
#[verifier::external_body]
pub(crate) fn join_url(base: &str, href: &str) -> (r: Option<String>)
    ensures
        r.deep_view() == url_joined(base@, href@),
{
    match url::Url::parse(base) {
        Ok(parsed) => match parsed.join(href) {
            Ok(joined) => Some(joined.to_string()),
            Err(_) => None,
        },
        Err(_) => None,
    }
}

/// Encodes `bytes` with `base64::engine::general_purpose::STANDARD`.
///
/// Taken on trust: the result depends on `bytes` alone. What it is, is not
/// said here; it goes by the name [`base64_standard`].
#[verifier::external_body]
pub(crate) fn base64_encode(bytes: &[u8]) -> (r: String)
    ensures
        r@ == base64_standard(bytes@),
{
    base64::Engine::encode(&base64::engine::general_purpose::STANDARD, bytes)
}

/// Parses `html` with `scraper::Html::parse_document` and, for each of
/// `selectors`, gives the attribute `attr` of every element that
/// `Html::select` yields for it, parsed by `scraper::Selector::parse`.
///
/// Taken on trust: there is one list for each selector, and each list
/// depends on the page, its selector and the attribute alone. What it is,
/// is not said here; it goes by the name [`selected_attrs`].
#[verifier::external_body]
pub(crate) fn select_attrs(html: &str, selectors: &Vec<&str>, attr: &str) -> (r: Vec<
    Vec<Option<String>>,
>)
    ensures
        r.len() == selectors.len(),
        forall|i: int|
            0 <= i < r.len() ==> (#[trigger] r[i]).deep_view() == selected_attrs(
                html@,
                selectors[i]@,
                attr@,
            ),
{
    let document = scraper::Html::parse_document(html);
    selectors.iter().map(
        |selector|
            match scraper::Selector::parse(selector) {
                Ok(parsed) => document.select(&parsed).map(
                    |element| element.value().attr(attr).map(|value| value.to_string()),
                ).collect(),
                Err(_) => Vec::new(),
            },
    ).collect()
}

/// The root of the site at `url`: scheme and host.
pub open spec fn site_root(url: Seq<char>) -> Option<Seq<char>> {
    match url_origin(url) {
        Some((scheme, host)) => Some(
            scheme + "://"@ + match host {
                Some(host) => host,
                None => Seq::empty(),
            },
        ),
        None => None,
    }
}

/// The address that `href`, found on the page at `page_url`, stands for.
pub open spec fn resolved(base_url: Seq<char>, page_url: Seq<char>, href: Seq<char>) -> Seq<char> {
    if "http://"@.is_prefix_of(href) || "https://"@.is_prefix_of(href) {
        href
    } else if "//"@.is_prefix_of(href) {
        "https:"@ + href
    } else if "/"@.is_prefix_of(href) {
        base_url + href
    } else {
        match url_joined(page_url, href) {
            Some(joined) => joined,
            None => base_url + "/"@ + href,
        }
    }
}

/// The root of the site at `url`. An address that does not parse is a bad
/// request.
pub fn base_url(url: &str) -> (r: Result<String, Error>)
    ensures
        r is Ok == site_root(url@) is Some,
        r matches Ok(root) ==> Some(root@) == site_root(url@),
        r matches Err(e) ==> e == Error::BadRequest,
{
    match parse_origin(url) {
        Some((scheme, host)) => {
            let mut root = scheme;
            root.append("://");
            match host {
                Some(host) => {
                    root.append(host.as_str());
                },
                None => {},
            }
            Ok(root)
        },
        None => Err(Error::BadRequest),
    }
}

/// The address that `href`, found on the page at `page_url`, stands for.
pub fn resolve_url(base_url: &str, page_url: &str, href: &str) -> (r: String)
    ensures
        r@ == resolved(base_url@, page_url@, href@),
{
    if starts_with(href, "http://") || starts_with(href, "https://") {
        String::from_str(href)
    } else if starts_with(href, "//") {
        joined("https:", href)
    } else if starts_with(href, "/") {
        joined(base_url, href)
    } else {
        match join_url(page_url, href) {
            Some(joined_url) => joined_url,
            None => {
                let mut out = joined(base_url, "/");
                out.append(href);
                out
            },
        }
    }
}

/// The selectors of the links that name an icon.
pub open spec fn icon_selectors() -> Seq<Seq<char>> {
    seq![
        "link[rel=\"icon\"]"@,
        "link[rel=\"shortcut icon\"]"@,
        "link[rel=\"apple-touch-icon\"]"@,
        "link[rel=\"apple-touch-icon-precomposed\"]"@,
        "link[rel=\"mask-icon\"]"@,
    ]
}

/// The paths where sites keep an icon by custom.
pub open spec fn common_paths() -> Seq<Seq<char>> {
    seq![
        "/favicon.ico"@,
        "/favicon.png"@,
        "/favicon.svg"@,
        "/apple-touch-icon.png"@,
        "/apple-touch-icon-precomposed.png"@,
        "/favicon-32x32.png"@,
        "/favicon-16x16.png"@,
    ]
}

/// `list` with `item` at its end, unless it holds `item`.
pub open spec fn with_new(list: Seq<Seq<char>>, item: Seq<char>) -> Seq<Seq<char>> {
    if list.contains(item) {
        list
    } else {
        list.push(item)
    }
}

/// `list` with the addresses of `hrefs` added, each once and in their
/// order.
pub open spec fn with_links(
    list: Seq<Seq<char>>,
    base_url: Seq<char>,
    page_url: Seq<char>,
    hrefs: Seq<Option<Seq<char>>>,
) -> Seq<Seq<char>>
    decreases hrefs.len(),
{
    if hrefs.len() == 0 {
        list
    } else {
        let before = with_links(list, base_url, page_url, hrefs.drop_last());
        match hrefs.last() {
            Some(href) => with_new(before, resolved(base_url, page_url, href)),
            None => before,
        }
    }
}

/// `list` with the links added that each of `selectors` picks from the
/// page.
pub open spec fn with_selected(
    list: Seq<Seq<char>>,
    base_url: Seq<char>,
    page_url: Seq<char>,
    html: Seq<char>,
    selectors: Seq<Seq<char>>,
) -> Seq<Seq<char>>
    decreases selectors.len(),
{
    if selectors.len() == 0 {
        list
    } else {
        with_links(
            with_selected(list, base_url, page_url, html, selectors.drop_last()),
            base_url,
            page_url,
            selected_attrs(html, selectors.last(), "href"@),
        )
    }
}

/// `list` with each of `paths` under `base_url` added, each once and in
/// their order.
pub open spec fn with_paths(list: Seq<Seq<char>>, base_url: Seq<char>, paths: Seq<Seq<char>>) -> Seq<
    Seq<char>,
>
    decreases paths.len(),
{
    if paths.len() == 0 {
        list
    } else {
        with_new(with_paths(list, base_url, paths.drop_last()), base_url + paths.last())
    }
}

/// The addresses where an icon of the site may be: those that the page
/// names, where the page could be read, and then the customary ones.
pub open spec fn icon_urls(base_url: Seq<char>, page_url: Seq<char>, html: Option<Seq<char>>) -> Seq<
    Seq<char>,
> {
    let linked = match html {
        Some(html) => with_selected(Seq::empty(), base_url, page_url, html, icon_selectors()),
        None => Seq::empty(),
    };
    with_paths(linked, base_url, common_paths())
}

/// A list without repeats stays so when an item is added that is new.
pub proof fn lemma_with_new_distinct(list: Seq<Seq<char>>, item: Seq<char>)
    requires
        list.no_duplicates(),
    ensures
        with_new(list, item).no_duplicates(),
{
}

/// A list without repeats stays so when links are added.
pub proof fn lemma_with_links_distinct(
    list: Seq<Seq<char>>,
    base_url: Seq<char>,
    page_url: Seq<char>,
    hrefs: Seq<Option<Seq<char>>>,
)
    requires
        list.no_duplicates(),
    ensures
        with_links(list, base_url, page_url, hrefs).no_duplicates(),
    decreases hrefs.len(),
{
    if hrefs.len() > 0 {
        lemma_with_links_distinct(list, base_url, page_url, hrefs.drop_last());
        if let Some(href) = hrefs.last() {
            lemma_with_new_distinct(
                with_links(list, base_url, page_url, hrefs.drop_last()),
                resolved(base_url, page_url, href),
            );
        }
    }
}

/// A list without repeats stays so when the links of a page are added.
pub proof fn lemma_with_selected_distinct(
    list: Seq<Seq<char>>,
    base_url: Seq<char>,
    page_url: Seq<char>,
    html: Seq<char>,
    selectors: Seq<Seq<char>>,
)
    requires
        list.no_duplicates(),
    ensures
        with_selected(list, base_url, page_url, html, selectors).no_duplicates(),
    decreases selectors.len(),
{
    if selectors.len() > 0 {
        lemma_with_selected_distinct(list, base_url, page_url, html, selectors.drop_last());
        lemma_with_links_distinct(
            with_selected(list, base_url, page_url, html, selectors.drop_last()),
            base_url,
            page_url,
            selected_attrs(html, selectors.last(), "href"@),
        );
    }
}

/// A list without repeats stays so when paths are added.
pub proof fn lemma_with_paths_distinct(
    list: Seq<Seq<char>>,
    base_url: Seq<char>,
    paths: Seq<Seq<char>>,
)
    requires
        list.no_duplicates(),
    ensures
        with_paths(list, base_url, paths).no_duplicates(),
    decreases paths.len(),
{
    if paths.len() > 0 {
        lemma_with_paths_distinct(list, base_url, paths.drop_last());
        lemma_with_new_distinct(
            with_paths(list, base_url, paths.drop_last()),
            base_url + paths.last(),
        );
    }
}

/// Whether the list holds the item.
fn holds(list: &Vec<String>, item: &str) -> (r: bool)
    ensures
        r == list.deep_view().contains(item@),
{
    let mut i: usize = 0;
    while i < list.len()
        invariant
            i <= list.len(),
            forall|j: int| 0 <= j < i ==> (#[trigger] list.deep_view()[j]) != item@,
        decreases list.len() - i,
    {
        if str_eq(list[i].as_str(), item) {
            assert(list.deep_view()[i as int] == item@);
            return true;
        }
        i += 1;
    }
    false
}

/// Puts `item` at the end of `list`, unless the list holds it.
pub fn push_new(list: &mut Vec<String>, item: String)
    ensures
        final(list).deep_view() == with_new(old(list).deep_view(), item@),
{
    if !holds(list, item.as_str()) {
        list.push(item);
    }
}

/// Adds the addresses of `hrefs` to `list`, each once and in their order.
pub fn add_links(list: &mut Vec<String>, base_url: &str, page_url: &str, hrefs: &Vec<Option<String>>)
    ensures
        final(list).deep_view() == with_links(
            old(list).deep_view(),
            base_url@,
            page_url@,
            hrefs.deep_view(),
        ),
{
    let ghost all = hrefs.deep_view();
    let mut i: usize = 0;
    while i < hrefs.len()
        invariant
            i <= hrefs.len(),
            all == hrefs.deep_view(),
            list.deep_view() == with_links(
                old(list).deep_view(),
                base_url@,
                page_url@,
                all.subrange(0, i as int),
            ),
        decreases hrefs.len() - i,
    {
        proof {
            assert(all.subrange(0, i + 1).drop_last() =~= all.subrange(0, i as int));
        }
        match &hrefs[i] {
            Some(href) => {
                push_new(list, resolve_url(base_url, page_url, href.as_str()));
            },
            None => {},
        }
        i += 1;
    }
    assert(all.subrange(0, i as int) =~= all);
}

/// Adds each of `paths` under `base_url` to `list`, each once and in their
/// order.
pub fn add_paths(list: &mut Vec<String>, base_url: &str, paths: &Vec<&str>)
    ensures
        final(list).deep_view() == with_paths(old(list).deep_view(), base_url@, paths.deep_view()),
{
    let ghost all = paths.deep_view();
    let mut i: usize = 0;
    while i < paths.len()
        invariant
            i <= paths.len(),
            all == paths.deep_view(),
            list.deep_view() == with_paths(
                old(list).deep_view(),
                base_url@,
                all.subrange(0, i as int),
            ),
        decreases paths.len() - i,
    {
        proof {
            assert(all.subrange(0, i + 1).drop_last() =~= all.subrange(0, i as int));
        }
        push_new(list, joined(base_url, paths[i]));
        i += 1;
    }
    assert(all.subrange(0, i as int) =~= all);
}

/// The addresses where an icon of the site may be, given the text of the
/// page at `page_url` where it could be read.
pub fn candidate_urls(base_url: &str, page_url: &str, html: Option<&str>) -> (r: Vec<String>)
    ensures
        r.deep_view() == icon_urls(base_url@, page_url@, html.deep_view()),
{
    let mut list: Vec<String> = Vec::new();
    assert(list.deep_view() =~= Seq::empty());
    match html {
        Some(html) => {
            let selectors: Vec<&str> = vec![
                "link[rel=\"icon\"]",
                "link[rel=\"shortcut icon\"]",
                "link[rel=\"apple-touch-icon\"]",
                "link[rel=\"apple-touch-icon-precomposed\"]",
                "link[rel=\"mask-icon\"]",
            ];
            let found = select_attrs(html, &selectors, "href");
            let ghost all = icon_selectors();
            let mut i: usize = 0;
            while i < found.len()
                invariant
                    i <= found.len(),
                    found.len() == selectors.len(),
                    all == selectors.deep_view(),
                    forall|k: int|
                        0 <= k < found.len() ==> (#[trigger] found[k]).deep_view()
                            == selected_attrs(html@, selectors[k]@, "href"@),
                    list.deep_view() == with_selected(
                        Seq::empty(),
                        base_url@,
                        page_url@,
                        html@,
                        all.subrange(0, i as int),
                    ),
                decreases found.len() - i,
            {
                proof {
                    assert(all.subrange(0, i + 1).drop_last() =~= all.subrange(0, i as int));
                }
                add_links(&mut list, base_url, page_url, &found[i]);
                i += 1;
            }
            assert(all.subrange(0, i as int) =~= all);
        },
        None => {},
    }
    let paths: Vec<&str> = vec![
        "/favicon.ico",
        "/favicon.png",
        "/favicon.svg",
        "/apple-touch-icon.png",
        "/apple-touch-icon-precomposed.png",
        "/favicon-32x32.png",
        "/favicon-16x16.png",
    ];
    assert(paths.deep_view() =~= common_paths());
    add_paths(&mut list, base_url, &paths);
    list
}

/// How many bytes of a content are read as text.
pub const TEXT_PROBE_LEN: usize = 1000;

/// Whether text in lower case holds the opening of an SVG or XML document.
pub open spec fn is_markup(lowered: Seq<char>) -> bool {
    is_infix("<svg"@, lowered) || is_infix("<?xml"@, lowered)
}

/// Whether the bytes are text that, in lower case, holds the opening of an
/// SVG or XML document.
pub open spec fn is_markup_text(bytes: Seq<u8>) -> bool {
    valid_utf8(bytes) && is_markup(lowered(decode_utf8(bytes)))
}

/// The first bytes of a content, which are read as text.
pub open spec fn text_probe(bytes: Seq<u8>) -> Seq<u8> {
    if bytes.len() <= TEXT_PROBE_LEN {
        bytes
    } else {
        bytes.subrange(0, TEXT_PROBE_LEN as int)
    }
}

/// Whether the bytes are those of a RIFF container that holds WebP.
pub open spec fn is_webp(bytes: Seq<u8>) -> bool {
    &&& bytes.len() >= 12
    &&& bytes.subrange(0, 4) == seq![0x52u8, 0x49, 0x46, 0x46]
    &&& bytes.subrange(8, 12) == seq![0x57u8, 0x45, 0x42, 0x50]
}

/// Whether the content begins as an image does: PNG, JPEG, GIF, ICO, WebP,
/// SVG or BMP. A content of fewer than four bytes is no image.
pub open spec fn is_image(bytes: Seq<u8>) -> bool {
    &&& bytes.len() >= 4
    &&& {
        ||| seq![0x89u8, 0x50, 0x4E, 0x47].is_prefix_of(bytes)
        ||| seq![0xFFu8, 0xD8, 0xFF].is_prefix_of(bytes)
        ||| seq![0x47u8, 0x49, 0x46, 0x38, 0x37, 0x61].is_prefix_of(bytes)
        ||| seq![0x47u8, 0x49, 0x46, 0x38, 0x39, 0x61].is_prefix_of(bytes)
        ||| seq![0x00u8, 0x00, 0x01, 0x00].is_prefix_of(bytes)
        ||| is_webp(bytes)
        ||| is_markup_text(text_probe(bytes))
        ||| seq![0x42u8, 0x4D].is_prefix_of(bytes)
    }
}

/// Whether text in lower case holds the opening of an SVG or XML document.
pub fn holds_markup(lowered: &str) -> (r: bool)
    ensures
        r == is_markup(lowered@),
{
    contains(lowered, "<svg") || contains(lowered, "<?xml")
}

/// Whether the content begins as an image does.
pub fn is_valid_image(bytes: &[u8]) -> (r: bool)
    ensures
        r == is_image(bytes@),
{
    let n = bytes.len();
    if n < 4 {
        return false;
    }
    let b0 = bytes[0];
    let b1 = bytes[1];
    let b2 = bytes[2];
    let b3 = bytes[3];
    // PNG
    if b0 == 0x89 && b1 == 0x50 && b2 == 0x4E && b3 == 0x47 {
        return true;
    }
    // JPEG
    if b0 == 0xFF && b1 == 0xD8 && b2 == 0xFF {
        return true;
    }
    // GIF87a, GIF89a
    if n >= 6 && b0 == 0x47 && b1 == 0x49 && b2 == 0x46 && b3 == 0x38 && (bytes[4] == 0x37
        || bytes[4] == 0x39) && bytes[5] == 0x61 {
        return true;
    }
    // ICO
    if b0 == 0x00 && b1 == 0x00 && b2 == 0x01 && b3 == 0x00 {
        return true;
    }
    // WebP
    let webp = n >= 12 && b0 == 0x52 && b1 == 0x49 && b2 == 0x46 && b3 == 0x46 && bytes[8] == 0x57
        && bytes[9] == 0x45 && bytes[10] == 0x42 && bytes[11] == 0x50;
    assert(webp ==> is_webp(bytes@)) by {
        if webp {
            assert(bytes@.subrange(0, 4) =~= seq![0x52u8, 0x49, 0x46, 0x46]);
            assert(bytes@.subrange(8, 12) =~= seq![0x57u8, 0x45, 0x42, 0x50]);
        }
    }
    if webp {
        return true;
    }
    // SVG, which is text
    let probe = if n <= TEXT_PROBE_LEN {
        bytes
    } else {
        slice_subrange(bytes, 0, TEXT_PROBE_LEN)
    };
    let markup = match from_utf8(probe) {
        Some(text) => holds_markup(lowercase(text).as_str()),
        None => false,
    };
    if markup {
        return true;
    }
    // BMP
    b0 == 0x42 && b1 == 0x4D
}

/// The content type of an answer that names none.
pub open spec fn content_type_or_default(named: Option<Seq<char>>) -> Seq<char> {
    match named {
        Some(named) => named,
        None => "image/x-icon"@,
    }
}

/// Whether a content type is that of an image.
pub open spec fn is_image_type(content_type: Seq<char>) -> bool {
    "image/"@.is_prefix_of(content_type) || is_infix("icon"@, content_type)
}

/// The icon that the content of an answer makes, if it is an image.
pub open spec fn icon_of(url: Seq<char>, content_type: Seq<char>, bytes: Seq<u8>) -> Option<
    FaviconIconView,
> {
    if is_image_type(content_type) && is_image(bytes) {
        Some(FaviconIconView { url, data: base64_standard(bytes), content_type })
    } else {
        None
    }
}

/// The content type of an answer: the one it names, or else that of an
/// icon.
pub fn content_type_of(named: Option<&str>) -> (r: String)
    ensures
        r@ == content_type_or_default(named.deep_view()),
{
    match named {
        Some(named) => String::from_str(named),
        None => String::from_str("image/x-icon"),
    }
}

/// Whether a content type is that of an image.
pub fn accepts_content_type(content_type: &str) -> (r: bool)
    ensures
        r == is_image_type(content_type@),
{
    starts_with(content_type, "image/") || contains(content_type, "icon")
}

/// The icon that the content of an answer makes, if it is an image.
pub fn make_icon(url: String, content_type: String, bytes: &[u8]) -> (r: Option<FaviconIcon>)
    ensures
        r.deep_view() == icon_of(url@, content_type@, bytes@),
{
    if accepts_content_type(content_type.as_str()) && is_valid_image(bytes) {
        Some(FaviconIcon { url, data: base64_encode(bytes), content_type })
    } else {
        None
    }
}

/// Where a search for icons stands.
#[derive(Debug, Clone, Copy, PartialEq, Eq, Structural)]
pub enum FetchStage {
    /// The page was asked for.
    Page,
    /// The address at hand was asked for.
    Icon,
    /// The content of the answer at hand was asked for.
    Body,
    /// The search is over.
    Done,
}

/// What the caller of a search is to do next. It reports what came of it
/// with the [`FaviconEvent`] of the same kind.
#[derive(Debug, PartialEq, Eq)]
pub enum FaviconAction {
    /// Get the page at the address and report its text.
    FetchPage(String),
    /// Ask for the address and report the answer.
    FetchIcon(String),
    /// Read the content of the answer just reported.
    ReadBody,
    /// Hand out the icons: the search is over.
    Done(FaviconResult),
}

/// What a [`FaviconAction`] holds.
pub enum FaviconActionView {
    FetchPage(Seq<char>),
    FetchIcon(Seq<char>),
    ReadBody,
    Done(Seq<FaviconIconView>),
}

impl View for FaviconAction {
    type V = FaviconActionView;

    open spec fn view(&self) -> FaviconActionView {
        match self {
            FaviconAction::FetchPage(url) => FaviconActionView::FetchPage(url@),
            FaviconAction::FetchIcon(url) => FaviconActionView::FetchIcon(url@),
            FaviconAction::ReadBody => FaviconActionView::ReadBody,
            FaviconAction::Done(result) => FaviconActionView::Done(result.icons.deep_view()),
        }
    }
}

/// What came of an action.
#[derive(Debug, PartialEq, Eq)]
pub enum FaviconEvent {
    /// The text of the page, where it could be read.
    Page(Option<String>),
    /// An answer came: whether its status tells success, and the content
    /// type that it names.
    Answer { success: bool, content_type: Option<String> },
    /// No answer came.
    NoAnswer,
    /// The content of the answer, where it could be read.
    Body(Option<Vec<u8>>),
}

/// What a [`FaviconEvent`] holds.
pub enum FaviconEventView {
    Page(Option<Seq<char>>),
    Answer { success: bool, content_type: Option<Seq<char>> },
    NoAnswer,
    Body(Option<Seq<u8>>),
}

impl View for FaviconEvent {
    type V = FaviconEventView;

    open spec fn view(&self) -> FaviconEventView {
        match self {
            FaviconEvent::Page(html) => FaviconEventView::Page(html.deep_view()),
            FaviconEvent::Answer { success, content_type } => FaviconEventView::Answer {
                success: *success,
                content_type: content_type.deep_view(),
            },
            FaviconEvent::NoAnswer => FaviconEventView::NoAnswer,
            FaviconEvent::Body(bytes) => FaviconEventView::Body(
                match bytes {
                    Some(bytes) => Some(bytes@),
                    None => None,
                },
            ),
        }
    }
}

/// A search for the icons of a site, between two actions.
#[derive(Debug)]
pub struct FaviconFetch {
    pub page_url: String,
    pub base_url: String,
    pub stage: FetchStage,
    /// The addresses to ask.
    pub candidates: Vec<String>,
    /// The place of the address at hand.
    pub next: usize,
    /// The content type of the answer at hand.
    pub content_type: String,
    /// The icons found so far.
    pub icons: Vec<FaviconIcon>,
}

/// What a [`FaviconFetch`] holds.
pub struct FaviconFetchView {
    pub page_url: Seq<char>,
    pub base_url: Seq<char>,
    pub stage: FetchStage,
    pub candidates: Seq<Seq<char>>,
    pub next: int,
    pub content_type: Seq<char>,
    pub icons: Seq<FaviconIconView>,
}

impl View for FaviconFetch {
    type V = FaviconFetchView;

    open spec fn view(&self) -> FaviconFetchView {
        FaviconFetchView {
            page_url: self.page_url@,
            base_url: self.base_url@,
            stage: self.stage,
            candidates: self.candidates.deep_view(),
            next: self.next as int,
            content_type: self.content_type@,
            icons: self.icons.deep_view(),
        }
    }
}

impl FaviconFetchView {
    /// The search at its start, when the page is asked for.
    pub open spec fn start(page_url: Seq<char>, base_url: Seq<char>) -> FaviconFetchView {
        FaviconFetchView {
            page_url,
            base_url,
            stage: FetchStage::Page,
            candidates: Seq::empty(),
            next: 0,
            content_type: Seq::empty(),
            icons: Seq::empty(),
        }
    }

    /// The search as it turns to the address at `next`: that address is
    /// asked, or the icons are handed out where there is no such address.
    pub open spec fn turned_to(self, next: int) -> (FaviconFetchView, FaviconActionView) {
        if 0 <= next < self.candidates.len() {
            (
                FaviconFetchView { stage: FetchStage::Icon, next, ..self },
                FaviconActionView::FetchIcon(self.candidates[next]),
            )
        } else {
            (
                FaviconFetchView {
                    stage: FetchStage::Done,
                    next: self.candidates.len() as int,
                    icons: Seq::empty(),
                    ..self
                },
                FaviconActionView::Done(self.icons),
            )
        }
    }

    /// The search after `event`, and what to do next.
    ///
    /// The page tells the addresses to ask, together with the customary
    /// ones. Of each answer that tells success and an image by its content
    /// type, the content is read, and kept where it is an image. Whatever
    /// else comes of an address, the search turns to the next.
    pub open spec fn stepped(self, event: FaviconEventView) -> (
        FaviconFetchView,
        FaviconActionView,
    ) {
        match self.stage {
            FetchStage::Page => {
                let html = match event {
                    FaviconEventView::Page(html) => html,
                    _ => None,
                };
                FaviconFetchView {
                    candidates: icon_urls(self.base_url, self.page_url, html),
                    ..self
                }.turned_to(0)
            },
            FetchStage::Icon => match event {
                FaviconEventView::Answer { success: true, content_type } => {
                    let content_type = content_type_or_default(content_type);
                    if is_image_type(content_type) && 0 <= self.next < self.candidates.len() {
                        (
                            FaviconFetchView { stage: FetchStage::Body, content_type, ..self },
                            FaviconActionView::ReadBody,
                        )
                    } else {
                        self.turned_to(self.next + 1)
                    }
                },
                _ => self.turned_to(self.next + 1),
            },
            FetchStage::Body => match event {
                FaviconEventView::Body(Some(bytes)) if 0 <= self.next < self.candidates.len() => {
                    match icon_of(self.candidates[self.next], self.content_type, bytes) {
                        Some(icon) => FaviconFetchView {
                            icons: self.icons.push(icon),
                            ..self
                        }.turned_to(self.next + 1),
                        None => self.turned_to(self.next + 1),
                    }
                },
                _ => self.turned_to(self.next + 1),
            },
            FetchStage::Done => self.turned_to(self.candidates.len() as int),
        }
    }
}

/// What the start of a search holds.
pub open spec fn start_answer(r: Result<(FaviconFetch, FaviconAction), Error>) -> Result<
    (FaviconFetchView, FaviconActionView),
    Error,
> {
    match r {
        Ok((search, action)) => Ok((search@, action@)),
        Err(e) => Err(e),
    }
}

/// Starts a search for the icons of the site at the address of the
/// request: the page there is to be fetched first. An address that does not
/// parse is a bad request.
pub fn fetch_favicon(query: &FetchFaviconQuery) -> (r: Result<(FaviconFetch, FaviconAction), Error>)
    ensures
        start_answer(r) == match site_root(query.url@) {
            Some(root) => Ok(
                (
                    FaviconFetchView::start(query.url@, root),
                    FaviconActionView::FetchPage(query.url@),
                ),
            ),
            None => Err(Error::BadRequest),
        },
{
    let root = match base_url(query.url.as_str()) {
        Ok(root) => root,
        Err(e) => {
            return Err(e);
        },
    };
    let search = FaviconFetch {
        page_url: query.url.clone(),
        base_url: root,
        stage: FetchStage::Page,
        candidates: Vec::new(),
        next: 0,
        content_type: String::new(),
        icons: Vec::new(),
    };
    assert(search.candidates.deep_view() =~= Seq::empty());
    assert(search.icons.deep_view() =~= Seq::empty());
    Ok((search, FaviconAction::FetchPage(query.url.clone())))
}

impl FaviconFetch {
    /// Turns to the address at `next`.
    fn turn_to(&mut self, next: usize) -> (action: FaviconAction)
        ensures
            (final(self)@, action@) == old(self)@.turned_to(next as int),
    {
        if next < self.candidates.len() {
            self.next = next;
            self.stage = FetchStage::Icon;
            FaviconAction::FetchIcon(self.candidates[next].clone())
        } else {
            self.next = self.candidates.len();
            self.stage = FetchStage::Done;
            let mut icons: Vec<FaviconIcon> = Vec::new();
            core::mem::swap(&mut self.icons, &mut icons);
            assert(self.icons.deep_view() =~= Seq::empty());
            FaviconAction::Done(FaviconResult { icons })
        }
    }

    /// Turns to the address after the one at hand.
    fn turn_to_next(&mut self) -> (action: FaviconAction)
        ensures
            (final(self)@, action@) == old(self)@.turned_to(old(self)@.next + 1),
    {
        if self.next < self.candidates.len() {
            self.turn_to(self.next + 1)
        } else {
            self.turn_to(self.candidates.len())
        }
    }

    /// Takes what came of the last action, and tells what to do next.
    pub fn advance(&mut self, event: FaviconEvent) -> (action: FaviconAction)
        ensures
            (final(self)@, action@) == old(self)@.stepped(event@),
    {
        match self.stage {
            FetchStage::Page => {
                let html = match event {
                    FaviconEvent::Page(html) => html,
                    _ => None,
                };
                let found = match &html {
                    Some(html) => candidate_urls(
                        self.base_url.as_str(),
                        self.page_url.as_str(),
                        Some(html.as_str()),
                    ),
                    None => candidate_urls(self.base_url.as_str(), self.page_url.as_str(), None),
                };
                self.candidates = found;
                self.turn_to(0)
            },
            FetchStage::Icon => match event {
                FaviconEvent::Answer { success: true, content_type } => {
                    let content_type = match &content_type {
                        Some(named) => content_type_of(Some(named.as_str())),
                        None => content_type_of(None),
                    };
                    if accepts_content_type(content_type.as_str()) && self.next
                        < self.candidates.len() {
                        self.stage = FetchStage::Body;
                        self.content_type = content_type;
                        FaviconAction::ReadBody
                    } else {
                        self.turn_to_next()
                    }
                },
                _ => self.turn_to_next(),
            },
            FetchStage::Body => match event {
                FaviconEvent::Body(Some(bytes)) => {
                    if self.next < self.candidates.len() {
                        let made = make_icon(
                            self.candidates[self.next].clone(),
                            self.content_type.clone(),
                            bytes.as_slice(),
                        );
                        match made {
                            Some(icon) => {
                                self.icons.push(icon);
                                assert(self.icons.deep_view() =~= old(self).icons.deep_view().push(
                                    icon@,
                                ));
                            },
                            None => {},
                        }
                    }
                    self.turn_to_next()
                },
                _ => self.turn_to_next(),
            },
            FetchStage::Done => self.turn_to(self.candidates.len()),
        }
    }
}

} // verus!
