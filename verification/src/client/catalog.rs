//! Reading the provider's listing pages: a grid of titles, each with its
//! link, cover, info line, rating and category.

use vstd::prelude::*;
use crate::client::models::MediaItem;
use crate::html::{at_page, doc_found, names3, element_view, first_trimmed, name, no_names, path_view, then, HtmlPage};
use crate::text::{
    ascii_digits, char_pred, chars_of, digits_value, is_ascii_digit, find_char, first_index, keep_ascii_digits, last_index,
    lemma_first_index, opt_view, parse_i32, parse_i64, parsed_i32, parsed_i64, push_all,
    replace_lit, replaced, rfind_char, slice_vec, split_char, split_on, starts_with, string_of,
    trim, trim_end_by, trim_end_char, trim_end_lit, trim_end_seq, trimmed, has_prefix,
};

verus! {

/// The site's id of the title a link points at: the number before the
/// first `-` of its last path segment, `/films/drama/123-title.html`; 0
/// when there is none.
pub open spec fn url_id(url: Seq<char>) -> i64 {
    let clean = trim_end_seq(trim_end_by(url, char_pred('/')), ".html"@);
    match last_index(clean, '/') {
        Some(pos) => {
            let slug = clean.subrange(pos + 1, clean.len() as int);
            match first_index(slug, '-') {
                Some(dash) => match parsed_i64(slug.subrange(0, dash)) {
                    Some(id) => id,
                    None => 0,
                },
                None => 0,
            }
        },
        None => 0,
    }
}

/// A cover address on `https`: `http://` and scheme-relative `//`
/// addresses are moved to it, others are kept.
pub open spec fn secure_url(url: Seq<char>) -> Seq<char> {
    if starts_with(url, "http://"@) {
        "https://"@ + url.subrange(7, url.len() as int)
    } else if starts_with(url, "//"@) {
        "https://"@ + url.subrange(2, url.len() as int)
    } else {
        url
    }
}

/// The year an info line such as `2019, США, Драма` starts with: the ASCII
/// digits before its first comma, when there are exactly four.
pub open spec fn info_year(info: Seq<char>) -> Option<i32> {
    let digits = ascii_digits(split_on(info, ',')[0]);
    if digits.len() == 4 {
        parsed_i32(digits)
    } else {
        None
    }
}

/// What a listing item holds, as plain values.
pub struct ItemView {
    pub id: i64,
    pub title: Seq<char>,
    pub url: Seq<char>,
    pub poster_url: Option<Seq<char>>,
    pub year: Option<i32>,
    pub category: Option<Seq<char>>,
    pub rating: Option<Seq<char>>,
    pub info: Option<Seq<char>>,
}

pub open spec fn item_view(m: MediaItem) -> ItemView {
    ItemView {
        id: m.id,
        title: m.title@,
        url: m.url@,
        poster_url: opt_view(m.poster_url),
        year: m.year,
        category: opt_view(m.category),
        rating: opt_view(m.rating),
        info: opt_view(m.info),
    }
}

pub open spec fn item_views(v: Seq<MediaItem>) -> Seq<ItemView> {
    v.map_values(|m: MediaItem| item_view(m))
}

/// The listing entry `k` inside the element `base` leads to.
pub open spec fn item_path(base: Seq<(Seq<char>, int)>, k: int) -> Seq<(Seq<char>, int)> {
    base.push((".b-content__inline_item"@, k))
}

/// The first of the cover's lazy-load and plain addresses it has.
pub open spec fn cover_address(attrs: Seq<Option<Seq<char>>>) -> Option<Seq<char>> {
    match attrs[0] {
        Some(a) => Some(a),
        None => match attrs[1] {
            Some(a) => Some(a),
            None => attrs[2],
        },
    }
}

/// The listing item `k` inside the element `base` leads to, when it has a
/// link.
pub open spec fn catalog_item(html: Seq<char>, base: Seq<(Seq<char>, int)>, k: int) -> Option<ItemView> {
    let links = doc_found(html, false, item_path(base, k), ".b-content__inline_item-link a"@, seq!["href"@]);
    if links.len() == 0 {
        None
    } else {
        let href = match links[0].1[0] {
            Some(h) => h,
            None => seq![],
        };
        let covers = doc_found(
            html,
            false,
            item_path(base, k),
            ".b-content__inline_item-cover img"@,
            seq!["data-src"@, "data-original"@, "src"@],
        );
        let info = first_trimmed(doc_found(html, false, item_path(base, k), ".b-content__inline_item-link div"@, seq![]));
        let cats = doc_found(html, false, item_path(base, k), ".cat"@, seq!["class"@]);
        Some(
            ItemView {
                id: url_id(href),
                title: trimmed(links[0].0),
                url: href,
                poster_url: if covers.len() > 0 {
                    match cover_address(covers[0].1) {
                        Some(a) => Some(secure_url(a)),
                        None => None,
                    }
                } else {
                    None
                },
                year: match info {
                    Some(i) => info_year(i),
                    None => None,
                },
                category: if cats.len() > 0 {
                    match cats[0].1[0] {
                        Some(c) => Some(trimmed(replaced(c, "cat"@, ""@))),
                        None => None,
                    }
                } else {
                    None
                },
                rating: first_trimmed(
                    doc_found(html, false, item_path(base, k), ".rating, .b-content__inline_item-cover .rating"@, seq![]),
                ),
                info,
            },
        )
    }
}

/// The items of the first `n` listing entries that have a link, in order.
pub open spec fn catalog_upto(html: Seq<char>, base: Seq<(Seq<char>, int)>, n: int) -> Seq<ItemView>
    decreases n,
{
    if n <= 0 {
        seq![]
    } else {
        match catalog_item(html, base, n - 1) {
            Some(item) => catalog_upto(html, base, n - 1).push(item),
            None => catalog_upto(html, base, n - 1),
        }
    }
}

/// The listing inside the element `base` leads to.
pub open spec fn listed_items(html: Seq<char>, base: Seq<(Seq<char>, int)>) -> Seq<ItemView> {
    catalog_upto(html, base, doc_found(html, false, base, ".b-content__inline_item"@, seq![]).len() as int)
}

/// The listing a page shows.
pub open spec fn catalog_items(html: Seq<char>) -> Seq<ItemView> {
    listed_items(html, seq![])
}

pub struct CatalogScraper;

impl CatalogScraper {
    pub fn extract_id_from_url(url: &str) -> (r: i64)
        ensures
            r == url_id(url@),
    {
        let clean = trim_end_lit(&trim_end_char(&chars_of(url), '/'), ".html");
        match rfind_char(&clean, '/') {
            Some(pos) => {
                let slug = slice_vec(&clean, pos + 1, clean.len());
                match find_char(&slug, '-') {
                    Some(dash) => {
                        proof {
                            lemma_first_index(slug@, '-', dash as int);
                        }
                        match parse_i64(&slice_vec(&slug, 0, dash)) {
                            Some(id) => id,
                            None => 0,
                        }
                    },
                    None => 0,
                }
            },
            None => 0,
        }
    }

    pub fn secure_poster_url(url: &str) -> (r: String)
        ensures
            r@ == secure_url(url@),
    {
        let u = chars_of(url);
        if has_prefix(&u, "http://") {
            proof {
                reveal_strlit("http://");
            }
            let mut out = chars_of("https://");
            push_all(&mut out, &slice_vec(&u, 7, u.len()));
            string_of(out.as_slice())
        } else if has_prefix(&u, "//") {
            proof {
                reveal_strlit("//");
            }
            let mut out = chars_of("https://");
            push_all(&mut out, &slice_vec(&u, 2, u.len()));
            string_of(out.as_slice())
        } else {
            string_of(u.as_slice())
        }
    }

    pub fn extract_year(info: &str) -> (r: Option<i32>)
        ensures
            r == info_year(info@),
    {
        let parts = split_char(&chars_of(info), ',');
        let digits = keep_ascii_digits(&parts[0]);
        if digits.len() == 4 {
            parse_i32(&digits)
        } else {
            None
        }
    }

    fn catalog_entry(page: &HtmlPage, base: &Vec<(&'static str, usize)>, k: usize) -> (r: Option<MediaItem>)
        requires
            !page.is_fragment(),
        ensures
            match r {
                Some(m) => catalog_item(page.source(), path_view(base@), k as int) == Some(item_view(m)) && m.orig_title is None,
                None => catalog_item(page.source(), path_view(base@), k as int) is None,
            },
    {
        let ghost html = page.source();
        let ghost b = path_view(base@);
        let item = then(base, ".b-content__inline_item", k);
        let links = page.find(&item, ".b-content__inline_item-link a", &name("href"));
        if links.len() == 0 {
            return None;
        }
        let href = match &links[0].attrs[0] {
            Some(h) => h.clone(),
            None => String::new(),
        };
        let covers = page.find(
            &item,
            ".b-content__inline_item-cover img",
            &names3("data-src", "data-original", "src"),
        );
        proof {
            if covers@.len() > 0 {
                let e = covers@[0];
                assert(element_view(e) == doc_found(html, false, item_path(b, k as int), ".b-content__inline_item-cover img"@, seq!["data-src"@, "data-original"@, "src"@])[0]);
                assert(element_view(e).1[0] == opt_view(e.attrs@[0]));
                assert(element_view(e).1[1] == opt_view(e.attrs@[1]));
                assert(element_view(e).1[2] == opt_view(e.attrs@[2]));
            }
        }
        let poster_url = if covers.len() > 0 {
            let address = match &covers[0].attrs[0] {
                Some(a) => Some(a),
                None => match &covers[0].attrs[1] {
                    Some(a) => Some(a),
                    None => match &covers[0].attrs[2] {
                        Some(a) => Some(a),
                        None => None,
                    },
                },
            };
            match address {
                Some(a) => Some(Self::secure_poster_url(a.as_str())),
                None => None,
            }
        } else {
            None
        };
        let info = page.first_text(&item, ".b-content__inline_item-link div");
        let year = match &info {
            Some(i) => Self::extract_year(i.as_str()),
            None => None,
        };
        let cats = page.find(&item, ".cat", &name("class"));
        proof {
            if cats@.len() > 0 {
                let e = cats@[0];
                assert(element_view(e) == doc_found(html, false, item_path(b, k as int), ".cat"@, seq!["class"@])[0]);
                assert(element_view(e).1[0] == opt_view(e.attrs@[0]));
            }
        }
        let category = if cats.len() > 0 {
            match &cats[0].attrs[0] {
                Some(c) => Some(
                    string_of(trim(&replace_lit(&chars_of(c.as_str()), "cat", "")).as_slice()),
                ),
                None => None,
            }
        } else {
            None
        };
        let rating = page.first_text(&item, ".rating, .b-content__inline_item-cover .rating");
        let title = string_of(trim(&chars_of(links[0].text.as_str())).as_slice());
        Some(
            MediaItem {
                id: Self::extract_id_from_url(href.as_str()),
                title,
                orig_title: None,
                url: href,
                poster_url,
                year,
                category,
                rating,
                info,
            },
        )
    }

    /// The titles listed inside the element `base` leads to, in page
    /// order; an entry without a link is skipped.
    pub fn parse_listing(page: &HtmlPage, base: &Vec<(&'static str, usize)>) -> (r: Vec<MediaItem>)
        requires
            !page.is_fragment(),
        ensures
            item_views(r@) == listed_items(page.source(), path_view(base@)),
            forall|i: int| 0 <= i < r@.len() ==> (#[trigger] r@[i]).orig_title is None,
    {
        let ghost html = page.source();
        let ghost b = path_view(base@);
        let count = page.find(base, ".b-content__inline_item", &no_names()).len();
        let mut out: Vec<MediaItem> = Vec::new();
        let mut k: usize = 0;
        while k < count
            invariant
                k <= count,
                html == page.source(),
                b == path_view(base@),
                !page.is_fragment(),
                count == doc_found(html, false, b, ".b-content__inline_item"@, seq![]).len(),
                item_views(out@) == catalog_upto(html, b, k as int),
                forall|i: int| 0 <= i < out@.len() ==> (#[trigger] out@[i]).orig_title is None,
            decreases count - k,
        {
            match Self::catalog_entry(page, base, k) {
                Some(m) => {
                    let ghost prev = out@;
                    out.push(m);
                    assert(out@ =~= prev.push(m));
                    assert(item_views(out@) =~= item_views(prev).push(item_view(m)));
                },
                None => {},
            }
            k += 1;
        }
        out
    }

    /// The titles a listing page shows, in page order; an entry without a
    /// link is skipped.
    pub fn parse_catalog_html(html: &str) -> (r: Vec<MediaItem>)
        ensures
            item_views(r@) == catalog_items(html@),
            forall|i: int| 0 <= i < r@.len() ==> (#[trigger] r@[i]).orig_title is None,
    {
        let page = HtmlPage::parse_document(html);
        let base = at_page();
        Self::parse_listing(&page, &base)
    }
}

} // verus!

verus! {

/// Every item of `catalog_upto(html, base, n)` is the item of one of the
/// first `n` entries.
proof fn lemma_catalog_upto_items(html: Seq<char>, base: Seq<(Seq<char>, int)>, n: int, k: int)
    requires
        0 <= k < catalog_upto(html, base, n).len(),
    ensures
        exists|e: int| 0 <= e < n && catalog_item(html, base, e) == Some(#[trigger] catalog_upto(html, base, n)[k]),
    decreases n,
{
    if n > 0 {
        let init = catalog_upto(html, base, n - 1);
        match catalog_item(html, base, n - 1) {
            Some(item) => {
                if k < init.len() {
                    lemma_catalog_upto_items(html, base, n - 1, k);
                    let e = choose|e: int| 0 <= e < n - 1 && catalog_item(html, base, e) == Some(#[trigger] init[k]);
                    assert(catalog_upto(html, base, n)[k] == init[k]);
                    assert(catalog_item(html, base, e) == Some(catalog_upto(html, base, n)[k]));
                } else {
                    assert(catalog_upto(html, base, n)[k] == item);
                }
            },
            None => {
                lemma_catalog_upto_items(html, base, n - 1, k);
            },
        }
    }
}

/// A listed title's year is the year its own info line starts with,
/// whatever its title says: none when it has no info line, and when it has
/// one, the year of that line (four ASCII digits before its first comma,
/// read as a number from 0 to 9999).
pub proof fn law_catalog_year_from_info(html: Seq<char>, k: int)
    requires
        0 <= k < catalog_items(html).len(),
    ensures
        match catalog_items(html)[k].info {
            Some(i) => catalog_items(html)[k].year == info_year(i),
            None => catalog_items(html)[k].year is None,
        },
        catalog_items(html)[k].year matches Some(y) ==> 0 <= y <= 9999,
{
    let n = doc_found(html, false, seq![], ".b-content__inline_item"@, seq![]).len() as int;
    lemma_catalog_upto_items(html, seq![], n, k);
    let item = catalog_items(html)[k];
    match item.info {
        Some(i) => lemma_info_year_range(i),
        None => {},
    }
}

/// Four ASCII digits read as a number from 0 to 9999.
proof fn lemma_info_year_range(info: Seq<char>)
    ensures
        info_year(info) matches Some(y) ==> 0 <= y <= 9999,
{
    let d = ascii_digits(split_on(info, ',')[0]);
    if d.len() == 4 {
        match parsed_i32(d) {
            Some(y) => {
                lemma_ascii_digits_are_digits(split_on(info, ',')[0]);
                assert(d[0] != '+' && d[0] != '-');
                lemma_four_digits_value(d);
            },
            None => {},
        }
    }
}

proof fn lemma_ascii_digits_are_digits(s: Seq<char>)
    ensures
        forall|i: int| 0 <= i < ascii_digits(s).len() ==> is_ascii_digit(#[trigger] ascii_digits(s)[i]),
    decreases s.len(),
{
    if s.len() > 0 {
        lemma_ascii_digits_are_digits(s.drop_last());
        let init = ascii_digits(s.drop_last());
        if is_ascii_digit(s.last()) {
            assert forall|i: int| 0 <= i < ascii_digits(s).len() implies is_ascii_digit(#[trigger] ascii_digits(s)[i]) by {
                if i < init.len() {
                    assert(ascii_digits(s)[i] == init[i]);
                }
            }
        }
    }
}

proof fn lemma_four_digits_value(d: Seq<char>)
    requires
        d.len() == 4,
        forall|i: int| 0 <= i < d.len() ==> is_ascii_digit(#[trigger] d[i]),
    ensures
        parsed_i32(d) matches Some(y) ==> 0 <= y <= 9999,
{
    let d3 = d.drop_last();
    let d2 = d3.drop_last();
    let d1 = d2.drop_last();
    let d0 = d1.drop_last();
    assert(is_ascii_digit(d[0]) && is_ascii_digit(d[1]) && is_ascii_digit(d[2]) && is_ascii_digit(d[3]));
    assert(d0.len() == 0);
    assert(d.last() == d[3] && d3.last() == d[2] && d2.last() == d[1] && d1.last() == d[0]);
    assert(digits_value(d0) == 0);
    assert(digits_value(d1) <= 9);
    assert(digits_value(d2) <= 99);
    assert(digits_value(d3) <= 999);
    assert(digits_value(d) <= 9999);
}

} // verus!
