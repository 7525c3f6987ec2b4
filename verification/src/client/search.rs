//! Listings reached by path, search and paging.

use vstd::prelude::*;
use crate::client::catalog::{catalog_items, item_views, CatalogScraper, ItemView};
use crate::client::details::info::{link_view, link_views, LinkView};
use crate::client::models::{Collection, HomeSection, LinkedItem, SearchFilter};
use crate::html::{
    at, at_page, doc_found, element_view, element_views, first_attr_of, first_trimmed, name,
    no_names, HtmlPage,
};
use crate::text::{
    ascii_digits, keep_ascii_digits, opt_view, owned, parse_usize, parsed_usize, same_chars,
    string_views, trim, trimmed, chars_of, decimal, decimal_chars, find_char, first_index,
    lemma_first_index, push_all, push_str, slice_vec, string_of, trim_char, trimmed_char,
};

verus! {

/// The path of page `page` of a listing: the page segment goes before any
/// query string, the way the site's own listing links are built, so
/// `new?filter=watching` pages as `new/page/2/?filter=watching`.
pub open spec fn paged(path: Seq<char>, page: nat) -> Seq<char> {
    if page <= 1 {
        path
    } else {
        let (base, query) = match first_index(path, '?') {
            Some(i) => (path.subrange(0, i), Some(path.subrange(i + 1, path.len() as int))),
            None => (path, None),
        };
        let p = trimmed_char(base, '/') + "/page/"@ + decimal(page) + "/"@;
        match query {
            Some(q) => p + "?"@ + q,
            None => p,
        }
    }
}

/// See [`paged`].
pub fn paged_path(path: &str, page: usize) -> (r: String)
    ensures
        r@ == paged(path@, page as nat),
{
    let chars = chars_of(path);
    if page <= 1 {
        return string_of(chars.as_slice());
    }
    let (base, query) = match find_char(&chars, '?') {
        Some(i) => {
            proof {
                lemma_first_index(chars@, '?', i as int);
            }
            (slice_vec(&chars, 0, i), Some(slice_vec(&chars, i + 1, chars.len())))
        },
        None => {
            assert(first_index(chars@, '?') is None);
            (chars.clone(), None)
        },
    };
    let mut out = trim_char(&base, '/');
    push_str(&mut out, "/page/");
    let digits = decimal_chars(page as u64);
    push_all(&mut out, &digits);
    push_str(&mut out, "/");
    match query {
        Some(q) => {
            push_str(&mut out, "?");
            push_all(&mut out, &q);
        },
        None => {},
    }
    string_of(out.as_slice())
}


/// The distinct non-empty texts among the first `n`, in the order they
/// first appear.
pub open spec fn distinct_texts(m: Seq<(Seq<char>, Seq<Option<Seq<char>>>)>, n: int) -> Seq<Seq<char>>
    decreases n,
{
    if n <= 0 {
        seq![]
    } else {
        let init = distinct_texts(m, n - 1);
        let v = trimmed(m[n - 1].0);
        if v.len() > 0 && !init.contains(v) {
            init.push(v)
        } else {
            init
        }
    }
}

/// The search suggestions a reply lists, each once.
pub open spec fn suggestion_list(html: Seq<char>) -> Seq<Seq<char>> {
    let m = doc_found(html, true, seq![], "li .enty"@, seq![]);
    distinct_texts(m, m.len() as int)
}

fn holds_text(values: &Vec<String>, v: &String) -> (r: bool)
    ensures
        r == string_views(values@).contains(v@),
{
    let mut i: usize = 0;
    while i < values.len()
        invariant
            i <= values@.len(),
            forall|j: int| 0 <= j < i ==> values@[j]@ != v@,
        decreases values.len() - i,
    {
        if same_chars(&chars_of(values[i].as_str()), &chars_of(v.as_str())) {
            assert(string_views(values@)[i as int] == v@);
            return true;
        }
        i += 1;
    }
    proof {
        if string_views(values@).contains(v@) {
            let j = choose|j: int| 0 <= j < string_views(values@).len() && string_views(values@)[j] == v@;
            assert(values@[j]@ == v@);
        }
    }
    false
}

/// The suggestions a search reply lists, each once, in order.
pub fn parse_suggestions(html: &str) -> (r: Vec<String>)
    ensures
        string_views(r@) == suggestion_list(html@),
{
    let page = HtmlPage::parse_fragment(html);
    let m = page.find(&at_page(), "li .enty", &no_names());
    let ghost mv = element_views(m@);
    let mut out: Vec<String> = Vec::new();
    let mut i: usize = 0;
    while i < m.len()
        invariant
            i <= m@.len(),
            mv == element_views(m@),
            string_views(out@) == distinct_texts(mv, i as int),
        decreases m.len() - i,
    {
        assert(mv[i as int].0 == m@[i as int].text@);
        let v = string_of(trim(&chars_of(m[i].text.as_str())).as_slice());
        if !v.as_str().is_empty() && !holds_text(&out, &v) {
            let ghost prev = out@;
            out.push(v);
            assert(out@ =~= prev.push(v));
            assert(string_views(out@) =~= string_views(prev).push(v@));
        }
        i += 1;
    }
    out
}

/// The options among the first `n` that show a name, each value once.
pub open spec fn options_upto(m: Seq<(Seq<char>, Seq<Option<Seq<char>>>)>, n: int) -> Seq<LinkView>
    decreases n,
{
    if n <= 0 {
        seq![]
    } else {
        let init = options_upto(m, n - 1);
        let name = trimmed(m[n - 1].0);
        let url = match m[n - 1].1[0] {
            Some(v) => v,
            None => seq![],
        };
        if name.len() > 0 && !(exists|j: int| 0 <= j < init.len() && init[j].url == url) {
            init.push(LinkView { name, url })
        } else {
            init
        }
    }
}

pub open spec fn category_path(k: int) -> Seq<(Seq<char>, int)> {
    seq![("li.b-topnav__item:not(.single)"@, k)]
}

/// The options `css` finds in category `k`.
pub open spec fn category_options(html: Seq<char>, k: int, css: Seq<char>) -> Seq<LinkView> {
    let m = doc_found(html, false, category_path(k), css, seq!["value"@]);
    options_upto(m, m.len() as int)
}

/// A search filter as plain values.
pub struct FilterView {
    pub name: Seq<char>,
    pub path: Seq<char>,
    pub genres: Seq<LinkView>,
    pub years: Seq<LinkView>,
}

pub open spec fn filter_view(f: SearchFilter) -> FilterView {
    FilterView { name: f.name@, path: f.path@, genres: link_views(f.genres@), years: link_views(f.years@) }
}

pub open spec fn filter_views(v: Seq<SearchFilter>) -> Seq<FilterView> {
    v.map_values(|f: SearchFilter| filter_view(f))
}

/// Category `k` of the site's menu, when its link shows a name: its genres,
/// and its years after a first `Recent` choice.
pub open spec fn filter_at(html: Seq<char>, k: int) -> Option<FilterView> {
    let links = doc_found(html, false, category_path(k), ".b-topnav__item-link"@, seq!["href"@]);
    if links.len() > 0 && trimmed(links[0].0).len() > 0 {
        Some(
            FilterView {
                name: trimmed(links[0].0),
                path: match links[0].1[0] {
                    Some(h) => h,
                    None => seq![],
                },
                genres: category_options(html, k, "select.select-category option"@),
                years: seq![LinkView { name: "Recent"@, url: "-1"@ }] + category_options(
                    html,
                    k,
                    "select.select-year option"@,
                ),
            },
        )
    } else {
        None
    }
}

pub open spec fn filters_upto(html: Seq<char>, n: int) -> Seq<FilterView>
    decreases n,
{
    if n <= 0 {
        seq![]
    } else {
        match filter_at(html, n - 1) {
            Some(f) => filters_upto(html, n - 1).push(f),
            None => filters_upto(html, n - 1),
        }
    }
}

/// The search filters the site's menu offers.
pub open spec fn page_filters(html: Seq<char>) -> Seq<FilterView> {
    filters_upto(html, doc_found(html, false, seq![], "li.b-topnav__item:not(.single)"@, seq![]).len() as int)
}

fn options(page: &HtmlPage, html: &str, k: usize, css: &str) -> (r: Vec<LinkedItem>)
    requires
        page.source() == html@,
        !page.is_fragment(),
    ensures
        link_views(r@) == category_options(html@, k as int, css@),
{
    let m = page.find(&at("li.b-topnav__item:not(.single)", k), css, &name("value"));
    let ghost mv = element_views(m@);
    let mut values: Vec<LinkedItem> = Vec::new();
    let mut i: usize = 0;
    while i < m.len()
        invariant
            i <= m@.len(),
            mv == element_views(m@),
            forall|j: int| 0 <= j < m@.len() ==> (#[trigger] m@[j]).attrs@.len() == 1,
            link_views(values@) == options_upto(mv, i as int),
        decreases m.len() - i,
    {
        assert(mv[i as int].0 == m@[i as int].text@);
        assert(mv[i as int].1[0] == opt_view(m@[i as int].attrs@[0]));
        let item_name = string_of(trim(&chars_of(m[i].text.as_str())).as_slice());
        let url = match &m[i].attrs[0] {
            Some(v) => v.clone(),
            None => String::new(),
        };
        let ghost lv = link_views(values@);
        let mut seen = false;
        let mut j: usize = 0;
        while j < values.len()
            invariant
                j <= values@.len(),
                lv == link_views(values@),
                seen == exists|x: int| 0 <= x < j && lv[x].url == url@,
            decreases values.len() - j,
        {
            if same_chars(&chars_of(values[j].url.as_str()), &chars_of(url.as_str())) {
                seen = true;
                assert(lv[j as int].url == url@);
            }
            j += 1;
        }
        if !item_name.as_str().is_empty() && !seen {
            let item = LinkedItem { name: item_name, url };
            let ghost prev = values@;
            values.push(item);
            assert(values@ =~= prev.push(item));
            assert(link_views(values@) =~= link_views(prev).push(link_view(item)));
        }
        i += 1;
    }
    values
}

/// The search filters the site's menu offers.
pub fn parse_filters(html: &str) -> (r: Vec<SearchFilter>)
    ensures
        filter_views(r@) == page_filters(html@),
{
    let page = HtmlPage::parse_document(html);
    let count = page.find(&at_page(), "li.b-topnav__item:not(.single)", &no_names()).len();
    let mut out: Vec<SearchFilter> = Vec::new();
    let mut k: usize = 0;
    while k < count
        invariant
            k <= count,
            page.source() == html@,
            !page.is_fragment(),
            count == doc_found(html@, false, seq![], "li.b-topnav__item:not(.single)"@, seq![]).len(),
            filter_views(out@) == filters_upto(html@, k as int),
        decreases count - k,
    {
        let links = page.find(&at("li.b-topnav__item:not(.single)", k), ".b-topnav__item-link", &name("href"));
        if links.len() > 0 {
            assert(element_view(links@[0]).0 == links@[0].text@);
            assert(element_view(links@[0]).1[0] == opt_view(links@[0].attrs@[0]));
            let filter_name = string_of(trim(&chars_of(links[0].text.as_str())).as_slice());
            if !filter_name.as_str().is_empty() {
                let path = match &links[0].attrs[0] {
                    Some(h) => h.clone(),
                    None => String::new(),
                };
                let genres = options(&page, html, k, "select.select-category option");
                let mut years: Vec<LinkedItem> = Vec::new();
                years.push(LinkedItem { name: owned("Recent"), url: owned("-1") });
                let more = options(&page, html, k, "select.select-year option");
                let ghost recent = seq![LinkView { name: "Recent"@, url: "-1"@ }];
                assert(link_views(years@) =~= recent);
                let mut y: usize = 0;
                while y < more.len()
                    invariant
                        y <= more@.len(),
                        link_views(years@) == recent + link_views(more@).subrange(0, y as int),
                    decreases more.len() - y,
                {
                    let item = LinkedItem { name: more[y].name.clone(), url: more[y].url.clone() };
                    let ghost prev = years@;
                    years.push(item);
                    assert(years@ =~= prev.push(item));
                    assert(link_view(item) == link_views(more@)[y as int]);
                    assert(link_views(years@) =~= link_views(prev).push(link_view(item)));
                    assert(link_views(more@).subrange(0, y + 1) =~= link_views(more@).subrange(0, y as int).push(link_views(more@)[y as int]));
                    assert(link_views(years@) =~= recent + link_views(more@).subrange(0, y + 1));
                    y += 1;
                }
                assert(link_views(more@).subrange(0, more@.len() as int) =~= link_views(more@));
                let f = SearchFilter { name: filter_name, path, genres, years };
                let ghost prev = out@;
                out.push(f);
                assert(out@ =~= prev.push(f));
                assert(filter_views(out@) =~= filter_views(prev).push(filter_view(f)));
            }
        }
        k += 1;
    }
    out
}


/// A collection as plain values.
pub struct CollectionItemView {
    pub title: Seq<char>,
    pub url: Seq<char>,
    pub image_url: Option<Seq<char>>,
    pub count: usize,
}

pub open spec fn collection_item_view(c: Collection) -> CollectionItemView {
    CollectionItemView { title: c.title@, url: c.url@, image_url: opt_view(c.image_url), count: c.count }
}

pub open spec fn collection_item_views(v: Seq<Collection>) -> Seq<CollectionItemView> {
    v.map_values(|c: Collection| collection_item_view(c))
}

/// Collection `k` of a collections page, when it has a title and an
/// address; its count is the digits its counter shows.
pub open spec fn collection_at(html: Seq<char>, k: int) -> Option<CollectionItemView> {
    let e = doc_found(html, false, seq![], ".b-content__collections_item"@, seq!["data-url"@])[k];
    let p = seq![(".b-content__collections_item"@, k)];
    let title = match first_trimmed(doc_found(html, false, p, ".title"@, seq![])) {
        Some(t) => t,
        None => seq![],
    };
    let url = match e.1[0] {
        Some(u) => u,
        None => seq![],
    };
    let nums = doc_found(html, false, p, ".num"@, seq![]);
    if title.len() > 0 && url.len() > 0 {
        Some(
            CollectionItemView {
                title,
                url,
                image_url: first_attr_of(doc_found(html, false, p, ".cover"@, seq!["src"@])),
                count: if nums.len() > 0 {
                    match parsed_usize(ascii_digits(nums[0].0)) {
                        Some(n) => n,
                        None => 0,
                    }
                } else {
                    0
                },
            },
        )
    } else {
        None
    }
}

pub open spec fn collections_upto(html: Seq<char>, n: int) -> Seq<CollectionItemView>
    decreases n,
{
    if n <= 0 {
        seq![]
    } else {
        match collection_at(html, n - 1) {
            Some(c) => collections_upto(html, n - 1).push(c),
            None => collections_upto(html, n - 1),
        }
    }
}

pub open spec fn page_collection_items(html: Seq<char>) -> Seq<CollectionItemView> {
    collections_upto(html, doc_found(html, false, seq![], ".b-content__collections_item"@, seq!["data-url"@]).len() as int)
}

/// The collections a collections page lists.
pub fn parse_collections(html: &str) -> (r: Vec<Collection>)
    ensures
        collection_item_views(r@) == page_collection_items(html@),
{
    let page = HtmlPage::parse_document(html);
    let m = page.find(&at_page(), ".b-content__collections_item", &name("data-url"));
    let ghost mv = element_views(m@);
    let mut out: Vec<Collection> = Vec::new();
    let mut k: usize = 0;
    while k < m.len()
        invariant
            k <= m@.len(),
            page.source() == html@,
            !page.is_fragment(),
            mv == element_views(m@),
            mv == doc_found(html@, false, seq![], ".b-content__collections_item"@, seq!["data-url"@]),
            forall|j: int| 0 <= j < m@.len() ==> (#[trigger] m@[j]).attrs@.len() == 1,
            collection_item_views(out@) == collections_upto(html@, k as int),
        decreases m.len() - k,
    {
        assert(mv[k as int] == element_view(m@[k as int]));
        assert(mv[k as int].1[0] == opt_view(m@[k as int].attrs@[0]));
        let p = at(".b-content__collections_item", k);
        let title = match page.first_text(&p, ".title") {
            Some(t) => t,
            None => String::new(),
        };
        let url = match &m[k].attrs[0] {
            Some(u) => u.clone(),
            None => String::new(),
        };
        if !title.as_str().is_empty() && !url.as_str().is_empty() {
            let nums = page.find(&p, ".num", &no_names());
            let count = if nums.len() > 0 {
                assert(element_view(nums@[0]).0 == nums@[0].text@);
                match parse_usize(&keep_ascii_digits(&chars_of(nums[0].text.as_str()))) {
                    Some(n) => n,
                    None => 0,
                }
            } else {
                0
            };
            let c = Collection { title, url, image_url: page.first_attr(&p, ".cover", "src"), count };
            let ghost prev = out@;
            out.push(c);
            assert(out@ =~= prev.push(c));
            assert(collection_item_views(out@) =~= collection_item_views(prev).push(collection_item_view(c)));
        }
        k += 1;
    }
    out
}

/// The address of page `page` of the collections listing.
pub fn collections_path(page: usize) -> (r: String)
    ensures
        r@ == if page > 1 {
            "collections/page/"@ + decimal(page as nat) + "/"@
        } else {
            "collections/"@
        },
{
    if page > 1 {
        let mut out = chars_of("collections/page/");
        push_all(&mut out, &decimal_chars(page as u64));
        push_str(&mut out, "/");
        string_of(out.as_slice())
    } else {
        owned("collections/")
    }
}

/// The `application/x-www-form-urlencoded` spelling of a text.
pub uninterp spec fn form_encoded(s: Seq<char>) -> Seq<char>;

/// `url::form_urlencoded::byte_serialize` over the bytes of `s`, collected.
#[verifier::external_body]
fn urlencoding(s: &str) -> (r: String)
    ensures
        r@ == form_encoded(s@),
{
    url::form_urlencoded::byte_serialize(s.as_bytes()).collect()
}

/// The address of page `page` of the results for `query`.
pub open spec fn search_path_of(query: Seq<char>, page: usize) -> Seq<char> {
    if page > 1 {
        "search/?do=search&subaction=search&q="@ + form_encoded(query) + "&page="@ + decimal(page as nat)
    } else {
        "search/?do=search&subaction=search&q="@ + form_encoded(query)
    }
}

pub fn search_path(query: &str, page: usize) -> (r: String)
    ensures
        r@ == search_path_of(query@, page),
{
    let mut out = chars_of("search/?do=search&subaction=search&q=");
    push_all(&mut out, &chars_of(urlencoding(query).as_str()));
    if page > 1 {
        push_str(&mut out, "&page=");
        push_all(&mut out, &decimal_chars(page as u64));
    }
    string_of(out.as_slice())
}

/// A home rail as plain values.
pub open spec fn section_view(s: HomeSection) -> (Seq<char>, Seq<ItemView>) {
    (s.id@, item_views(s.items@))
}

/// The rails among the first `n` pages that arrived and list titles.
pub open spec fn sections_upto(pages: Seq<(Seq<char>, Option<Seq<char>>)>, n: int) -> Seq<(Seq<char>, Seq<ItemView>)>
    decreases n,
{
    if n <= 0 {
        seq![]
    } else {
        let init = sections_upto(pages, n - 1);
        match pages[n - 1].1 {
            Some(html) => if catalog_items(html).len() > 0 {
                init.push((pages[n - 1].0, catalog_items(html)))
            } else {
                init
            },
            None => init,
        }
    }
}

pub open spec fn page_views(pages: Seq<(String, Option<String>)>) -> Seq<(Seq<char>, Option<Seq<char>>)> {
    pages.map_values(|p: (String, Option<String>)| (p.0@, opt_view(p.1)))
}

/// The home rails: one per page that arrived and lists titles, in order.
/// A page that did not arrive is left out, so one slow or refused page
/// does not take the others down with it.
pub fn home_sections(pages: Vec<(String, Option<String>)>) -> (r: Vec<HomeSection>)
    ensures
        r@.map_values(|s: HomeSection| section_view(s)) == sections_upto(page_views(pages@), pages@.len() as int),
        forall|j: int, k: int|
            0 <= j < r@.len() && 0 <= k < r@[j].items@.len() ==> (#[trigger] r@[j].items@[k]).orig_title is None,
{
    let ghost pv = page_views(pages@);
    let mut out: Vec<HomeSection> = Vec::new();
    let mut i: usize = 0;
    while i < pages.len()
        invariant
            i <= pages@.len(),
            pv == page_views(pages@),
            out@.map_values(|s: HomeSection| section_view(s)) == sections_upto(pv, i as int),
            forall|j: int, k: int|
                0 <= j < out@.len() && 0 <= k < out@[j].items@.len() ==> (#[trigger] out@[j].items@[k]).orig_title is None,
        decreases pages.len() - i,
    {
        assert(pv[i as int] == (pages@[i as int].0@, opt_view(pages@[i as int].1)));
        match &pages[i].1 {
            Some(html) => {
                let items = CatalogScraper::parse_catalog_html(html.as_str());
                if items.len() > 0 {
                    let s = HomeSection { id: pages[i].0.clone(), items };
                    let ghost prev = out@;
                    out.push(s);
                    assert(out@ =~= prev.push(s));
                    assert(out@.map_values(|s: HomeSection| section_view(s)) =~= prev.map_values(
                        |s: HomeSection| section_view(s),
                    ).push(section_view(s)));
                }
            },
            None => {},
        }
        i += 1;
    }
    out
}

} // verus!

verus! {

proof fn lemma_distinct_texts(m: Seq<(Seq<char>, Seq<Option<Seq<char>>>)>, n: int)
    ensures
        forall|k: int|
            0 <= k < distinct_texts(m, n).len() ==> (#[trigger] distinct_texts(m, n)[k]).len() > 0 && exists|e: int|
                0 <= e < n && distinct_texts(m, n)[k] == trimmed(m[e].0),
        forall|j: int, k: int|
            0 <= j < k < distinct_texts(m, n).len() ==> distinct_texts(m, n)[j] != distinct_texts(m, n)[k],
    decreases n,
{
    if n > 0 {
        lemma_distinct_texts(m, n - 1);
        let init = distinct_texts(m, n - 1);
        let v = trimmed(m[n - 1].0);
        if v.len() > 0 && !init.contains(v) {
            let all = distinct_texts(m, n);
            assert(all == init.push(v));
            assert forall|k: int| 0 <= k < all.len() implies (#[trigger] all[k]).len() > 0 && exists|e: int|
                0 <= e < n && all[k] == trimmed(m[e].0) by {
                if k < init.len() {
                    assert(all[k] == init[k]);
                    let e = choose|e: int| 0 <= e < n - 1 && init[k] == trimmed(m[e].0);
                    assert(0 <= e < n && all[k] == trimmed(m[e].0));
                } else {
                    assert(all[k] == v);
                    assert(all[k] == trimmed(m[n - 1].0));
                }
            }
            assert forall|j: int, k: int| 0 <= j < k < all.len() implies all[j] != all[k] by {
                if k == init.len() {
                    assert(all[j] == init[j]);
                    assert(init.contains(init[j]));
                } else {
                    assert(all[j] == init[j] && all[k] == init[k]);
                }
            }
        }
    }
}

/// Each search suggestion is the name a suggestion item gives its title:
/// the trimmed text of an element the selector `li .enty` matches in the
/// reply, so nothing outside that element (such as the year after it)
/// appears in it; none is empty and none is listed twice.
pub proof fn law_suggestions_are_title_names(html: Seq<char>, k: int)
    requires
        0 <= k < suggestion_list(html).len(),
    ensures
        suggestion_list(html)[k].len() > 0,
        exists|e: int|
            0 <= e < doc_found(html, true, seq![], "li .enty"@, seq![]).len() && suggestion_list(html)[k]
                == trimmed(doc_found(html, true, seq![], "li .enty"@, seq![])[e].0),
        forall|j: int| 0 <= j < suggestion_list(html).len() && j != k ==> suggestion_list(html)[j] != suggestion_list(html)[k],
{
    let names = doc_found(html, true, seq![], "li .enty"@, seq![]);
    lemma_distinct_texts(names, names.len() as int);
    assert(suggestion_list(html) == distinct_texts(names, names.len() as int));
    assert(suggestion_list(html)[k].len() > 0);
    assert forall|j: int| 0 <= j < suggestion_list(html).len() && j != k implies suggestion_list(html)[j]
        != suggestion_list(html)[k] by {
        if j < k {
        } else {
        }
    }
}

} // verus!
