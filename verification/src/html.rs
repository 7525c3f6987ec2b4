//! Reading the provider's HTML pages.
//!
//! A page is parsed once with `scraper` and kept beside the text it was
//! parsed from. An element is reached by a path of steps from the page: each
//! step selects with a CSS selector inside the element reached so far (the
//! whole page at first) and takes the match at an index. What the client
//! reads of an element is its text and some of its attributes.

use vstd::prelude::*;
use scraper::Selector;
use crate::text::{chars_of, contains_seq, opt_view, string_of, string_views, trim, trimmed};

verus! {

#[verifier::external_type_specification]
#[verifier::external_body]
pub struct ExHtml(scraper::Html);

/// A parsed HTML page, with the text it was parsed from.
pub struct HtmlPage {
    source: String,
    fragment: bool,
    tree: scraper::Html,
}

/// An element as the client reads it: its text (all of its text nodes, in
/// order) and the values of the attributes asked for, in the order asked.
pub struct HtmlElement {
    pub text: String,
    pub attrs: Vec<Option<String>>,
}

pub open spec fn element_view(e: HtmlElement) -> (Seq<char>, Seq<Option<Seq<char>>>) {
    (e.text@, e.attrs@.map_values(|a: Option<String>| opt_view(a)))
}

pub open spec fn element_views(v: Seq<HtmlElement>) -> Seq<(Seq<char>, Seq<Option<Seq<char>>>)> {
    v.map_values(|e: HtmlElement| element_view(e))
}

/// A path of steps, as selectors and indices.
pub open spec fn path_view(path: Seq<(&str, usize)>) -> Seq<(Seq<char>, int)> {
    path.map_values(|p: (&str, usize)| (p.0@, p.1 as int))
}

pub open spec fn names_view(names: Seq<&str>) -> Seq<Seq<char>> {
    names.map_values(|n: &str| n@)
}

/// The elements `scraper` finds for `css` inside the element `path` leads
/// to in the page parsed from `text` (as a document, or as a fragment),
/// each with its text and the attributes `names`; nothing when a selector
/// does not parse or a step has no match at its index.
pub uninterp spec fn html_matches(
    text: Seq<char>,
    fragment: bool,
    path: Seq<(Seq<char>, int)>,
    css: Seq<char>,
    names: Seq<Seq<char>>,
) -> Option<Seq<(Seq<char>, Seq<Option<Seq<char>>>)>>;

/// Whether the markup `scraper` serialises for the element `path` leads
/// to (the element itself, or only what is inside it) holds `word`. Only
/// asked of words that fit inside one name, one attribute value or one run
/// of text, which the order `scraper` writes attributes in cannot change.
pub uninterp spec fn html_markup_has(
    text: Seq<char>,
    fragment: bool,
    path: Seq<(Seq<char>, int)>,
    inner: bool,
    word: Seq<char>,
) -> bool;

/// A word of ASCII letters, digits and `-`: it holds no quote, space, `=`
/// or angle bracket, so no occurrence of it runs from one attribute into
/// the next.
pub open spec fn markup_word(word: Seq<char>) -> bool {
    forall|i: int|
        0 <= i < word.len() ==> {
            let c = #[trigger] word[i];
            ('a' <= c && c <= 'z') || ('A' <= c && c <= 'Z') || ('0' <= c && c <= '9') || c == '-'
        }
}

/// The text nodes `scraper` walks inside the element `path` leads to, in
/// order.
pub uninterp spec fn html_text_nodes(text: Seq<char>, fragment: bool, path: Seq<(Seq<char>, int)>) -> Option<Seq<Seq<char>>>;

/// The text of the root element of the page parsed from `text`.
pub uninterp spec fn html_root_text(text: Seq<char>, fragment: bool) -> Seq<char>;

/// What the selection comes to, with nothing found where a selector does
/// not parse; the client's selectors are constants that do.
pub open spec fn doc_found(
    text: Seq<char>,
    fragment: bool,
    path: Seq<(Seq<char>, int)>,
    css: Seq<char>,
    names: Seq<Seq<char>>,
) -> Seq<(Seq<char>, Seq<Option<Seq<char>>>)> {
    match html_matches(text, fragment, path, css, names) {
        Some(m) => m,
        None => seq![],
    }
}

pub open spec fn found(page: HtmlPage, path: Seq<(Seq<char>, int)>, css: Seq<char>, names: Seq<Seq<char>>) -> Seq<(Seq<char>, Seq<Option<Seq<char>>>)> {
    doc_found(page.source(), page.is_fragment(), path, css, names)
}

/// The trimmed text of the first element found.
pub open spec fn first_trimmed(m: Seq<(Seq<char>, Seq<Option<Seq<char>>>)>) -> Option<Seq<char>> {
    if m.len() > 0 {
        Some(trimmed(m[0].0))
    } else {
        None
    }
}

/// The first attribute asked for, of the first element found.
pub open spec fn first_attr_of(m: Seq<(Seq<char>, Seq<Option<Seq<char>>>)>) -> Option<Seq<char>> {
    if m.len() > 0 && m[0].1.len() > 0 {
        m[0].1[0]
    } else {
        None
    }
}

/// The trimmed texts of the elements found, in order.
pub open spec fn trimmed_texts(m: Seq<(Seq<char>, Seq<Option<Seq<char>>>)>) -> Seq<Seq<char>> {
    m.map_values(|e: (Seq<char>, Seq<Option<Seq<char>>>)| trimmed(e.0))
}

impl HtmlPage {
    /// The text the page was parsed from.
    pub closed spec fn source(self) -> Seq<char> {
        self.source@
    }

    pub closed spec fn is_fragment(self) -> bool {
        self.fragment
    }

    /// `scraper::Html::parse_document`.
    #[verifier::external_body]
    pub(crate) fn parse_document(text: &str) -> (r: HtmlPage)
        ensures
            r.source() == text@,
            !r.is_fragment(),
    {
        HtmlPage { source: text.to_string(), fragment: false, tree: scraper::Html::parse_document(text) }
    }

    /// `scraper::Html::parse_fragment`.
    #[verifier::external_body]
    pub(crate) fn parse_fragment(text: &str) -> (r: HtmlPage)
        ensures
            r.source() == text@,
            r.is_fragment(),
    {
        HtmlPage { source: text.to_string(), fragment: true, tree: scraper::Html::parse_fragment(text) }
    }

    /// `scraper::Selector::parse` of `css`, `Html::select` on the page, then
    /// for every match `ElementRef::text` and `Element::attr` of each of
    /// `names`.
    #[verifier::external_body]
    fn select_page(&self, css: &str, names: &[&str]) -> (r: Option<Vec<HtmlElement>>)
        ensures
            match r {
                Some(v) => html_matches(self.source(), self.is_fragment(), seq![], css@, names_view(names@)) == Some(element_views(v@))
                    && forall|i: int| 0 <= i < v@.len() ==> (#[trigger] v@[i]).attrs@.len() == names@.len(),
                None => html_matches(self.source(), self.is_fragment(), seq![], css@, names_view(names@)) is None,
            },
    {
        let selector = Selector::parse(css).ok()?;
        Some(self.tree.select(&selector).map(|el| HtmlElement { text: el.text().collect(), attrs: names.iter().map(|name| el.value().attr(name).map(str::to_string)).collect() }).collect())
    }

    /// `scraper::Selector::parse` for each selector; `Html::select` on the
    /// page for the first step and `ElementRef::select` inside the element
    /// reached for the others, each followed by `Iterator::nth`; then, for
    /// every match of `css` inside the element reached, `ElementRef::text`
    /// and `Element::attr` of each of `names`.
    #[verifier::external_body]
    fn select_under(&self, path: &[(&str, usize)], css: &str, names: &[&str]) -> (r: Option<Vec<HtmlElement>>)
        requires
            path@.len() > 0,
        ensures
            match r {
                Some(v) => html_matches(self.source(), self.is_fragment(), path_view(path@), css@, names_view(names@)) == Some(element_views(v@))
                    && forall|i: int| 0 <= i < v@.len() ==> (#[trigger] v@[i]).attrs@.len() == names@.len(),
                None => html_matches(self.source(), self.is_fragment(), path_view(path@), css@, names_view(names@)) is None,
            },
    {
        let (first, rest) = path.split_first()?;
        let mut el = self.tree.select(&Selector::parse(first.0).ok()?).nth(first.1)?;
        for &(step, index) in rest {
            el = el.select(&Selector::parse(step).ok()?).nth(index)?;
        }
        let selector = Selector::parse(css).ok()?;
        Some(el.select(&selector).map(|el| HtmlElement { text: el.text().collect(), attrs: names.iter().map(|name| el.value().attr(name).map(str::to_string)).collect() }).collect())
    }

    /// The path walked as in `select`, then `ElementRef::html` or
    /// `ElementRef::inner_html` of the element reached. The attributes of
    /// an element are written in the order of the hash map `scraper` keeps
    /// them in, which two parses may not share, so of the text only which
    /// words it holds is stated; it is there exactly when the path leads
    /// to an element, as for [`text_nodes`](Self::text_nodes).
    #[verifier::external_body]
    pub(crate) fn markup(&self, path: &[(&str, usize)], inner: bool) -> (r: Option<String>)
        ensures
            r is None <==> html_text_nodes(self.source(), self.is_fragment(), path_view(path@)) is None,
            r matches Some(m) ==> forall|word: Seq<char>|
                markup_word(word) ==> (contains_seq(m@, word) == html_markup_has(
                    self.source(),
                    self.is_fragment(),
                    path_view(path@),
                    inner,
                    word,
                )),
    {
        let mut scope: Option<scraper::ElementRef> = None;
        for (step, index) in path {
            let selector = scraper::Selector::parse(step).ok()?;
            scope = Some(match scope { None => self.tree.select(&selector).nth(*index)?, Some(el) => el.select(&selector).nth(*index)? });
        }
        Some(if inner { scope?.inner_html() } else { scope?.html() })
    }

    /// The path walked as in `select`, then the strings `ElementRef::text`
    /// yields for the element reached.
    #[verifier::external_body]
    pub(crate) fn text_nodes(&self, path: &[(&str, usize)]) -> (r: Option<Vec<String>>)
        ensures
            match r {
                Some(v) => html_text_nodes(self.source(), self.is_fragment(), path_view(path@)) == Some(string_views(v@)),
                None => html_text_nodes(self.source(), self.is_fragment(), path_view(path@)) is None,
            },
    {
        let mut scope: Option<scraper::ElementRef> = None;
        for (step, index) in path {
            let selector = scraper::Selector::parse(step).ok()?;
            scope = Some(match scope { None => self.tree.select(&selector).nth(*index)?, Some(el) => el.select(&selector).nth(*index)? });
        }
        Some(scope?.text().map(str::to_string).collect())
    }

    /// `Html::root_element` and `ElementRef::text`, collected.
    #[verifier::external_body]
    pub(crate) fn root_text(&self) -> (r: String)
        ensures
            r@ == html_root_text(self.source(), self.is_fragment()),
    {
        self.tree.root_element().text().collect()
    }

    /// The elements for `css` inside the element `path` leads to; none
    /// where a selector does not parse.
    pub fn find(&self, path: &Vec<(&str, usize)>, css: &str, names: &Vec<&str>) -> (r: Vec<HtmlElement>)
        ensures
            element_views(r@) == found(*self, path_view(path@), css@, names_view(names@)),
            forall|i: int| 0 <= i < r@.len() ==> (#[trigger] r@[i]).attrs@.len() == names@.len(),
    {
        let picked = if path.len() == 0 {
            assert(path_view(path@) =~= seq![]);
            self.select_page(css, names.as_slice())
        } else {
            self.select_under(path.as_slice(), css, names.as_slice())
        };
        match picked {
            Some(v) => v,
            None => {
                let none: Vec<HtmlElement> = Vec::new();
                assert(element_views(none@) =~= seq![]);
                none
            },
        }
    }

    /// The trimmed text of the first element for `css` inside `path`.
    pub fn first_text(&self, path: &Vec<(&str, usize)>, css: &str) -> (r: Option<String>)
        ensures
            opt_view(r) == first_trimmed(found(*self, path_view(path@), css@, seq![])),
    {
        let names: Vec<&str> = Vec::new();
        assert(names_view(names@) =~= seq![]);
        let m = self.find(path, css, &names);
        if m.len() > 0 {
            Some(trimmed_text(&m[0]))
        } else {
            None
        }
    }

    /// The attribute `name` of the first element for `css` inside `path`.
    pub fn first_attr(&self, path: &Vec<(&str, usize)>, css: &str, name: &str) -> (r: Option<String>)
        ensures
            opt_view(r) == first_attr_of(found(*self, path_view(path@), css@, seq![name@])),
    {
        let mut names: Vec<&str> = Vec::new();
        names.push(name);
        assert(names_view(names@) =~= seq![name@]);
        let m = self.find(path, css, &names);
        if m.len() > 0 && m[0].attrs.len() > 0 {
            match &m[0].attrs[0] {
                Some(v) => Some(v.clone()),
                None => None,
            }
        } else {
            None
        }
    }

    /// Whether anything matches `css` inside `path`.
    pub fn has(&self, path: &Vec<(&str, usize)>, css: &str) -> (r: bool)
        ensures
            r == (found(*self, path_view(path@), css@, seq![]).len() > 0),
    {
        let names: Vec<&str> = Vec::new();
        assert(names_view(names@) =~= seq![]);
        self.find(path, css, &names).len() > 0
    }

    /// The trimmed texts of the elements for `css` inside `path`.
    pub fn texts(&self, path: &Vec<(&str, usize)>, css: &str) -> (r: Vec<String>)
        ensures
            string_views(r@) == trimmed_texts(found(*self, path_view(path@), css@, seq![])),
    {
        let names: Vec<&str> = Vec::new();
        assert(names_view(names@) =~= seq![]);
        let m = self.find(path, css, &names);
        let ghost mv = element_views(m@);
        let mut out: Vec<String> = Vec::new();
        let mut i: usize = 0;
        while i < m.len()
            invariant
                i <= m@.len(),
                mv == element_views(m@),
                string_views(out@) == trimmed_texts(mv.subrange(0, i as int)),
            decreases m.len() - i,
        {
            let ghost prev = out@;
            let t = trimmed_text(&m[i]);
            out.push(t);
            assert(out@ =~= prev.push(t));
            assert(mv[i as int] == element_view(m@[i as int]));
            assert(string_views(out@) =~= string_views(prev).push(t@));
            assert(trimmed_texts(mv.subrange(0, i + 1)) =~= trimmed_texts(mv.subrange(0, i as int)).push(trimmed(mv[i as int].0)));
            assert(string_views(out@) =~= trimmed_texts(mv.subrange(0, i + 1)));
            i += 1;
        }
        assert(mv.subrange(0, m@.len() as int) =~= mv);
        out
    }
}

/// The trimmed text of an element.
pub fn trimmed_text(e: &HtmlElement) -> (r: String)
    ensures
        r@ == trimmed(e.text@),
{
    string_of(trim(&chars_of(e.text.as_str())).as_slice())
}

/// The path that starts at the page.
pub fn at_page() -> (r: Vec<(&'static str, usize)>)
    ensures
        path_view(r@) == Seq::<(Seq<char>, int)>::empty(),
{
    let r: Vec<(&'static str, usize)> = Vec::new();
    assert(path_view(r@) =~= Seq::<(Seq<char>, int)>::empty());
    r
}

/// `path` followed by one more step.
pub fn then(path: &Vec<(&'static str, usize)>, css: &'static str, index: usize) -> (r: Vec<(&'static str, usize)>)
    ensures
        path_view(r@) == path_view(path@).push((css@, index as int)),
{
    let mut r: Vec<(&'static str, usize)> = Vec::new();
    let mut i: usize = 0;
    while i < path.len()
        invariant
            i <= path@.len(),
            r@ == path@.subrange(0, i as int),
        decreases path.len() - i,
    {
        r.push(path[i]);
        i += 1;
        assert(r@ =~= path@.subrange(0, i as int));
    }
    r.push((css, index));
    assert(r@ =~= path@.push((css, index)));
    assert(path_view(r@) =~= path_view(path@).push((css@, index as int)));
    r
}

/// The path of one step from the page.
pub fn at(css: &'static str, index: usize) -> (r: Vec<(&'static str, usize)>)
    ensures
        path_view(r@) == seq![(css@, index as int)],
{
    let r = then(&at_page(), css, index);
    assert(path_view(r@) =~= seq![(css@, index as int)]);
    r
}

/// No attributes.
pub fn no_names() -> (r: Vec<&'static str>)
    ensures
        names_view(r@) == Seq::<Seq<char>>::empty(),
        r@.len() == 0,
{
    let r: Vec<&'static str> = Vec::new();
    assert(names_view(r@) =~= Seq::<Seq<char>>::empty());
    r
}

/// `names` and one more attribute.
pub fn and_name(names: Vec<&'static str>, name: &'static str) -> (r: Vec<&'static str>)
    ensures
        names_view(r@) == names_view(names@).push(name@),
        r@.len() == names@.len() + 1,
{
    let mut r = names;
    let ghost before = r@;
    r.push(name);
    assert(r@ =~= before.push(name));
    assert(names_view(r@) =~= names_view(before).push(name@));
    r
}

/// One attribute.
pub fn name(a: &'static str) -> (r: Vec<&'static str>)
    ensures
        names_view(r@) == seq![a@],
        r@.len() == 1,
{
    let r = and_name(no_names(), a);
    assert(names_view(r@) =~= seq![a@]);
    r
}

/// Two attributes.
pub fn names2(a: &'static str, b: &'static str) -> (r: Vec<&'static str>)
    ensures
        names_view(r@) == seq![a@, b@],
        r@.len() == 2,
{
    let r = and_name(name(a), b);
    assert(names_view(r@) =~= seq![a@, b@]);
    r
}

/// Three attributes.
pub fn names3(a: &'static str, b: &'static str, c: &'static str) -> (r: Vec<&'static str>)
    ensures
        names_view(r@) == seq![a@, b@, c@],
        r@.len() == 3,
{
    let r = and_name(names2(a, b), c);
    assert(names_view(r@) =~= seq![a@, b@, c@]);
    r
}

} // verus!
