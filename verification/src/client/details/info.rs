//! The info table of a title's page: one row per fact, a label cell and a
//! value cell. A row is known by words in its label; where several rows
//! carry the same fact, the last one counts.

use vstd::prelude::*;
use crate::client::models::{LinkedItem, Person, Rating};
use crate::html::{
    at, doc_found, element_view, name, names3, no_names, then, trimmed_texts, HtmlPage,
};
use crate::text::{
    before_first, chars_of, regex_find, regex_first_group, regex_first_match, regex_group, contains_seq, contains_str, find_char, find_seq, first_occurrence,
    lemma_first_index, lemma_first_occurrence, lowercased, normalize_spaces, opt_view,
    parse_i32, parse_u64, parsed_i32, parsed_u64, replace_lit, replaced, slice_vec,
    spaced_words, string_of, to_lowercase, trim, trimmed,
};

verus! {

/// The fact a row of the info table carries, by the words in its label.
#[derive(Debug, Clone, Copy, PartialEq, Eq, Structural)]
pub enum InfoRow {
    Other,
    Year,
    Country,
    Genre,
    Director,
    Cast,
    Lists,
    Series,
    Duration,
    Ratings,
}

/// The fact a lower-cased label names; the first word that matches wins.
pub open spec fn label_kind(key: Seq<char>) -> InfoRow {
    if contains_seq(key, "год"@) || contains_seq(key, "дата выхода"@) {
        InfoRow::Year
    } else if contains_seq(key, "страна"@) {
        InfoRow::Country
    } else if contains_seq(key, "жанр"@) {
        InfoRow::Genre
    } else if contains_seq(key, "режиссер"@) {
        InfoRow::Director
    } else if contains_seq(key, "в ролях"@) {
        InfoRow::Cast
    } else if contains_seq(key, "входит в списки"@) {
        InfoRow::Lists
    } else if contains_seq(key, "из серии"@) {
        InfoRow::Series
    } else if contains_seq(key, "время"@) {
        InfoRow::Duration
    } else if contains_seq(key, "рейтинг"@) {
        InfoRow::Ratings
    } else {
        InfoRow::Other
    }
}

pub open spec fn row_path(r: int) -> Seq<(Seq<char>, int)> {
    seq![(".b-post__info tr"@, r)]
}

/// The value cell of row `r`.
pub open spec fn value_path(r: int) -> Seq<(Seq<char>, int)> {
    seq![(".b-post__info tr"@, r), ("td"@, 1)]
}

pub open spec fn info_rows(html: Seq<char>) -> int {
    doc_found(html, false, seq![], ".b-post__info tr"@, seq![]).len() as int
}

pub open spec fn row_cells(html: Seq<char>, r: int) -> Seq<(Seq<char>, Seq<Option<Seq<char>>>)> {
    doc_found(html, false, row_path(r), "td"@, seq![])
}

/// What row `r` carries; a row with fewer than two cells carries nothing.
pub open spec fn row_kind(html: Seq<char>, r: int) -> InfoRow {
    let cells = row_cells(html, r);
    if cells.len() >= 2 {
        label_kind(lowercased(trimmed(cells[0].0)))
    } else {
        InfoRow::Other
    }
}

/// The text of the value cell of row `r`.
pub open spec fn value_text(html: Seq<char>, r: int) -> Seq<char> {
    row_cells(html, r)[1].0
}

/// The last of the first `n` rows that carries `kind`.
pub open spec fn last_row(html: Seq<char>, kind: InfoRow, n: int) -> Option<int>
    decreases n,
{
    if n <= 0 {
        None
    } else if row_kind(html, n - 1) == kind {
        Some(n - 1)
    } else {
        last_row(html, kind, n - 1)
    }
}

/// The trimmed link texts of the value cell of the last row carrying `kind`.
pub open spec fn link_texts(html: Seq<char>, kind: InfoRow) -> Seq<Seq<char>> {
    match last_row(html, kind, info_rows(html)) {
        Some(r) => trimmed_texts(doc_found(html, false, value_path(r), "a"@, seq![])),
        None => seq![],
    }
}

/// The first link text of row `r` that reads as a year.
pub open spec fn year_in(links: Seq<(Seq<char>, Seq<Option<Seq<char>>>)>, n: int) -> Option<i32>
    decreases n,
{
    if n <= 0 {
        None
    } else {
        match year_in(links, n - 1) {
            Some(y) => Some(y),
            None => parsed_i32(trimmed(links[n - 1].0)),
        }
    }
}

pub open spec fn row_year(html: Seq<char>, r: int) -> Option<i32> {
    let links = doc_found(html, false, value_path(r), "a"@, seq![]);
    year_in(links, links.len() as int)
}

/// The year of the last year row among the first `n` that names one.
pub open spec fn year_upto(html: Seq<char>, n: int) -> Option<i32>
    decreases n,
{
    if n <= 0 {
        None
    } else if row_kind(html, n - 1) == InfoRow::Year && row_year(html, n - 1) is Some {
        row_year(html, n - 1)
    } else {
        year_upto(html, n - 1)
    }
}

pub open spec fn or_empty(o: Option<Seq<char>>) -> Seq<char> {
    match o {
        Some(s) => s,
        None => seq![],
    }
}

/// A link as plain values.
pub struct LinkView {
    pub name: Seq<char>,
    pub url: Seq<char>,
}

pub open spec fn link_view(l: LinkedItem) -> LinkView {
    LinkView { name: l.name@, url: l.url@ }
}

pub open spec fn link_views(v: Seq<LinkedItem>) -> Seq<LinkView> {
    v.map_values(|l: LinkedItem| link_view(l))
}

/// The links among the first `n` found that show a name.
pub open spec fn links_upto(m: Seq<(Seq<char>, Seq<Option<Seq<char>>>)>, n: int) -> Seq<LinkView>
    decreases n,
{
    if n <= 0 {
        seq![]
    } else {
        let name = trimmed(m[n - 1].0);
        if name.len() > 0 {
            links_upto(m, n - 1).push(LinkView { name, url: or_empty(m[n - 1].1[0]) })
        } else {
            links_upto(m, n - 1)
        }
    }
}

/// The named links of the cell `path` leads to.
pub open spec fn links_in(html: Seq<char>, path: Seq<(Seq<char>, int)>) -> Seq<LinkView> {
    let m = doc_found(html, false, path, "a[href]"@, seq!["href"@]);
    links_upto(m, m.len() as int)
}

/// The named links of the last row carrying `kind`.
pub open spec fn row_links(html: Seq<char>, kind: InfoRow) -> Seq<LinkView> {
    match last_row(html, kind, info_rows(html)) {
        Some(r) => links_in(html, value_path(r)),
        None => seq![],
    }
}

/// A person as plain values.
pub struct PersonView {
    pub name: Seq<char>,
    pub url: Seq<char>,
    pub photo_url: Option<Seq<char>>,
    pub role: Option<Seq<char>>,
}

pub open spec fn person_view(p: Person) -> PersonView {
    PersonView { name: p.name@, url: p.url@, photo_url: opt_view(p.photo_url), role: opt_view(p.role) }
}

pub open spec fn person_views(v: Seq<Person>) -> Seq<PersonView> {
    v.map_values(|p: Person| person_view(p))
}

pub open spec fn person_names() -> Seq<Seq<char>> {
    seq!["data-photo"@, "data-job"@, "href"@]
}

/// The elements a cell lists its people with: its `.person-name-item`
/// entries, or else its links.
pub open spec fn person_selector(html: Seq<char>, cell: Seq<(Seq<char>, int)>) -> Seq<char> {
    if doc_found(html, false, cell, ".person-name-item"@, person_names()).len() > 0 {
        ".person-name-item"@
    } else {
        "a[href]"@
    }
}

/// The person entry `j` names, when it shows a name: the address is that of
/// the first link inside it, or its own.
pub open spec fn person_at(html: Seq<char>, cell: Seq<(Seq<char>, int)>, sel: Seq<char>, j: int) -> Option<PersonView> {
    let node = doc_found(html, false, cell, sel, person_names())[j];
    let name = trimmed(node.0);
    if name.len() == 0 {
        None
    } else {
        let links = doc_found(html, false, cell.push((sel, j)), "a[href]"@, seq!["href"@]);
        let url = if links.len() > 0 {
            links[0].1[0]
        } else {
            node.1[2]
        };
        Some(PersonView { name, url: or_empty(url), photo_url: node.1[0], role: node.1[1] })
    }
}

pub open spec fn people_upto(html: Seq<char>, cell: Seq<(Seq<char>, int)>, sel: Seq<char>, n: int) -> Seq<PersonView>
    decreases n,
{
    if n <= 0 {
        seq![]
    } else {
        match person_at(html, cell, sel, n - 1) {
            Some(p) => people_upto(html, cell, sel, n - 1).push(p),
            None => people_upto(html, cell, sel, n - 1),
        }
    }
}

/// The people the cell `cell` lists, in order.
pub open spec fn people_in(html: Seq<char>, cell: Seq<(Seq<char>, int)>) -> Seq<PersonView> {
    let sel = person_selector(html, cell);
    people_upto(html, cell, sel, doc_found(html, false, cell, sel, person_names()).len() as int)
}

pub open spec fn row_people(html: Seq<char>, kind: InfoRow) -> Seq<PersonView> {
    match last_row(html, kind, info_rows(html)) {
        Some(r) => people_in(html, value_path(r)),
        None => seq![],
    }
}

/// A score-shaped number: digits, then optionally a `.` or `,` and more
/// digits.
pub const RATING_VALUE: &'static str = r"\d+(?:[.,]\d+)?";

/// The digits and spaces between a pair of parentheses that hold only those.
pub const RATING_VOTES: &'static str = r"\(([\d\s]+)\)";

/// The first score-shaped number in a text.
pub open spec fn rating_number(text: Seq<char>) -> Option<Seq<char>> {
    regex_first_match(RATING_VALUE@, text)
}

fn find_rating_number(text: &str) -> (r: Option<String>)
    ensures
        opt_view(r) == rating_number(text@),
{
    regex_find(RATING_VALUE, text)
}

/// What the first pair of parentheses holding only digits and spaces holds.
pub open spec fn rating_votes(text: Seq<char>) -> Option<Seq<char>> {
    regex_first_group(RATING_VOTES@, text, 1)
}

fn find_rating_votes(text: &str) -> (r: Option<String>)
    ensures
        opt_view(r) == rating_votes(text@),
{
    regex_group(RATING_VOTES, text, 1)
}

/// A rating as plain values; its score is kept as the text the page shows,
/// with a decimal point.
pub struct RatingView {
    pub name: Seq<char>,
    pub value: Seq<char>,
    pub votes: Option<u64>,
    pub url: Option<Seq<char>>,
}

pub open spec fn rating_view(r: Rating) -> RatingView {
    RatingView { name: r.name@, value: r.value@, votes: r.votes, url: opt_view(r.url) }
}

pub open spec fn rating_views(v: Seq<Rating>) -> Seq<RatingView> {
    v.map_values(|r: Rating| rating_view(r))
}

/// The rating a line such as `IMDb: 7.8 (12 345)` states, when it holds a
/// score: its name is what comes before the first colon.
pub open spec fn rating_of(text: Seq<char>) -> Option<RatingView> {
    let t = spaced_words(text);
    match rating_number(t) {
        Some(v) => Some(
            RatingView {
                name: trimmed(before_first(t, ':')),
                value: replaced(v, ","@, "."@),
                votes: match rating_votes(t) {
                    Some(g) => parsed_u64(replaced(g, " "@, ""@)),
                    None => None,
                },
                url: None,
            },
        ),
        None => None,
    }
}

pub open spec fn ratings_upto(m: Seq<(Seq<char>, Seq<Option<Seq<char>>>)>, n: int) -> Seq<RatingView>
    decreases n,
{
    if n <= 0 {
        seq![]
    } else {
        match rating_of(m[n - 1].0) {
            Some(r) => ratings_upto(m, n - 1).push(r),
            None => ratings_upto(m, n - 1),
        }
    }
}

/// The ratings of the last ratings row, one per span that holds a score.
pub open spec fn row_ratings(html: Seq<char>) -> Seq<RatingView> {
    match last_row(html, InfoRow::Ratings, info_rows(html)) {
        Some(r) => {
            let m = doc_found(html, false, value_path(r), "span"@, seq![]);
            ratings_upto(m, m.len() as int)
        },
        None => seq![],
    }
}

pub open spec fn is_ascii_digit(c: char) -> bool {
    '0' <= c && c <= '9'
}

/// `s` from its first ASCII digit on.
pub open spec fn from_first_digit(s: Seq<char>) -> Seq<char>
    decreases s.len(),
{
    if s.len() == 0 || is_ascii_digit(s[0]) {
        s
    } else {
        from_first_digit(s.drop_first())
    }
}

/// The leading digits and dots of `s`.
pub open spec fn score_prefix(s: Seq<char>) -> Seq<char>
    decreases s.len(),
{
    if s.len() > 0 && (is_ascii_digit(s[0]) || s[0] == '.') {
        seq![s[0]] + score_prefix(s.drop_first())
    } else {
        seq![]
    }
}

/// The score written after `marker` in a text: the digits and dots from the
/// first digit after it.
pub open spec fn score_after(text: Seq<char>, marker: Seq<char>) -> Option<Seq<char>> {
    match first_occurrence(text, marker) {
        Some(i) => Some(score_prefix(from_first_digit(text.subrange(i + marker.len(), text.len() as int)))),
        None => None,
    }
}

/// The score after `marker` in the last ratings row among the first `n`
/// that has the marker.
pub open spec fn score_upto(html: Seq<char>, marker: Seq<char>, n: int) -> Option<Seq<char>>
    decreases n,
{
    if n <= 0 {
        None
    } else if row_kind(html, n - 1) == InfoRow::Ratings && score_after(value_text(html, n - 1), marker) is Some {
        score_after(value_text(html, n - 1), marker)
    } else {
        score_upto(html, marker, n - 1)
    }
}

/// The text of the value cell of the last row carrying `kind`, trimmed.
pub open spec fn row_value(html: Seq<char>, kind: InfoRow) -> Option<Seq<char>> {
    match last_row(html, kind, info_rows(html)) {
        Some(r) => Some(trimmed(value_text(html, r))),
        None => None,
    }
}

fn label_kind_of(key: &Vec<char>) -> (r: InfoRow)
    ensures
        r == label_kind(key@),
{
    if contains_str(key, "год") || contains_str(key, "дата выхода") {
        InfoRow::Year
    } else if contains_str(key, "страна") {
        InfoRow::Country
    } else if contains_str(key, "жанр") {
        InfoRow::Genre
    } else if contains_str(key, "режиссер") {
        InfoRow::Director
    } else if contains_str(key, "в ролях") {
        InfoRow::Cast
    } else if contains_str(key, "входит в списки") {
        InfoRow::Lists
    } else if contains_str(key, "из серии") {
        InfoRow::Series
    } else if contains_str(key, "время") {
        InfoRow::Duration
    } else if contains_str(key, "рейтинг") {
        InfoRow::Ratings
    } else {
        InfoRow::Other
    }
}

/// What each row of the info table carries, and its value text.
pub fn row_kinds(page: &HtmlPage, html: &str) -> (r: (Vec<InfoRow>, Vec<String>))
    requires
        page.source() == html@,
        !page.is_fragment(),
    ensures
        r.0@.len() == info_rows(html@),
        r.1@.len() == info_rows(html@),
        forall|i: int| 0 <= i < r.0@.len() ==> #[trigger] r.0@[i] == row_kind(html@, i),
        forall|i: int|
            0 <= i < r.1@.len() && row_kind(html@, i) != InfoRow::Other ==> (#[trigger] r.1@[i])@
                == value_text(html@, i),
{
    let count = page.find(&crate::html::at_page(), ".b-post__info tr", &no_names()).len();
    let mut kinds: Vec<InfoRow> = Vec::new();
    let mut values: Vec<String> = Vec::new();
    let mut r: usize = 0;
    while r < count
        invariant
            r <= count,
            count == info_rows(html@),
            page.source() == html@,
            !page.is_fragment(),
            kinds@.len() == r,
            values@.len() == r,
            forall|i: int| 0 <= i < r ==> #[trigger] kinds@[i] == row_kind(html@, i),
            forall|i: int|
                0 <= i < r && row_kind(html@, i) != InfoRow::Other ==> (#[trigger] values@[i])@
                    == value_text(html@, i),
        decreases count - r,
    {
        let cells = page.find(&at(".b-post__info tr", r), "td", &no_names());
        if cells.len() >= 2 {
            let key = chars_of(to_lowercase(string_of(trim(&chars_of(cells[0].text.as_str())).as_slice()).as_str()).as_str());
            assert(element_view(cells@[0]).0 == cells@[0].text@);
            kinds.push(label_kind_of(&key));
            values.push(cells[1].text.clone());
            assert(element_view(cells@[1]).0 == cells@[1].text@);
        } else {
            kinds.push(InfoRow::Other);
            values.push(String::new());
        }
        r += 1;
    }
    (kinds, values)
}

pub proof fn lemma_last_row(html: Seq<char>, kind: InfoRow, n: int)
    ensures
        last_row(html, kind, n) matches Some(i) ==> 0 <= i < n && row_kind(html, i) == kind,
    decreases n,
{
    if n > 0 {
        lemma_last_row(html, kind, n - 1);
    }
}

/// The last row carrying `kind`.
pub fn last_row_of(kinds: &Vec<InfoRow>, kind: InfoRow, html: &str) -> (r: Option<usize>)
    requires
        kinds@.len() == info_rows(html@),
        forall|i: int| 0 <= i < kinds@.len() ==> #[trigger] kinds@[i] == row_kind(html@, i),
    ensures
        match r {
            Some(i) => last_row(html@, kind, info_rows(html@)) == Some(i as int) && i < kinds@.len()
                && row_kind(html@, i as int) == kind,
            None => last_row(html@, kind, info_rows(html@)) is None,
        },
{
    proof {
        lemma_last_row(html@, kind, info_rows(html@));
    }
    let mut n: usize = kinds.len();
    while n > 0
        invariant
            n <= kinds@.len(),
            kinds@.len() == info_rows(html@),
            forall|i: int| 0 <= i < kinds@.len() ==> #[trigger] kinds@[i] == row_kind(html@, i),
            last_row(html@, kind, info_rows(html@)) == last_row(html@, kind, n as int),
        decreases n,
    {
        if kinds[n - 1] == kind {
            return Some(n - 1);
        }
        n -= 1;
    }
    None
}

/// The named links of the cell `path` leads to.
pub fn linked_items(page: &HtmlPage, path: &Vec<(&'static str, usize)>) -> (r: Vec<LinkedItem>)
    requires
        !page.is_fragment(),
    ensures
        link_views(r@) == links_in(page.source(), crate::html::path_view(path@)),
{
    let m = page.find(path, "a[href]", &name("href"));
    let ghost mv = crate::html::element_views(m@);
    let mut out: Vec<LinkedItem> = Vec::new();
    let mut i: usize = 0;
    while i < m.len()
        invariant
            i <= m@.len(),
            mv == crate::html::element_views(m@),
            forall|j: int| 0 <= j < m@.len() ==> (#[trigger] m@[j]).attrs@.len() == 1,
            link_views(out@) == links_upto(mv, i as int),
        decreases m.len() - i,
    {
        let name = trimmed_string_of(&m[i].text);
        if name.as_str().is_empty() == false {
            let url = match &m[i].attrs[0] {
                Some(u) => u.clone(),
                None => String::new(),
            };
            let ghost prev = out@;
            let item = LinkedItem { name, url };
            out.push(item);
            assert(out@ =~= prev.push(item));
            assert(link_views(out@) =~= link_views(prev).push(link_view(item)));
        }
        i += 1;
    }
    out
}

fn trimmed_string_of(s: &String) -> (r: String)
    ensures
        r@ == trimmed(s@),
{
    string_of(trim(&chars_of(s.as_str())).as_slice())
}


/// The people the cell `cell` leads to lists.
pub fn people(page: &HtmlPage, cell: &Vec<(&'static str, usize)>) -> (r: Vec<Person>)
    requires
        !page.is_fragment(),
    ensures
        person_views(r@) == people_in(page.source(), crate::html::path_view(cell@)),
{
    let ghost html = page.source();
    let ghost cv = crate::html::path_view(cell@);
    let named = page.find(cell, ".person-name-item", &names3("data-photo", "data-job", "href"));
    let sel: &'static str = if named.len() > 0 {
        ".person-name-item"
    } else {
        "a[href]"
    };
    let nodes = if named.len() > 0 {
        named
    } else {
        page.find(cell, "a[href]", &names3("data-photo", "data-job", "href"))
    };
    assert(sel@ == person_selector(html, cv));
    let ghost nv = crate::html::element_views(nodes@);
    assert(nv == doc_found(html, false, cv, sel@, person_names()));
    let mut out: Vec<Person> = Vec::new();
    let mut j: usize = 0;
    while j < nodes.len()
        invariant
            j <= nodes@.len(),
            !page.is_fragment(),
            html == page.source(),
            cv == crate::html::path_view(cell@),
            nv == crate::html::element_views(nodes@),
            nv == doc_found(html, false, cv, sel@, person_names()),
            forall|i: int| 0 <= i < nodes@.len() ==> (#[trigger] nodes@[i]).attrs@.len() == 3,
            person_views(out@) == people_upto(html, cv, sel@, j as int),
        decreases nodes.len() - j,
    {
        let node = &nodes[j];
        assert(nv[j as int] == element_view(nodes@[j as int]));
        let name = trimmed_string_of(&node.text);
        if name.as_str().is_empty() == false {
            let inner = then(cell, sel, j);
            let links = page.find(&inner, "a[href]", &crate::html::name("href"));
            let url = if links.len() > 0 {
                assert(element_view(links@[0]).1[0] == opt_view(links@[0].attrs@[0]));
                match &links[0].attrs[0] {
                    Some(u) => u.clone(),
                    None => String::new(),
                }
            } else {
                match &node.attrs[2] {
                    Some(u) => u.clone(),
                    None => String::new(),
                }
            };
            let photo_url = match &node.attrs[0] {
                Some(p) => Some(p.clone()),
                None => None,
            };
            let role = match &node.attrs[1] {
                Some(p) => Some(p.clone()),
                None => None,
            };
            let person = Person { name, url, photo_url, role };
            let ghost prev = out@;
            out.push(person);
            assert(out@ =~= prev.push(person));
            assert(person_views(out@) =~= person_views(prev).push(person_view(person)));
        }
        j += 1;
    }
    out
}

/// The rating a line states, when it holds a score.
pub fn parse_rating(text: &String) -> (r: Option<Rating>)
    ensures
        match r {
            Some(x) => rating_of(text@) == Some(rating_view(x)),
            None => rating_of(text@) is None,
        },
{
    let t = normalize_spaces(&chars_of(text.as_str()));
    let line = string_of(t.as_slice());
    let value = match find_rating_number(line.as_str()) {
        Some(v) => v,
        None => {
            return None;
        },
    };
    let head = match find_char(&t, ':') {
        Some(i) => {
            proof {
                lemma_first_index(t@, ':', i as int);
            }
            slice_vec(&t, 0, i)
        },
        None => t.clone(),
    };
    assert(head@ == before_first(t@, ':'));
    let votes = match find_rating_votes(line.as_str()) {
        Some(g) => parse_u64(&replace_lit(&chars_of(g.as_str()), " ", "")),
        None => None,
    };
    Some(
        Rating {
            name: string_of(trim(&head).as_slice()),
            value: string_of(replace_lit(&chars_of(value.as_str()), ",", ".").as_slice()),
            votes,
            url: None,
        },
    )
}

/// The ratings of the spans of a cell.
pub fn ratings_in(page: &HtmlPage, cell: &Vec<(&'static str, usize)>) -> (r: Vec<Rating>)
    ensures
        ({
            let m = crate::html::found(*page, crate::html::path_view(cell@), "span"@, seq![]);
            rating_views(r@) == ratings_upto(m, m.len() as int)
        }),
{
    let m = page.find(cell, "span", &no_names());
    let ghost mv = crate::html::element_views(m@);
    let mut out: Vec<Rating> = Vec::new();
    let mut i: usize = 0;
    while i < m.len()
        invariant
            i <= m@.len(),
            mv == crate::html::element_views(m@),
            rating_views(out@) == ratings_upto(mv, i as int),
        decreases m.len() - i,
    {
        assert(mv[i as int].0 == m@[i as int].text@);
        match parse_rating(&m[i].text) {
            Some(x) => {
                let ghost prev = out@;
                out.push(x);
                assert(out@ =~= prev.push(x));
                assert(rating_views(out@) =~= rating_views(prev).push(rating_view(x)));
            },
            None => {},
        }
        i += 1;
    }
    out
}

/// The score written after `marker` in `text`.
pub fn score_in(text: &Vec<char>, marker: &str) -> (r: Option<Vec<char>>)
    ensures
        match r {
            Some(s) => score_after(text@, marker@) == Some(s@),
            None => score_after(text@, marker@) is None,
        },
{
    let m = chars_of(marker);
    let at = match find_seq(text, &m) {
        Some(i) => {
            proof {
                lemma_first_occurrence(text@, m@, i as int);
            }
            i
        },
        None => {
            proof {
                if first_occurrence(text@, m@) is Some {
                    assert(contains_seq(text@, m@));
                }
            }
            return None;
        },
    };
    assert(at + m@.len() <= text@.len());
    assert(at + m.len() <= text.len());
    let start = at + m.len();
    let ghost tail = text@.subrange(start as int, text@.len() as int);
    let mut k: usize = start;
    assert(text@.subrange(k as int, text@.len() as int) =~= tail);
    while k < text.len() && !('0' <= text[k] && text[k] <= '9')
        invariant
            start <= k <= text@.len(),
            tail == text@.subrange(start as int, text@.len() as int),
            from_first_digit(text@.subrange(k as int, text@.len() as int)) == from_first_digit(tail),
        decreases text.len() - k,
    {
        assert(text@.subrange(k as int, text@.len() as int).drop_first() =~= text@.subrange(
            k + 1,
            text@.len() as int,
        ));
        k += 1;
    }
    let ghost from = text@.subrange(k as int, text@.len() as int);
    assert(from_first_digit(from) == from);
    let mut out: Vec<char> = Vec::new();
    let mut e: usize = k;
    assert(text@.subrange(e as int, text@.len() as int) =~= from);
    while e < text.len() && (('0' <= text[e] && text[e] <= '9') || text[e] == '.')
        invariant
            k <= e <= text@.len(),
            from == text@.subrange(k as int, text@.len() as int),
            score_prefix(from) == out@ + score_prefix(text@.subrange(e as int, text@.len() as int)),
        decreases text.len() - e,
    {
        let ghost rest = text@.subrange(e as int, text@.len() as int);
        assert(rest.drop_first() =~= text@.subrange(e + 1, text@.len() as int));
        let ghost prev = out@;
        out.push(text[e]);
        assert(out@ + score_prefix(text@.subrange(e + 1, text@.len() as int)) =~= prev + score_prefix(
            rest,
        ));
        e += 1;
    }
    assert(out@ + score_prefix(text@.subrange(e as int, text@.len() as int)) =~= out@);
    Some(out)
}

proof fn lemma_year_in_settles(links: Seq<(Seq<char>, Seq<Option<Seq<char>>>)>, k: int, n: int)
    requires
        0 <= k <= n,
        year_in(links, k) is Some,
    ensures
        year_in(links, n) == year_in(links, k),
    decreases n - k,
{
    if n > k {
        lemma_year_in_settles(links, k, n - 1);
    }
}

/// The year the link texts of a cell name first.
fn year_of_links(page: &HtmlPage, cell: &Vec<(&'static str, usize)>) -> (r: Option<i32>)
    ensures
        ({
            let links = crate::html::found(*page, crate::html::path_view(cell@), "a"@, seq![]);
            r == year_in(links, links.len() as int)
        }),
{
    let m = page.find(cell, "a", &no_names());
    let ghost mv = crate::html::element_views(m@);
    assert(mv == crate::html::found(*page, crate::html::path_view(cell@), "a"@, seq![]));
    let mut i: usize = 0;
    while i < m.len()
        invariant
            i <= m@.len(),
            mv == crate::html::element_views(m@),
            mv == crate::html::found(*page, crate::html::path_view(cell@), "a"@, seq![]),
            year_in(mv, i as int) is None,
        decreases m.len() - i,
    {
        assert(mv[i as int].0 == m@[i as int].text@);
        let y = parse_i32(&trim(&chars_of(m[i].text.as_str())));
        if y.is_some() {
            proof {
                assert(year_in(mv, i + 1) == y);
                lemma_year_in_settles(mv, i + 1, mv.len() as int);
            }
            return y;
        }
        i += 1;
    }
    None
}

/// The year of the last year row that names one.
pub fn info_year(page: &HtmlPage, html: &str, kinds: &Vec<InfoRow>) -> (r: Option<i32>)
    requires
        page.source() == html@,
        !page.is_fragment(),
        kinds@.len() == info_rows(html@),
        forall|i: int| 0 <= i < kinds@.len() ==> #[trigger] kinds@[i] == row_kind(html@, i),
    ensures
        r == year_upto(html@, info_rows(html@)),
{
    let mut n: usize = kinds.len();
    while n > 0
        invariant
            n <= kinds@.len(),
            page.source() == html@,
            !page.is_fragment(),
            kinds@.len() == info_rows(html@),
            forall|i: int| 0 <= i < kinds@.len() ==> #[trigger] kinds@[i] == row_kind(html@, i),
            year_upto(html@, info_rows(html@)) == year_upto(html@, n as int),
        decreases n,
    {
        if kinds[n - 1] == InfoRow::Year {
            let cell = then(&at(".b-post__info tr", n - 1), "td", 1);
            assert(crate::html::path_view(cell@) == value_path(n - 1));
            let y = year_of_links(page, &cell);
            if y.is_some() {
                return y;
            }
        }
        n -= 1;
    }
    None
}

/// The score after `marker` in the last ratings row that has one.
pub fn info_score(html: &str, kinds: &Vec<InfoRow>, values: &Vec<String>, marker: &str) -> (r: Option<String>)
    requires
        kinds@.len() == info_rows(html@),
        values@.len() == info_rows(html@),
        forall|i: int| 0 <= i < kinds@.len() ==> #[trigger] kinds@[i] == row_kind(html@, i),
        forall|i: int|
            0 <= i < values@.len() && row_kind(html@, i) != InfoRow::Other ==> (#[trigger] values@[i])@
                == value_text(html@, i),
    ensures
        opt_view(r) == score_upto(html@, marker@, info_rows(html@)),
{
    let mut n: usize = kinds.len();
    while n > 0
        invariant
            n <= kinds@.len(),
            kinds@.len() == info_rows(html@),
            values@.len() == info_rows(html@),
            forall|i: int| 0 <= i < kinds@.len() ==> #[trigger] kinds@[i] == row_kind(html@, i),
            forall|i: int|
                0 <= i < values@.len() && row_kind(html@, i) != InfoRow::Other ==> (#[trigger] values@[i])@
                    == value_text(html@, i),
            score_upto(html@, marker@, info_rows(html@)) == score_upto(html@, marker@, n as int),
        decreases n,
    {
        if kinds[n - 1] == InfoRow::Ratings {
            assert(values@[n - 1]@ == value_text(html@, n - 1));
            match score_in(&chars_of(values[n - 1].as_str()), marker) {
                Some(s) => {
                    return Some(string_of(s.as_slice()));
                },
                None => {},
            }
        }
        n -= 1;
    }
    None
}

} // verus!
