//! A person's page: name, photo, facts, and the titles they worked on.

use vstd::prelude::*;
use crate::client::catalog::{catalog_items, item_views, listed_items, CatalogScraper, ItemView};
use crate::client::details::DetailsScraper;
use crate::client::models::{ActorDetails, ActorRole};
use crate::html::{
    at, at_page, doc_found, element_view, first_attr_of, first_trimmed, no_names,
    path_view, then, trimmed_texts, HtmlPage,
};
use crate::text::{
    chars_of, contains_seq, contains_str, lowercased, opt_view, string_of, string_views,
    to_lowercase, trim, trimmed,
};

verus! {

/// The fact a row of a person's info table carries.
#[derive(Debug, Clone, Copy, PartialEq, Eq, Structural)]
pub enum PersonRow {
    Other,
    BirthDate,
    BirthPlace,
    Height,
    Careers,
}

/// The fact a lower-cased label names; the first that matches wins.
pub open spec fn person_label(key: Seq<char>) -> PersonRow {
    if contains_seq(key, "дата рождения"@) {
        PersonRow::BirthDate
    } else if contains_seq(key, "место рождения"@) {
        PersonRow::BirthPlace
    } else if contains_seq(key, "рост"@) {
        PersonRow::Height
    } else if contains_seq(key, "карьера"@) {
        PersonRow::Careers
    } else {
        PersonRow::Other
    }
}

pub open spec fn person_row_path(r: int) -> Seq<(Seq<char>, int)> {
    seq![(".b-post__info tr"@, r)]
}

/// What row `r` of a person's info table carries.
pub open spec fn person_row_kind(html: Seq<char>, r: int) -> PersonRow {
    let cells = doc_found(html, false, person_row_path(r), "td"@, seq![]);
    if cells.len() >= 2 {
        person_label(lowercased(cells[0].0))
    } else {
        PersonRow::Other
    }
}

pub open spec fn last_person_row(html: Seq<char>, kind: PersonRow, n: int) -> Option<int>
    decreases n,
{
    if n <= 0 {
        None
    } else if person_row_kind(html, n - 1) == kind {
        Some(n - 1)
    } else {
        last_person_row(html, kind, n - 1)
    }
}

pub open spec fn person_rows(html: Seq<char>) -> int {
    doc_found(html, false, seq![], ".b-post__info tr"@, seq![]).len() as int
}

/// The trimmed value text of the last row carrying `kind`.
pub open spec fn person_fact(html: Seq<char>, kind: PersonRow) -> Option<Seq<char>> {
    match last_person_row(html, kind, person_rows(html)) {
        Some(r) => Some(trimmed(doc_found(html, false, person_row_path(r), "td"@, seq![])[1].0)),
        None => None,
    }
}

/// The careers the last careers row links to.
pub open spec fn person_careers(html: Seq<char>) -> Seq<Seq<char>> {
    match last_person_row(html, PersonRow::Careers, person_rows(html)) {
        Some(r) => trimmed_texts(doc_found(html, false, person_row_path(r).push(("td"@, 1)), "a"@, seq![])),
        None => seq![],
    }
}

/// A non-empty trimmed text.
pub open spec fn shown(o: Option<Seq<char>>) -> Option<Seq<char>> {
    match o {
        Some(t) => if t.len() > 0 {
            Some(t)
        } else {
            None
        },
        None => None,
    }
}

pub open spec fn or_empty(o: Option<Seq<char>>) -> Seq<char> {
    match o {
        Some(s) => s,
        None => seq![],
    }
}

/// A career block as plain values.
pub struct RoleView {
    pub name: Seq<char>,
    pub info: Seq<char>,
    pub films: Seq<ItemView>,
}

pub open spec fn role_view(r: ActorRole) -> RoleView {
    RoleView { name: r.name@, info: r.info@, films: item_views(r.films@) }
}

/// Career block `k`: its heading, its statistics line, and the titles
/// listed inside it.
pub open spec fn role_at(html: Seq<char>, k: int) -> RoleView {
    let p = seq![(".b-person__career"@, k)];
    RoleView {
        name: or_empty(first_trimmed(doc_found(html, false, p, "h2"@, seq![]))),
        info: or_empty(first_trimmed(doc_found(html, false, p, ".b-person__career_stats"@, seq![]))),
        films: listed_items(html, p),
    }
}

pub open spec fn page_roles(html: Seq<char>) -> Seq<RoleView> {
    Seq::new(doc_found(html, false, seq![], ".b-person__career"@, seq![]).len(), |k: int| role_at(html, k))
}

/// What a person's page says.
pub open spec fn actor_matches(a: ActorDetails, html: Seq<char>) -> bool {
    &&& a.name@ == or_empty(shown(first_trimmed(doc_found(html, false, seq![], ".b-post__title .t1"@, seq![]))))
    &&& opt_view(a.original_name) == shown(first_trimmed(doc_found(html, false, seq![], ".b-post__title .t2"@, seq![])))
    &&& opt_view(a.photo_url) == first_attr_of(doc_found(html, false, seq![], ".b-sidecover img"@, seq!["src"@]))
    &&& string_views(a.careers@) == person_careers(html)
    &&& opt_view(a.birth_date) == person_fact(html, PersonRow::BirthDate)
    &&& opt_view(a.birth_place) == person_fact(html, PersonRow::BirthPlace)
    &&& opt_view(a.height) == person_fact(html, PersonRow::Height)
    &&& item_views(a.films@) == catalog_items(html)
    &&& a.roles@.map_values(|r: ActorRole| role_view(r)) == page_roles(html)
    &&& forall|i: int| 0 <= i < a.films@.len() ==> (#[trigger] a.films@[i]).orig_title is None
    &&& forall|j: int, i: int|
        0 <= j < a.roles@.len() && 0 <= i < a.roles@[j].films@.len() ==> (#[trigger] a.roles@[j].films@[i]).orig_title is None
}

fn shown_text(o: Option<String>) -> (r: Option<String>)
    ensures
        opt_view(r) == shown(opt_view(o)),
{
    match o {
        Some(t) => if t.as_str().is_empty() {
            None
        } else {
            Some(t)
        },
        None => None,
    }
}

fn label_of(key: &Vec<char>) -> (r: PersonRow)
    ensures
        r == person_label(key@),
{
    if contains_str(key, "дата рождения") {
        PersonRow::BirthDate
    } else if contains_str(key, "место рождения") {
        PersonRow::BirthPlace
    } else if contains_str(key, "рост") {
        PersonRow::Height
    } else if contains_str(key, "карьера") {
        PersonRow::Careers
    } else {
        PersonRow::Other
    }
}

impl DetailsScraper {
    /// Reads a person's page.
    pub fn parse_actor_html(html: &str) -> (r: ActorDetails)
        ensures
            actor_matches(r, html@),
    {
        let page = HtmlPage::parse_document(html);
        let name = match shown_text(page.first_text(&at_page(), ".b-post__title .t1")) {
            Some(n) => n,
            None => String::new(),
        };
        let count = page.find(&at_page(), ".b-person__career", &no_names()).len();
        let mut roles: Vec<ActorRole> = Vec::new();
        let mut k: usize = 0;
        while k < count
            invariant
                k <= count,
                page.source() == html@,
                !page.is_fragment(),
                count == doc_found(html@, false, seq![], ".b-person__career"@, seq![]).len(),
                roles@.len() == k,
                forall|j: int| 0 <= j < k ==> role_view(#[trigger] roles@[j]) == role_at(html@, j),
                forall|j: int, i: int|
                    0 <= j < roles@.len() && 0 <= i < roles@[j].films@.len() ==> (#[trigger] roles@[j].films@[i]).orig_title is None,
            decreases count - k,
        {
            let p = at(".b-person__career", k);
            let role_name = match page.first_text(&p, "h2") {
                Some(t) => t,
                None => String::new(),
            };
            let info = match page.first_text(&p, ".b-person__career_stats") {
                Some(t) => t,
                None => String::new(),
            };
            let films = CatalogScraper::parse_listing(&page, &p);
            roles.push(ActorRole { name: role_name, info, films });
            k += 1;
        }
        assert(roles@.map_values(|r: ActorRole| role_view(r)) =~= page_roles(html@));
        let rows = page.find(&at_page(), ".b-post__info tr", &no_names()).len();
        let mut birth_date: Option<String> = None;
        let mut birth_place: Option<String> = None;
        let mut height: Option<String> = None;
        let mut careers: Vec<String> = Vec::new();
        let mut r: usize = 0;
        assert(string_views(careers@) =~= seq![]);
        while r < rows
            invariant
                r <= rows,
                page.source() == html@,
                !page.is_fragment(),
                rows == person_rows(html@),
                opt_view(birth_date) == match last_person_row(html@, PersonRow::BirthDate, r as int) {
                    Some(i) => Some(trimmed(doc_found(html@, false, person_row_path(i), "td"@, seq![])[1].0)),
                    None => None,
                },
                opt_view(birth_place) == match last_person_row(html@, PersonRow::BirthPlace, r as int) {
                    Some(i) => Some(trimmed(doc_found(html@, false, person_row_path(i), "td"@, seq![])[1].0)),
                    None => None,
                },
                opt_view(height) == match last_person_row(html@, PersonRow::Height, r as int) {
                    Some(i) => Some(trimmed(doc_found(html@, false, person_row_path(i), "td"@, seq![])[1].0)),
                    None => None,
                },
                string_views(careers@) == match last_person_row(html@, PersonRow::Careers, r as int) {
                    Some(i) => trimmed_texts(doc_found(html@, false, person_row_path(i).push(("td"@, 1)), "a"@, seq![])),
                    None => seq![],
                },
            decreases rows - r,
        {
            let row = at(".b-post__info tr", r);
            let parts = page.find(&row, "td", &no_names());
            if parts.len() >= 2 {
                assert(element_view(parts@[0]).0 == parts@[0].text@);
                assert(element_view(parts@[1]).0 == parts@[1].text@);
                let key = chars_of(to_lowercase(parts[0].text.as_str()).as_str());
                let value = string_of(trim(&chars_of(parts[1].text.as_str())).as_slice());
                match label_of(&key) {
                    PersonRow::BirthDate => {
                        birth_date = Some(value);
                    },
                    PersonRow::BirthPlace => {
                        birth_place = Some(value);
                    },
                    PersonRow::Height => {
                        height = Some(value);
                    },
                    PersonRow::Careers => {
                        let cell = then(&row, "td", 1);
                        assert(path_view(cell@) =~= person_row_path(r as int).push(("td"@, 1)));
                        careers = page.texts(&cell, "a");
                    },
                    PersonRow::Other => {},
                }
            }
            r += 1;
        }
        ActorDetails {
            name,
            original_name: shown_text(page.first_text(&at_page(), ".b-post__title .t2")),
            photo_url: page.first_attr(&at_page(), ".b-sidecover img", "src"),
            careers,
            birth_date,
            birth_place,
            height,
            films: CatalogScraper::parse_catalog_html(html),
            roles,
        }
    }
}

} // verus!
