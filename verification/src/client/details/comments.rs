//! A title's comment pages.

use vstd::prelude::*;
use crate::client::details::DetailsScraper;
use crate::client::models::{Comment, CommentsPage};
use crate::json::{json_error, json_parse_error, json_text, json_text_at};
use crate::html::{
    at, at_page, doc_found, element_view, first_attr_of, first_trimmed, html_text_nodes, name,
    names2, no_names, path_view, then, HtmlPage,
};
use crate::text::{
    chars_of, contains_seq, owned, contains_str, joined_spaced, normalize_spaces, opt_view, parse_i64,
    parse_usize, parsed_i64, parsed_usize, push_all, replace_lit, replaced, spaced_words,
    string_of, trim, trimmed,
};

verus! {

/// A comment as plain values.
pub struct CommentView {
    pub id: Seq<char>,
    pub username: Seq<char>,
    pub avatar_url: Option<Seq<char>>,
    pub date: Seq<char>,
    pub text: Seq<char>,
    pub has_spoiler: bool,
    pub indent: usize,
    pub likes: i64,
    pub is_liked: bool,
}

pub open spec fn comment_view(c: Comment) -> CommentView {
    CommentView {
        id: c.id@,
        username: c.username@,
        avatar_url: opt_view(c.avatar_url),
        date: c.date@,
        text: c.text@,
        has_spoiler: c.has_spoiler,
        indent: c.indent,
        likes: c.likes,
        is_liked: c.is_liked,
    }
}

pub open spec fn comment_views(v: Seq<Comment>) -> Seq<CommentView> {
    v.map_values(|c: Comment| comment_view(c))
}

pub open spec fn or_empty(o: Option<Seq<char>>) -> Seq<char> {
    match o {
        Some(s) => s,
        None => seq![],
    }
}

pub open spec fn comment_path(k: int) -> Seq<(Seq<char>, int)> {
    seq![(".comments-tree-item"@, k)]
}

/// The comment text: the text pieces of its body joined by spaces, with
/// white space then collapsed.
pub open spec fn comment_text(html: Seq<char>, k: int) -> Seq<char> {
    if doc_found(html, true, comment_path(k), ".text div"@, seq![]).len() > 0 {
        match html_text_nodes(html, true, comment_path(k).push((".text div"@, 0))) {
            Some(nodes) => spaced_words(joined_spaced(nodes)),
            None => seq![],
        }
    } else {
        seq![]
    }
}

/// Comment `k` of a page of comments.
pub open spec fn comment_at(html: Seq<char>, k: int) -> CommentView {
    let e = doc_found(html, true, seq![], ".comments-tree-item"@, seq!["data-id"@, "data-indent"@])[k];
    let p = comment_path(k);
    let dates = doc_found(html, true, p, ".date"@, seq![]);
    let likes = doc_found(html, true, p, ".show-likes-comment"@, seq!["class"@]);
    CommentView {
        id: or_empty(e.1[0]),
        username: or_empty(first_trimmed(doc_found(html, true, p, ".name"@, seq![]))),
        avatar_url: first_attr_of(doc_found(html, true, p, ".ava img"@, seq!["src"@])),
        date: if dates.len() > 0 {
            trimmed(replaced(dates[0].0, "оставлен "@, ""@))
        } else {
            seq![]
        },
        text: comment_text(html, k),
        has_spoiler: doc_found(html, true, p, ".text_spoiler"@, seq![]).len() > 0,
        indent: match e.1[1] {
            Some(t) => match parsed_usize(t) {
                Some(n) => n,
                None => 0,
            },
            None => 0,
        },
        likes: match first_attr_of(doc_found(html, true, p, ".b-comment__like_it"@, seq!["data-likes_num"@])) {
            Some(t) => match parsed_i64(t) {
                Some(n) => n,
                None => 0,
            },
            None => 0,
        },
        is_liked: likes.len() > 0 && contains_seq(or_empty(likes[0].1[0]), "disabled"@),
    }
}

/// The comments of a page, in order.
pub open spec fn page_comments(html: Seq<char>) -> Seq<CommentView> {
    Seq::new(
        doc_found(html, true, seq![], ".comments-tree-item"@, seq!["data-id"@, "data-indent"@]).len(),
        |k: int| comment_at(html, k),
    )
}

/// The highest page number among the first `n` navigation links.
pub open spec fn max_page(m: Seq<(Seq<char>, Seq<Option<Seq<char>>>)>, n: int) -> Option<usize>
    decreases n,
{
    if n <= 0 {
        None
    } else {
        let rest = max_page(m, n - 1);
        match parsed_usize(trimmed(m[n - 1].0)) {
            Some(v) => match rest {
                Some(x) => Some(
                    if v >= x {
                        v
                    } else {
                        x
                    },
                ),
                None => Some(v),
            },
            None => rest,
        }
    }
}

/// How many comment pages there are: the highest page the navigation
/// links to, or one.
pub open spec fn page_count(navigation: Seq<char>) -> usize {
    let m = doc_found(navigation, true, seq![], ".b-navigation a"@, seq![]);
    match max_page(m, m.len() as int) {
        Some(v) => v,
        None => 1,
    }
}

fn or_empty_string(o: Option<String>) -> (r: String)
    ensures
        r@ == or_empty(opt_view(o)),
{
    match o {
        Some(s) => s,
        None => String::new(),
    }
}

fn comment_from(page: &HtmlPage, k: usize, e: &crate::html::HtmlElement) -> (r: Comment)
    requires
        page.is_fragment(),
        e.attrs@.len() == 2,
        element_view(*e) == doc_found(page.source(), true, seq![], ".comments-tree-item"@, seq!["data-id"@, "data-indent"@])[k as int],
    ensures
        comment_view(r) == comment_at(page.source(), k as int),
{
    let ghost html = page.source();
    assert(element_view(*e).1[0] == opt_view(e.attrs@[0]));
    assert(element_view(*e).1[1] == opt_view(e.attrs@[1]));
    let p = at(".comments-tree-item", k);
    let dates = page.find(&p, ".date", &no_names());
    let date = if dates.len() > 0 {
        assert(element_view(dates@[0]).0 == dates@[0].text@);
        string_of(trim(&replace_lit(&chars_of(dates[0].text.as_str()), "оставлен ", "")).as_slice())
    } else {
        String::new()
    };
    let text = if page.has(&p, ".text div") {
        let body = then(&p, ".text div", 0);
        assert(path_view(body@) =~= comment_path(k as int).push((".text div"@, 0)));
        match page.text_nodes(body.as_slice()) {
            Some(nodes) => {
                let mut joined: Vec<char> = Vec::new();
                let ghost nv = crate::text::string_views(nodes@);
                let mut i: usize = 0;
                while i < nodes.len()
                    invariant
                        i <= nodes@.len(),
                        nv == crate::text::string_views(nodes@),
                        joined@ == joined_spaced(nv.subrange(0, i as int)),
                    decreases nodes.len() - i,
                {
                    assert(nv.subrange(0, i + 1).drop_last() =~= nv.subrange(0, i as int));
                    assert(nv.subrange(0, i + 1).last() == nodes@[i as int]@);
                    let ghost before = joined@;
                    if i > 0 {
                        joined.push(' ');
                    }
                    push_all(&mut joined, &chars_of(nodes[i].as_str()));
                    proof {
                        if i == 0 {
                            assert(nv.subrange(0, 1) =~= seq![nv[0]]);
                            assert(joined@ =~= nv[0]);
                        } else {
                            assert(joined@ =~= before + seq![' '] + nv[i as int]);
                        }
                    }
                    i += 1;
                }
                assert(nv.subrange(0, nodes@.len() as int) =~= nv);
                string_of(normalize_spaces(&joined).as_slice())
            },
            None => String::new(),
        }
    } else {
        String::new()
    };
    let indent = match &e.attrs[1] {
        Some(t) => match parse_usize(&chars_of(t.as_str())) {
            Some(n) => n,
            None => 0,
        },
        None => 0,
    };
    let likes = match page.first_attr(&p, ".b-comment__like_it", "data-likes_num") {
        Some(t) => match parse_i64(&chars_of(t.as_str())) {
            Some(n) => n,
            None => 0,
        },
        None => 0,
    };
    let liked = page.find(&p, ".show-likes-comment", &name("class"));
    let is_liked = if liked.len() > 0 {
        assert(element_view(liked@[0]).1[0] == opt_view(liked@[0].attrs@[0]));
        let class = match &liked[0].attrs[0] {
            Some(c) => c.clone(),
            None => String::new(),
        };
        contains_str(&chars_of(class.as_str()), "disabled")
    } else {
        false
    };
    let id = match &e.attrs[0] {
        Some(v) => v.clone(),
        None => String::new(),
    };
    Comment {
        id,
        username: or_empty_string(page.first_text(&p, ".name")),
        avatar_url: page.first_attr(&p, ".ava img", "src"),
        date,
        text,
        has_spoiler: page.has(&p, ".text_spoiler"),
        indent,
        likes,
        is_liked,
    }
}

impl DetailsScraper {
    /// A page of comments: the comments of its markup, and the page count
    /// its navigation shows.
    pub fn parse_comments(html: &str, navigation: &str, page: usize) -> (r: CommentsPage)
        ensures
            comment_views(r.items@) == page_comments(html@),
            r.page == page,
            r.total_pages == page_count(navigation@),
    {
        let doc = HtmlPage::parse_fragment(html);
        let m = doc.find(&at_page(), ".comments-tree-item", &names2("data-id", "data-indent"));
        let ghost mv = crate::html::element_views(m@);
        let mut items: Vec<Comment> = Vec::new();
        let mut k: usize = 0;
        while k < m.len()
            invariant
                k <= m@.len(),
                doc.is_fragment(),
                doc.source() == html@,
                mv == crate::html::element_views(m@),
                mv == doc_found(html@, true, seq![], ".comments-tree-item"@, seq!["data-id"@, "data-indent"@]),
                forall|j: int| 0 <= j < m@.len() ==> (#[trigger] m@[j]).attrs@.len() == 2,
                items@.len() == k,
                forall|j: int| 0 <= j < k ==> comment_view(#[trigger] items@[j]) == comment_at(html@, j),
            decreases m.len() - k,
        {
            assert(mv[k as int] == element_view(m@[k as int]));
            let c = comment_from(&doc, k, &m[k]);
            items.push(c);
            k += 1;
        }
        assert(comment_views(items@) =~= page_comments(html@));
        let nav = HtmlPage::parse_fragment(navigation);
        let links = nav.find(&at_page(), ".b-navigation a", &no_names());
        let ghost lv = crate::html::element_views(links@);
        let mut best: Option<usize> = None;
        let mut i: usize = 0;
        while i < links.len()
            invariant
                i <= links@.len(),
                lv == crate::html::element_views(links@),
                best == max_page(lv, i as int),
            decreases links.len() - i,
        {
            assert(lv[i as int].0 == links@[i as int].text@);
            match parse_usize(&trim(&chars_of(links[i].text.as_str()))) {
                Some(v) => {
                    best = match best {
                        Some(x) => Some(
                            if v >= x {
                                v
                            } else {
                                x
                            },
                        ),
                        None => Some(v),
                    };
                },
                None => {},
            }
            i += 1;
        }
        let total_pages = match best {
            Some(v) => v,
            None => 1,
        };
        CommentsPage { items, page, total_pages }
    }
}

/// The comments markup and the page navigation markup of a comments
/// reply: the members `comments` and `navigation`, each empty when it is
/// missing or not a string; a reply that is not JSON is refused.
pub fn comments_reply(response: &str) -> (r: Result<(String, String), String>)
    ensures
        json_parse_error(response@) is Some ==> (r matches Err(e) && e@ == "Comments response was malformed"@),
        json_parse_error(response@) is None ==> (r matches Ok((c, n)) && c@ == or_empty(json_text_at(response@, "comments"@))
            && n@ == or_empty(json_text_at(response@, "navigation"@))),
{
    if json_error(response).is_some() {
        return Err(owned("Comments response was malformed"));
    }
    let comments = or_empty_string(json_text(response, "comments"));
    let navigation = or_empty_string(json_text(response, "navigation"));
    Ok((comments, navigation))
}

} // verus!
