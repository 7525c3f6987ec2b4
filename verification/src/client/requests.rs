//! What each call to the provider sends: the page it asks for, or the form
//! fields it posts. Sending them is the front end's.

use vstd::prelude::*;
use crate::client::models::{category_path, CatalogCategory, Translator};
use crate::client::stream::effective_translator_id;
use crate::json::pair_views;
use crate::text::{
    chars_of, decimal, decimal_chars, i64_chars, owned, push_all, push_str, signed_decimal,
    string_of, trim_char, trimmed_char,
};

verus! {

/// A form field.
pub open spec fn field(name: Seq<char>, value: Seq<char>) -> (Seq<char>, Seq<char>) {
    (name, value)
}

fn pair(name: &str, value: Vec<char>) -> (r: (String, String))
    ensures
        r.0@ == name@,
        r.1@ == value@,
{
    (owned(name), string_of(value.as_slice()))
}

fn number(n: i64) -> (r: Vec<char>)
    ensures
        r@ == signed_decimal(n as int),
{
    i64_chars(n)
}

fn flag_text(b: bool) -> (r: Vec<char>)
    ensures
        r@ == (if b {
            "1"@
        } else {
            "0"@
        }),
{
    if b {
        chars_of("1")
    } else {
        chars_of("0")
    }
}

pub open spec fn flag_value(b: bool) -> Seq<char> {
    if b {
        "1"@
    } else {
        "0"@
    }
}

/// The catalog page of a category: its path, the page segment past the
/// first page, and the filter, without slashes around it, when one is left.
pub open spec fn catalog_address(category: CatalogCategory, filter: Option<Seq<char>>, page: nat) -> Seq<char> {
    let p = category_path(category) + if page > 1 {
        "page/"@ + decimal(page) + "/"@
    } else {
        ""@
    };
    match filter {
        Some(f) => if trimmed_char(f, '/').len() > 0 {
            p + "?filter="@ + trimmed_char(f, '/')
        } else {
            p
        },
        None => p,
    }
}

/// The catalog page for a category, filter and page.
pub fn catalog_path(category: CatalogCategory, filter: Option<&str>, page: usize) -> (r: String)
    ensures
        r@ == catalog_address(category, match filter {
            Some(f) => Some(f@),
            None => None,
        }, page as nat),
{
    let mut out = chars_of(category.path());
    proof {
        reveal_strlit("page/");
        reveal_strlit("/");
        reveal_strlit("?filter=");
        reveal_strlit("");
    }
    if page > 1 {
        push_str(&mut out, "page/");
        push_all(&mut out, &decimal_chars(page as u64));
        push_str(&mut out, "/");
    }
    assert(out@ == category_path(category) + if page > 1 {
        "page/"@ + decimal(page as nat) + "/"@
    } else {
        ""@
    });
    match filter {
        Some(f) => {
            let clean = trim_char(&chars_of(f), '/');
            if clean.len() > 0 {
                push_str(&mut out, "?filter=");
                push_all(&mut out, &clean);
            }
        },
        None => {},
    }
    string_of(out.as_slice())
}

/// The comments of a title, a page at a time.
pub fn comments_path(post_id: i64, page: usize) -> (r: String)
    ensures
        r@ == "ajax/get_comments?news_id="@ + signed_decimal(post_id as int) + "&cstart="@ + decimal(page as nat)
            + "&type=0&comment_id=0&skin=hdrezka"@,
{
    let mut out = chars_of("ajax/get_comments?news_id=");
    push_all(&mut out, &number(post_id));
    push_str(&mut out, "&cstart=");
    push_all(&mut out, &decimal_chars(page as u64));
    push_str(&mut out, "&type=0&comment_id=0&skin=hdrezka");
    string_of(out.as_slice())
}

/// The form asking for a film's streams under a voice-over, the default
/// voice-over when it has no id.
pub open spec fn movie_stream_fields(post_id: i64, translator: Translator) -> Seq<(Seq<char>, Seq<char>)> {
    seq![
        field("id"@, signed_decimal(post_id as int)),
        field("translator_id"@, signed_decimal(if translator.id <= 0 { 238 } else { translator.id as int })),
        field("is_camrip"@, flag_value(translator.is_camrip)),
        field("is_ads"@, flag_value(translator.has_ads)),
        field("is_director"@, flag_value(translator.is_director_cut)),
        field("action"@, "get_movie"@),
    ]
}

pub fn movie_stream_form(post_id: i64, translator: &Translator) -> (r: Vec<(String, String)>)
    ensures
        pair_views(r@) == movie_stream_fields(post_id, *translator),
{
    let mut form: Vec<(String, String)> = Vec::new();
    form.push(pair("id", number(post_id)));
    form.push(pair("translator_id", number(effective_translator_id(translator.id))));
    form.push(pair("is_camrip", flag_text(translator.is_camrip)));
    form.push(pair("is_ads", flag_text(translator.has_ads)));
    form.push(pair("is_director", flag_text(translator.is_director_cut)));
    form.push(pair("action", chars_of("get_movie")));
    assert(pair_views(form@) =~= movie_stream_fields(post_id, *translator));
    form
}

/// The form asking for an episode's streams under a voice-over.
pub open spec fn episode_stream_fields(post_id: i64, translator_id: i64, season: i64, episode: i64) -> Seq<(Seq<char>, Seq<char>)> {
    seq![
        field("id"@, signed_decimal(post_id as int)),
        field("translator_id"@, signed_decimal(if translator_id <= 0 { 238 } else { translator_id as int })),
        field("season"@, signed_decimal(season as int)),
        field("episode"@, signed_decimal(episode as int)),
        field("action"@, "get_stream"@),
    ]
}

pub fn episode_stream_form(post_id: i64, translator_id: i64, season: i64, episode: i64) -> (r: Vec<(String, String)>)
    ensures
        pair_views(r@) == episode_stream_fields(post_id, translator_id, season, episode),
{
    let mut form: Vec<(String, String)> = Vec::new();
    form.push(pair("id", number(post_id)));
    form.push(pair("translator_id", number(effective_translator_id(translator_id))));
    form.push(pair("season", number(season)));
    form.push(pair("episode", number(episode)));
    form.push(pair("action", chars_of("get_stream")));
    assert(pair_views(form@) =~= episode_stream_fields(post_id, translator_id, season, episode));
    form
}

/// The form asking for the seasons and episodes of a voice-over.
pub fn episodes_form(post_id: i64, translator_id: i64) -> (r: Vec<(String, String)>)
    ensures
        pair_views(r@) == seq![
            field("id"@, signed_decimal(post_id as int)),
            field("translator_id"@, signed_decimal(translator_id as int)),
            field("action"@, "get_episodes"@),
        ],
{
    let mut form: Vec<(String, String)> = Vec::new();
    form.push(pair("id", number(post_id)));
    form.push(pair("translator_id", number(translator_id)));
    form.push(pair("action", chars_of("get_episodes")));
    assert(pair_views(form@) =~= seq![
        field("id"@, signed_decimal(post_id as int)),
        field("translator_id"@, signed_decimal(translator_id as int)),
        field("action"@, "get_episodes"@),
    ]);
    form
}

/// The form recording where a title was watched: no season or episode
/// is sent as `0`.
pub open spec fn save_watch_fields(post_id: i64, translator_id: i64, season: Option<i64>, episode: Option<i64>) -> Seq<(Seq<char>, Seq<char>)> {
    seq![
        field("post_id"@, signed_decimal(post_id as int)),
        field("translator_id"@, signed_decimal(translator_id as int)),
        field("season"@, signed_decimal(match season { Some(s) => s as int, None => 0 })),
        field("episode"@, signed_decimal(match episode { Some(e) => e as int, None => 0 })),
        field("current_time"@, "1"@),
    ]
}

pub fn save_watch_form(post_id: i64, translator_id: i64, season: Option<i64>, episode: Option<i64>) -> (r: Vec<(String, String)>)
    ensures
        pair_views(r@) == save_watch_fields(post_id, translator_id, season, episode),
{
    let s = match season {
        Some(s) => s,
        None => 0,
    };
    let e = match episode {
        Some(e) => e,
        None => 0,
    };
    let mut form: Vec<(String, String)> = Vec::new();
    form.push(pair("post_id", number(post_id)));
    form.push(pair("translator_id", number(translator_id)));
    form.push(pair("season", number(s)));
    form.push(pair("episode", number(e)));
    form.push(pair("current_time", chars_of("1")));
    assert(pair_views(form@) =~= save_watch_fields(post_id, translator_id, season, episode));
    form
}

/// The form adding a title to a favorites collection.
pub fn favorites_form(post_id: i64, category_id: i64) -> (r: Vec<(String, String)>)
    ensures
        pair_views(r@) == seq![
            field("post_id"@, signed_decimal(post_id as int)),
            field("cat_id"@, signed_decimal(category_id as int)),
            field("action"@, "add_post"@),
        ],
{
    let mut form: Vec<(String, String)> = Vec::new();
    form.push(pair("post_id", number(post_id)));
    form.push(pair("cat_id", number(category_id)));
    form.push(pair("action", chars_of("add_post")));
    assert(pair_views(form@) =~= seq![
        field("post_id"@, signed_decimal(post_id as int)),
        field("cat_id"@, signed_decimal(category_id as int)),
        field("action"@, "add_post"@),
    ]);
    form
}

/// The form voting for a title.
pub fn rating_form(post_id: i64, rating: u8) -> (r: Vec<(String, String)>)
    ensures
        pair_views(r@) == seq![
            field("news_id"@, signed_decimal(post_id as int)),
            field("go_rate"@, decimal(rating as nat)),
            field("skin"@, "hdrezka"@),
        ],
{
    let mut form: Vec<(String, String)> = Vec::new();
    form.push(pair("news_id", number(post_id)));
    form.push(pair("go_rate", decimal_chars(rating as u64)));
    form.push(pair("skin", chars_of("hdrezka")));
    assert(pair_views(form@) =~= seq![
        field("news_id"@, signed_decimal(post_id as int)),
        field("go_rate"@, decimal(rating as nat)),
        field("skin"@, "hdrezka"@),
    ]);
    form
}

/// The sign-in form.
pub fn login_form(login: &str, password: &str) -> (r: Vec<(String, String)>)
    ensures
        pair_views(r@) == seq![
            field("login_name"@, login@),
            field("login_password"@, password@),
            field("login_not_save"@, "0"@),
        ],
{
    let mut form: Vec<(String, String)> = Vec::new();
    form.push(pair("login_name", chars_of(login)));
    form.push(pair("login_password", chars_of(password)));
    form.push(pair("login_not_save", chars_of("0")));
    assert(pair_views(form@) =~= seq![
        field("login_name"@, login@),
        field("login_password"@, password@),
        field("login_not_save"@, "0"@),
    ]);
    form
}

} // verus!
