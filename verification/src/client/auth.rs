//! The account pages: who is signed in, their profile, notifications,
//! favourites lists and viewing history, and the provider's replies to
//! account operations.

use vstd::prelude::*;
use crate::client::models::{
    FavoritesCollection, NotificationGroup, NotificationItem, ServerHistoryEntry, UserProfile,
};
use crate::html::{
    at, at_page, doc_found, element_view, element_views, first_attr_of, first_trimmed,
    html_root_text, name, names2, no_names, path_view, then, HtmlPage,
};
use crate::json::{json_bool, json_bool_at, json_error, json_parse_error, json_text, json_text_at};
use crate::text::{
    ascii_digits, chars_of, contains_seq, contains_str, i64_chars, is_str, keep_ascii_digits,
    nonempty_runs, normalize_spaces, opt_view, owned, parse_i64, parse_u32, parse_usize,
    parsed_i64, parsed_u32, parsed_usize, push_all, replace_lit, replaced, signed_decimal,
    slice_vec, spaced_words, split_by, split_whitespace, string_of, take_chars, trim, trimmed,
    views, ws_pred,
};

verus! {

pub open spec fn or_empty(o: Option<Seq<char>>) -> Seq<char> {
    match o {
        Some(s) => s,
        None => seq![],
    }
}

/// A non-empty text.
pub open spec fn shown(o: Option<Seq<char>>) -> Option<Seq<char>> {
    match o {
        Some(t) => if t.len() > 0 {
            Some(t)
        } else {
            None
        },
        None => None,
    }
}

/// The markers of a premium account on a page: a badge, or a word the
/// page shows only to premium accounts.
pub open spec fn page_is_vip(html: Seq<char>) -> bool {
    doc_found(
        html,
        false,
        seq![],
        ".b-users__panel .vip, .vip-badge, .b-topbar__profile .vip, .b-users__panel_vip"@,
        seq![],
    ).len() > 0 || contains_seq(html, "pjs-prem-quality"@) || contains_seq(html, "user-vip"@)
        || contains_seq(html, "Премиум"@)
}

/// A profile as plain values.
pub struct ProfileView {
    pub user_id: Seq<char>,
    pub username: Seq<char>,
    pub is_logged_in: bool,
    pub is_vip: bool,
    pub email: Option<Seq<char>>,
    pub avatar_url: Option<Seq<char>>,
    pub premium_days: Option<u32>,
    pub is_session_persistent: bool,
}

pub open spec fn profile_view(p: UserProfile) -> ProfileView {
    ProfileView {
        user_id: p.user_id@,
        username: p.username@,
        is_logged_in: p.is_logged_in,
        is_vip: p.is_vip,
        email: opt_view(p.email),
        avatar_url: opt_view(p.avatar_url),
        premium_days: p.premium_days,
        is_session_persistent: p.is_session_persistent,
    }
}

/// What a profile page comes to: the account it shows, or why it does not
/// show one.
pub open spec fn verified_profile(html: Seq<char>, user_id: Seq<char>) -> Result<ProfileView, Seq<char>> {
    if doc_found(html, false, seq![], "#email, .b-userprofile__avatar_holder"@, seq![]).len() == 0 {
        Err("Authenticated profile verification failed"@)
    } else {
        match shown(first_trimmed(doc_found(html, false, seq![], "head title"@, seq![]))) {
            None => Err("Authenticated profile has no account name"@),
            Some(username) => Ok(
                ProfileView {
                    user_id,
                    username,
                    is_logged_in: true,
                    is_vip: page_is_vip(html),
                    email: shown(first_attr_of(doc_found(html, false, seq![], "#email"@, seq!["value"@]))),
                    avatar_url: first_attr_of(
                        doc_found(html, false, seq![], ".b-userprofile__avatar_holder img"@, seq!["src"@]),
                    ),
                    premium_days: None,
                    is_session_persistent: true,
                },
            ),
        }
    }
}

/// A notification as plain values.
pub struct NoticeView {
    pub title: Seq<char>,
    pub url: Seq<char>,
    pub info: Seq<char>,
}

pub open spec fn notice_view(n: NotificationItem) -> NoticeView {
    NoticeView { title: n.title@, url: n.url@, info: n.info@ }
}

pub open spec fn notice_views(v: Seq<NotificationItem>) -> Seq<NoticeView> {
    v.map_values(|n: NotificationItem| notice_view(n))
}

pub open spec fn entry_path(b: int, t: int) -> Seq<(Seq<char>, int)> {
    seq![(".b-seriesupdate__block"@, b), (".tracked"@, t)]
}

/// The non-empty pieces joined with ` - `.
pub open spec fn dash_joined(parts: Seq<Seq<char>>) -> Seq<char>
    decreases parts.len(),
{
    if parts.len() == 0 {
        seq![]
    } else if parts.len() == 1 {
        parts[0]
    } else {
        dash_joined(parts.drop_last()) + " - "@ + parts.last()
    }
}

/// The non-empty ones among the texts.
pub open spec fn nonempty_texts(parts: Seq<Option<Seq<char>>>) -> Seq<Seq<char>>
    decreases parts.len(),
{
    if parts.len() == 0 {
        seq![]
    } else {
        match parts.last() {
            Some(t) => if t.len() > 0 {
                nonempty_texts(parts.drop_last()).push(t)
            } else {
                nonempty_texts(parts.drop_last())
            },
            None => nonempty_texts(parts.drop_last()),
        }
    }
}

/// Tracked entry `t` of update block `b`, when it links to a title.
pub open spec fn notice_at(html: Seq<char>, b: int, t: int) -> Option<NoticeView> {
    let p = entry_path(b, t);
    let links = doc_found(html, false, p, ".b-seriesupdate__block_list_link"@, seq!["href"@]);
    if links.len() > 0 && links[0].1[0] is Some {
        Some(
            NoticeView {
                title: trimmed(links[0].0),
                url: links[0].1[0]->0,
                info: dash_joined(
                    nonempty_texts(
                        seq![
                            first_trimmed(doc_found(html, false, p, ".season"@, seq![])),
                            first_trimmed(doc_found(html, false, p, ".cell-2"@, seq![])),
                        ],
                    ),
                ),
            },
        )
    } else {
        None
    }
}

pub open spec fn notices_upto(html: Seq<char>, b: int, n: int) -> Seq<NoticeView>
    decreases n,
{
    if n <= 0 {
        seq![]
    } else {
        match notice_at(html, b, n - 1) {
            Some(x) => notices_upto(html, b, n - 1).push(x),
            None => notices_upto(html, b, n - 1),
        }
    }
}

/// The date and the entries of update block `b`.
pub open spec fn notice_group(html: Seq<char>, b: int) -> (Seq<char>, Seq<NoticeView>) {
    let p = seq![(".b-seriesupdate__block"@, b)];
    let dates = doc_found(html, false, p, ".b-seriesupdate__block_date"@, seq![]);
    (
        if dates.len() > 0 {
            trimmed(replaced(dates[0].0, "развернуть"@, ""@))
        } else {
            seq![]
        },
        notices_upto(html, b, doc_found(html, false, p, ".tracked"@, seq![]).len() as int),
    )
}

/// The update blocks among the first `n` that have entries.
pub open spec fn groups_upto(html: Seq<char>, n: int) -> Seq<(Seq<char>, Seq<NoticeView>)>
    decreases n,
{
    if n <= 0 {
        seq![]
    } else if notice_group(html, n - 1).1.len() > 0 {
        groups_upto(html, n - 1).push(notice_group(html, n - 1))
    } else {
        groups_upto(html, n - 1)
    }
}

pub open spec fn page_notices(html: Seq<char>) -> Seq<(Seq<char>, Seq<NoticeView>)> {
    groups_upto(html, doc_found(html, false, seq![], ".b-seriesupdate__block"@, seq![]).len() as int)
}

/// The premium days the page's header counts down.
pub open spec fn page_premium_days(html: Seq<char>) -> Option<u32> {
    let m = doc_found(html, false, seq![], ".b-tophead-premuser"@, seq![]);
    if m.len() > 0 {
        parsed_u32(ascii_digits(m[0].0))
    } else {
        None
    }
}

pub open spec fn group_view(g: NotificationGroup) -> (Seq<char>, Seq<NoticeView>) {
    (g.date@, notice_views(g.items@))
}

/// A favourites list as plain values.
pub struct CollectionView {
    pub id: Option<i64>,
    pub name: Seq<char>,
    pub url: Seq<char>,
    pub count: usize,
}

pub open spec fn collection_view(c: FavoritesCollection) -> CollectionView {
    CollectionView { id: c.id, name: c.name@, url: c.url@, count: c.count }
}

pub open spec fn collection_views(v: Seq<FavoritesCollection>) -> Seq<CollectionView> {
    v.map_values(|c: FavoritesCollection| collection_view(c))
}

/// Favourites list `k` of the page, when its id reads as a number; its
/// count is the digits its counter shows.
pub open spec fn collection_at(html: Seq<char>, k: int) -> Option<CollectionView> {
    let e = doc_found(html, false, seq![], ".b-favorites_content__cats_list_item[data-cat_id]"@, seq!["data-cat_id"@])[k];
    let p = seq![(".b-favorites_content__cats_list_item[data-cat_id]"@, k)];
    match e.1[0] {
        Some(t) => match parsed_i64(t) {
            Some(id) => Some(
                CollectionView {
                    id: Some(id),
                    name: match first_trimmed(doc_found(html, false, p, ".name"@, seq![])) {
                        Some(n) => n,
                        None => "Коллекция"@,
                    },
                    url: "favorites/"@ + signed_decimal(id as int) + "/"@,
                    count: match parsed_usize(
                        ascii_digits(or_empty(first_trimmed(doc_found(html, false, p, ".num-holder, .num"@, seq![])))),
                    ) {
                        Some(n) => n,
                        None => 0,
                    },
                },
            ),
            None => None,
        },
        None => None,
    }
}

pub open spec fn collections_upto(html: Seq<char>, n: int) -> Seq<CollectionView>
    decreases n,
{
    if n <= 0 {
        seq![]
    } else {
        match collection_at(html, n - 1) {
            Some(c) => collections_upto(html, n - 1).push(c),
            None => collections_upto(html, n - 1),
        }
    }
}

pub open spec fn page_collections(html: Seq<char>) -> Seq<CollectionView> {
    collections_upto(
        html,
        doc_found(html, false, seq![], ".b-favorites_content__cats_list_item[data-cat_id]"@, seq!["data-cat_id"@]).len() as int,
    )
}

/// A history entry as plain values.
pub struct HistoryView {
    pub id: Seq<char>,
    pub title: Seq<char>,
    pub url: Seq<char>,
    pub poster_url: Option<Seq<char>>,
    pub info: Option<Seq<char>>,
    pub additional_info: Option<Seq<char>>,
    pub date: Option<Seq<char>>,
    pub is_watched: bool,
}

pub open spec fn history_view(h: ServerHistoryEntry) -> HistoryView {
    HistoryView {
        id: h.id@,
        title: h.title@,
        url: h.url@,
        poster_url: opt_view(h.poster_url),
        info: opt_view(h.info),
        additional_info: opt_view(h.additional_info),
        date: opt_view(h.date),
        is_watched: h.is_watched,
    }
}

pub open spec fn history_views(v: Seq<ServerHistoryEntry>) -> Seq<HistoryView> {
    v.map_values(|h: ServerHistoryEntry| history_view(h))
}

/// History row `k`, when it links to a title and can be deleted.
pub open spec fn history_at(html: Seq<char>, k: int) -> Option<HistoryView> {
    let e = doc_found(html, false, seq![], ".b-videosaves__list_item"@, seq!["class"@])[k];
    let p = seq![(".b-videosaves__list_item"@, k)];
    let links = doc_found(html, false, p, ".title a"@, seq!["href"@, "data-cover_url"@]);
    let deletes = doc_found(html, false, p, ".delete[data-id]"@, seq!["data-id"@]);
    if links.len() > 0 && deletes.len() > 0 && deletes[0].1[0] is Some && links[0].1[0] is Some {
        Some(
            HistoryView {
                id: deletes[0].1[0]->0,
                title: trimmed(links[0].0),
                url: links[0].1[0]->0,
                poster_url: links[0].1[1],
                info: shown(first_trimmed(doc_found(html, false, p, ".info"@, seq![]))),
                additional_info: shown(first_trimmed(doc_found(html, false, p, ".new-episode"@, seq![]))),
                date: shown(first_trimmed(doc_found(html, false, p, ".date"@, seq![]))),
                is_watched: match e.1[0] {
                    Some(class) => nonempty_runs(split_by(class, ws_pred())).contains("watched-row"@),
                    None => false,
                },
            },
        )
    } else {
        None
    }
}

/// The history rows among rows `1..n`; the first row is the list's header.
pub open spec fn history_upto(html: Seq<char>, n: int) -> Seq<HistoryView>
    decreases n,
{
    if n <= 1 {
        seq![]
    } else {
        match history_at(html, n - 1) {
            Some(h) => history_upto(html, n - 1).push(h),
            None => history_upto(html, n - 1),
        }
    }
}

pub open spec fn page_history(html: Seq<char>) -> Seq<HistoryView> {
    history_upto(html, doc_found(html, false, seq![], ".b-videosaves__list_item"@, seq!["class"@]).len() as int)
}

/// The text a provider message shows: its markup's text with white space
/// collapsed, at most 160 characters of it.
pub open spec fn sanitized(message: Seq<char>) -> Seq<char> {
    take_chars(spaced_words(html_root_text(message, true)), 160)
}

/// What a reply to an account operation comes to: `Ok` when it reports
/// success, and otherwise the provider's message, or `fallback`.
pub open spec fn json_success(response: Seq<char>, fallback: Seq<char>) -> Result<(), Seq<char>> {
    if json_parse_error(response) is Some {
        Err("Account operation returned malformed JSON"@)
    } else if json_bool_at(response, "success"@) == Some(true) {
        Ok(())
    } else {
        match json_text_at(response, "message"@) {
            Some(m) => if sanitized(m).len() > 0 {
                Err(sanitized(m))
            } else {
                Err(fallback)
            },
            None => Err(fallback),
        }
    }
}

/// What a login reply comes to: accepted, or refused with the provider's
/// message.
pub open spec fn login_reply(response: Seq<char>) -> Result<(), Seq<char>> {
    match json_parse_error(response) {
        Some(e) => Err("Failed to parse login response JSON: "@ + e),
        None => if json_bool_at(response, "success"@) == Some(true) {
            Ok(())
        } else {
            Err(
                sanitized(
                    match json_text_at(response, "message"@) {
                        Some(m) => m,
                        None => "Неверный логин или пароль"@,
                    },
                ),
            )
        },
    }
}

/// A page that asks for a login: the session it was fetched with was not
/// accepted.
pub open spec fn is_login_page(html: Seq<char>) -> bool {
    contains_seq(html, "login_password"@) || contains_seq(html, "login_name"@)
}

/// The listing of one favourites list's page.
pub open spec fn favorites_path_of(cat_id: Option<i64>, page: usize) -> Seq<char> {
    match cat_id {
        Some(id) => if page > 1 {
            "favorites/"@ + signed_decimal(id as int) + "/page/"@ + crate::text::decimal(page as nat) + "/"@
        } else {
            "favorites/"@ + signed_decimal(id as int) + "/"@
        },
        None => if page > 1 {
            "favorites/page/"@ + crate::text::decimal(page as nat) + "/"@
        } else {
            "favorites/"@
        },
    }
}

fn concat2(a: &Vec<char>, b: &Vec<char>) -> (r: Vec<char>)
    ensures
        r@ == a@ + b@,
{
    let mut out = a.clone();
    push_all(&mut out, b);
    out
}

fn shown_string(o: Option<String>) -> (r: Option<String>)
    ensures
        opt_view(r) == shown(opt_view(o)),
{
    match o {
        Some(t) => if t.as_str().is_empty() {
            None
        } else {
            Some(t)
        },
        None => None,
    }
}

/// The account operations and the pages of the signed-in account.
pub struct AuthManager;

impl AuthManager {
    /// The name the page shows for the signed-in account.
    pub fn extract_logged_in_username(html: &str) -> (r: Option<String>)
        ensures
            opt_view(r) == first_trimmed(
                doc_found(html@, false, seq![], ".b-users__panel .user_name, .b-topbar__profile .name, .user-name"@, seq![]),
            ),
    {
        let page = HtmlPage::parse_document(html);
        page.first_text(&at_page(), ".b-users__panel .user_name, .b-topbar__profile .name, .user-name")
    }

    /// Whether the page shows a premium account.
    pub fn extract_vip_status(html: &str) -> (r: bool)
        ensures
            r == page_is_vip(html@),
    {
        let page = HtmlPage::parse_document(html);
        if page.has(&at_page(), ".b-users__panel .vip, .vip-badge, .b-topbar__profile .vip, .b-users__panel_vip") {
            return true;
        }
        let h = chars_of(html);
        contains_str(&h, "pjs-prem-quality") || contains_str(&h, "user-vip") || contains_str(&h, "Премиум")
    }

    /// Reads the profile page of account `user_id`.
    pub fn parse_verified_profile(html: &str, user_id: &str) -> (r: Result<UserProfile, String>)
        ensures
            match verified_profile(html@, user_id@) {
                Ok(p) => r matches Ok(got) && profile_view(got) == p,
                Err(e) => r matches Err(got) && got@ == e,
            },
    {
        let page = HtmlPage::parse_document(html);
        if !page.has(&at_page(), "#email, .b-userprofile__avatar_holder") {
            return Err(owned("Authenticated profile verification failed"));
        }
        let username = match shown_string(page.first_text(&at_page(), "head title")) {
            Some(n) => n,
            None => {
                return Err(owned("Authenticated profile has no account name"));
            },
        };
        Ok(
            UserProfile {
                user_id: owned(user_id),
                username,
                is_logged_in: true,
                is_vip: Self::extract_vip_status(html),
                email: shown_string(page.first_attr(&at_page(), "#email", "value")),
                avatar_url: page.first_attr(&at_page(), ".b-userprofile__avatar_holder img", "src"),
                premium_days: None,
                is_session_persistent: true,
            },
        )
    }

    /// The account's notifications, grouped by day, and its premium days.
    pub fn parse_notifications(html: &str) -> (r: (Vec<NotificationGroup>, Option<u32>))
        ensures
            r.0@.map_values(|g: NotificationGroup| group_view(g)) == page_notices(html@),
            r.1 == page_premium_days(html@),
    {
        let page = HtmlPage::parse_document(html);
        let blocks = page.find(&at_page(), ".b-seriesupdate__block", &no_names()).len();
        let mut groups: Vec<NotificationGroup> = Vec::new();
        let mut b: usize = 0;
        while b < blocks
            invariant
                b <= blocks,
                page.source() == html@,
                !page.is_fragment(),
                blocks == doc_found(html@, false, seq![], ".b-seriesupdate__block"@, seq![]).len(),
                groups@.map_values(|g: NotificationGroup| group_view(g)) == groups_upto(html@, b as int),
            decreases blocks - b,
        {
            let g = Self::notification_group(&page, html, b);
            if g.items.len() > 0 {
                let ghost prev = groups@;
                groups.push(g);
                assert(groups@ =~= prev.push(g));
                assert(groups@.map_values(|g: NotificationGroup| group_view(g)) =~= prev.map_values(
                    |g: NotificationGroup| group_view(g),
                ).push(group_view(g)));
            }
            b += 1;
        }
        let heads = page.find(&at_page(), ".b-tophead-premuser", &no_names());
        let days = if heads.len() > 0 {
            assert(element_view(heads@[0]).0 == heads@[0].text@);
            parse_u32(&keep_ascii_digits(&chars_of(heads[0].text.as_str())))
        } else {
            None
        };
        (groups, days)
    }

    fn notification_group(page: &HtmlPage, html: &str, b: usize) -> (r: NotificationGroup)
        requires
            page.source() == html@,
            !page.is_fragment(),
        ensures
            group_view(r) == notice_group(html@, b as int),
    {
        let block = at(".b-seriesupdate__block", b);
        let dates = page.find(&block, ".b-seriesupdate__block_date", &no_names());
        let date = if dates.len() > 0 {
            assert(element_view(dates@[0]).0 == dates@[0].text@);
            string_of(trim(&replace_lit(&chars_of(dates[0].text.as_str()), "развернуть", "")).as_slice())
        } else {
            String::new()
        };
        let entries = page.find(&block, ".tracked", &no_names()).len();
        let mut items: Vec<NotificationItem> = Vec::new();
        let mut t: usize = 0;
        while t < entries
            invariant
                t <= entries,
                page.source() == html@,
                !page.is_fragment(),
                entries == doc_found(html@, false, seq![(".b-seriesupdate__block"@, b as int)], ".tracked"@, seq![]).len(),
                notice_views(items@) == notices_upto(html@, b as int, t as int),
            decreases entries - t,
        {
            match Self::notice(page, html, b, t) {
                Some(n) => {
                    let ghost prev = items@;
                    items.push(n);
                    assert(items@ =~= prev.push(n));
                    assert(notice_views(items@) =~= notice_views(prev).push(notice_view(n)));
                },
                None => {},
            }
            t += 1;
        }
        NotificationGroup { date, items }
    }

    fn notice(page: &HtmlPage, html: &str, b: usize, t: usize) -> (r: Option<NotificationItem>)
        requires
            page.source() == html@,
            !page.is_fragment(),
        ensures
            match r {
                Some(n) => notice_at(html@, b as int, t as int) == Some(notice_view(n)),
                None => notice_at(html@, b as int, t as int) is None,
            },
    {
        let p = then(&at(".b-seriesupdate__block", b), ".tracked", t);
        assert(path_view(p@) =~= entry_path(b as int, t as int));
        let links = page.find(&p, ".b-seriesupdate__block_list_link", &name("href"));
        if links.len() == 0 {
            return None;
        }
        assert(element_view(links@[0]).1[0] == opt_view(links@[0].attrs@[0]));
        assert(element_view(links@[0]).0 == links@[0].text@);
        let url = match &links[0].attrs[0] {
            Some(u) => u.clone(),
            None => {
                return None;
            },
        };
        let season = page.first_text(&p, ".season");
        let cell = page.first_text(&p, ".cell-2");
        let mut info: Vec<char> = Vec::new();
        let mut any = false;
        match &season {
            Some(s) => if !s.as_str().is_empty() {
                push_all(&mut info, &chars_of(s.as_str()));
                any = true;
            },
            None => {},
        }
        match &cell {
            Some(c) => if !c.as_str().is_empty() {
                if any {
                    push_all(&mut info, &chars_of(" - "));
                }
                push_all(&mut info, &chars_of(c.as_str()));
            },
            None => {},
        }
        proof {
            let parts = seq![opt_view(season), opt_view(cell)];
            let first = seq![opt_view(season)];
            assert(parts.drop_last() =~= first);
            assert(first.drop_last() =~= Seq::<Option<Seq<char>>>::empty());
            reveal_strlit(" - ");
            let head = nonempty_texts(first);
            reveal_with_fuel(nonempty_texts, 3);
            assert(any == (opt_view(season) is Some && opt_view(season)->0.len() > 0));
            assert(first.last() == opt_view(season));
            assert(any ==> head =~= seq![opt_view(season)->0]);
            assert(!any ==> head =~= Seq::<Seq<char>>::empty());
            if any {
                assert(dash_joined(head) =~= opt_view(season)->0);
                if cell is Some && opt_view(cell)->0.len() > 0 {
                    let both = head.push(opt_view(cell)->0);
                    assert(both.drop_last() =~= head);
                    assert(info@ =~= dash_joined(both));
                } else {
                    assert(info@ =~= dash_joined(head));
                }
            } else {
                if cell is Some && opt_view(cell)->0.len() > 0 {
                    let one = head.push(opt_view(cell)->0);
                    assert(one =~= seq![opt_view(cell)->0]);
                    assert(info@ =~= dash_joined(one));
                } else {
                    assert(info@ =~= dash_joined(head));
                }
            }
            assert(info@ =~= dash_joined(nonempty_texts(parts)));
        }
        Some(
            NotificationItem {
                title: string_of(trim(&chars_of(links[0].text.as_str())).as_slice()),
                url,
                info: string_of(info.as_slice()),
            },
        )
    }

    /// The account's favourites lists.
    pub fn parse_favorites_categories(html_content: &str) -> (r: Vec<FavoritesCollection>)
        ensures
            collection_views(r@) == page_collections(html_content@),
    {
        let page = HtmlPage::parse_document(html_content);
        let m = page.find(&at_page(), ".b-favorites_content__cats_list_item[data-cat_id]", &name("data-cat_id"));
        let ghost mv = element_views(m@);
        let mut cats: Vec<FavoritesCollection> = Vec::new();
        let mut k: usize = 0;
        while k < m.len()
            invariant
                k <= m@.len(),
                page.source() == html_content@,
                !page.is_fragment(),
                mv == element_views(m@),
                mv == doc_found(html_content@, false, seq![], ".b-favorites_content__cats_list_item[data-cat_id]"@, seq!["data-cat_id"@]),
                forall|j: int| 0 <= j < m@.len() ==> (#[trigger] m@[j]).attrs@.len() == 1,
                collection_views(cats@) == collections_upto(html_content@, k as int),
            decreases m.len() - k,
        {
            assert(mv[k as int] == element_view(m@[k as int]));
            assert(mv[k as int].1[0] == opt_view(m@[k as int].attrs@[0]));
            let id = match &m[k].attrs[0] {
                Some(t) => parse_i64(&chars_of(t.as_str())),
                None => None,
            };
            match id {
                Some(id) => {
                    let p = at(".b-favorites_content__cats_list_item[data-cat_id]", k);
                    let name = match page.first_text(&p, ".name") {
                        Some(n) => n,
                        None => owned("Коллекция"),
                    };
                    let count_text = match page.first_text(&p, ".num-holder, .num") {
                        Some(c) => c,
                        None => String::new(),
                    };
                    let count = match parse_usize(&keep_ascii_digits(&chars_of(count_text.as_str()))) {
                        Some(n) => n,
                        None => 0,
                    };
                    let url = concat2(&concat2(&chars_of("favorites/"), &i64_chars(id)), &chars_of("/"));
                    let c = FavoritesCollection { id: Some(id), name, url: string_of(url.as_slice()), count };
                    let ghost prev = cats@;
                    cats.push(c);
                    assert(cats@ =~= prev.push(c));
                    assert(collection_views(cats@) =~= collection_views(prev).push(collection_view(c)));
                },
                None => {},
            }
            k += 1;
        }
        cats
    }

    /// The account's viewing history, as its page lists it.
    pub fn parse_history(html: &str) -> (r: Vec<ServerHistoryEntry>)
        ensures
            history_views(r@) == page_history(html@),
    {
        let page = HtmlPage::parse_document(html);
        let m = page.find(&at_page(), ".b-videosaves__list_item", &name("class"));
        let ghost mv = element_views(m@);
        let mut out: Vec<ServerHistoryEntry> = Vec::new();
        let mut k: usize = 1;
        assert(history_views(out@) =~= seq![]);
        while k < m.len()
            invariant
                1 <= k,
                k <= m@.len() || (m@.len() == 0 && k == 1),
                page.source() == html@,
                !page.is_fragment(),
                mv == element_views(m@),
                mv == doc_found(html@, false, seq![], ".b-videosaves__list_item"@, seq!["class"@]),
                forall|j: int| 0 <= j < m@.len() ==> (#[trigger] m@[j]).attrs@.len() == 1,
                history_views(out@) == history_upto(html@, k as int),
            decreases m.len() - k,
        {
            assert(mv[k as int] == element_view(m@[k as int]));
            match Self::history_entry(&page, html, k, &m[k]) {
                Some(h) => {
                    let ghost prev = out@;
                    out.push(h);
                    assert(out@ =~= prev.push(h));
                    assert(history_views(out@) =~= history_views(prev).push(history_view(h)));
                },
                None => {},
            }
            k += 1;
        }
        assert(m@.len() == 0 ==> history_upto(html@, 0) =~= history_upto(html@, 1));
        out
    }

    fn history_entry(page: &HtmlPage, html: &str, k: usize, e: &crate::html::HtmlElement) -> (r: Option<ServerHistoryEntry>)
        requires
            page.source() == html@,
            !page.is_fragment(),
            e.attrs@.len() == 1,
            element_view(*e) == doc_found(html@, false, seq![], ".b-videosaves__list_item"@, seq!["class"@])[k as int],
        ensures
            match r {
                Some(h) => history_at(html@, k as int) == Some(history_view(h)),
                None => history_at(html@, k as int) is None,
            },
    {
        let p = at(".b-videosaves__list_item", k);
        let links = page.find(&p, ".title a", &names2("href", "data-cover_url"));
        let deletes = page.find(&p, ".delete[data-id]", &name("data-id"));
        if links.len() == 0 || deletes.len() == 0 {
            return None;
        }
        assert(element_view(links@[0]).1[0] == opt_view(links@[0].attrs@[0]));
        assert(element_view(links@[0]).1[1] == opt_view(links@[0].attrs@[1]));
        assert(element_view(links@[0]).0 == links@[0].text@);
        assert(element_view(deletes@[0]).1[0] == opt_view(deletes@[0].attrs@[0]));
        assert(element_view(*e).1[0] == opt_view(e.attrs@[0]));
        let id = match &deletes[0].attrs[0] {
            Some(v) => v.clone(),
            None => {
                return None;
            },
        };
        let url = match &links[0].attrs[0] {
            Some(v) => v.clone(),
            None => {
                return None;
            },
        };
        let poster_url = match &links[0].attrs[1] {
            Some(v) => Some(v.clone()),
            None => None,
        };
        let is_watched = match &e.attrs[0] {
            Some(class) => {
                let words = split_whitespace(&chars_of(class.as_str()));
                let ghost wv = views(words@);
                let mut found = false;
                let mut i: usize = 0;
                while i < words.len()
                    invariant
                        i <= words@.len(),
                        wv == views(words@),
                        found == wv.subrange(0, i as int).contains("watched-row"@),
                    decreases words.len() - i,
                {
                    let ghost before = wv.subrange(0, i as int);
                    assert(wv.subrange(0, i + 1) =~= before.push(wv[i as int]));
                    assert(wv[i as int] == words@[i as int]@);
                    if is_str(&words[i], "watched-row") {
                        found = true;
                        assert(wv.subrange(0, i + 1)[i as int] == "watched-row"@);
                    } else {
                        proof {
                            let upto = wv.subrange(0, i + 1);
                            if upto.contains("watched-row"@) {
                                let j = choose|j: int| 0 <= j < upto.len() && #[trigger] upto[j] == "watched-row"@;
                                assert(j < i);
                                assert(before[j] == "watched-row"@);
                            }
                        }
                    }
                    i += 1;
                }
                assert(wv.subrange(0, words@.len() as int) =~= wv);
                found
            },
            None => false,
        };
        Some(
            ServerHistoryEntry {
                id,
                title: string_of(trim(&chars_of(links[0].text.as_str())).as_slice()),
                url,
                poster_url,
                info: shown_string(page.first_text(&p, ".info")),
                additional_info: shown_string(page.first_text(&p, ".new-episode")),
                date: shown_string(page.first_text(&p, ".date")),
                is_watched,
            },
        )
    }

    /// The text a provider message shows.
    pub fn sanitize_message(message: &str) -> (r: String)
        ensures
            r@ == sanitized(message@),
    {
        let fragment = HtmlPage::parse_fragment(message);
        let text = normalize_spaces(&chars_of(fragment.root_text().as_str()));
        if text.len() <= 160 {
            string_of(text.as_slice())
        } else {
            string_of(slice_vec(&text, 0, 160).as_slice())
        }
    }

    /// Reads the reply to an account operation: `Ok` when it reports
    /// success, and otherwise the provider's message, or `fallback`.
    pub fn require_json_success(response: &str, fallback: &str) -> (r: Result<(), String>)
        ensures
            match json_success(response@, fallback@) {
                Ok(()) => r is Ok,
                Err(e) => r matches Err(m) && m@ == e,
            },
    {
        if json_error(response).is_some() {
            return Err(owned("Account operation returned malformed JSON"));
        }
        if json_bool(response, "success") == Some(true) {
            return Ok(());
        }
        match json_text(response, "message") {
            Some(m) => {
                let s = Self::sanitize_message(m.as_str());
                if s.as_str().is_empty() {
                    Err(owned(fallback))
                } else {
                    Err(s)
                }
            },
            None => Err(owned(fallback)),
        }
    }

    /// Reads the reply to a login request.
    pub fn read_login_reply(response: &str) -> (r: Result<(), String>)
        ensures
            match login_reply(response@) {
                Ok(()) => r is Ok,
                Err(e) => r matches Err(m) && m@ == e,
            },
    {
        if let Some(e) = json_error(response) {
            return Err(string_of(concat2(&chars_of("Failed to parse login response JSON: "), &chars_of(e.as_str())).as_slice()));
        }
        if json_bool(response, "success") == Some(true) {
            return Ok(());
        }
        let message = match json_text(response, "message") {
            Some(m) => m,
            None => owned("Неверный логин или пароль"),
        };
        Err(Self::sanitize_message(message.as_str()))
    }

    /// Whether a page fetched for the account is one; a login form means the
    /// session was not accepted, and the caller signs it out.
    pub fn require_authenticated_html(html: &str) -> (r: Result<(), String>)
        ensures
            is_login_page(html@) ==> (r matches Err(m) && m@ == "Authenticated session was rejected by the official provider"@),
            !is_login_page(html@) ==> r is Ok,
    {
        let h = chars_of(html);
        if contains_str(&h, "login_password") || contains_str(&h, "login_name") {
            Err(owned("Authenticated session was rejected by the official provider"))
        } else {
            Ok(())
        }
    }

    /// Reads the history page: a page without a history list is refused.
    pub fn read_history_page(html: &str) -> (r: Result<Vec<ServerHistoryEntry>, String>)
        ensures
            doc_found(html@, false, seq![], ".b-videosaves, .b-videosaves__list, .b-videosaves__list_item"@, seq![]).len()
                == 0 ==> (r matches Err(m) && m@ == "The provider returned an invalid history page"@),
            doc_found(html@, false, seq![], ".b-videosaves, .b-videosaves__list, .b-videosaves__list_item"@, seq![]).len()
                > 0 ==> (r matches Ok(h) && history_views(h@) == page_history(html@)),
    {
        let page = HtmlPage::parse_document(html);
        if !page.has(&at_page(), ".b-videosaves, .b-videosaves__list, .b-videosaves__list_item") {
            return Err(owned("The provider returned an invalid history page"));
        }
        Ok(Self::parse_history(html))
    }

    /// Reads the reply to a saved position: any JSON is taken.
    pub fn require_json(response: &str) -> (r: Result<(), String>)
        ensures
            json_parse_error(response@) is None ==> r is Ok,
            json_parse_error(response@) is Some ==> (r matches Err(m) && m@ == "Account operation returned malformed JSON"@),
    {
        if json_error(response).is_some() {
            Err(owned("Account operation returned malformed JSON"))
        } else {
            Ok(())
        }
    }

    /// The address of a favourites listing page.
    pub fn favorites_path(cat_id: Option<i64>, page: usize) -> (r: String)
        ensures
            r@ == favorites_path_of(cat_id, page),
    {
        let out = match cat_id {
            Some(id) => {
                let head = concat2(&chars_of("favorites/"), &i64_chars(id));
                if page > 1 {
                    concat2(&concat2(&concat2(&head, &chars_of("/page/")), &crate::text::decimal_chars(page as u64)), &chars_of("/"))
                } else {
                    concat2(&head, &chars_of("/"))
                }
            },
            None => if page > 1 {
                concat2(&concat2(&chars_of("favorites/page/"), &crate::text::decimal_chars(page as u64)), &chars_of("/"))
            } else {
                chars_of("favorites/")
            },
        };
        string_of(out.as_slice())
    }
}

} // verus!
