use movo_core::client::search::{collections_path, paged_path, parse_collections, parse_suggestions, search_path};

#[test]
fn paging_keeps_the_query_string_after_the_page_segment() {
    assert_eq!(paged_path("new", 1), "new");
    assert_eq!(paged_path("/announce/", 3), "announce/page/3/");
    assert_eq!(paged_path("new?filter=watching", 2), "new/page/2/?filter=watching");
}

#[test]
fn parses_unique_suggestions_and_collections() {
    assert_eq!(
        parse_suggestions("<li><span class='enty'>One</span></li><li><span class='enty'>One</span></li>"),
        vec!["One"]
    );
    let collections = parse_collections("<div class='b-content__collections_item' data-url='/collections/a/'><img class='cover' src='a.jpg'><span class='title'>A</span><span class='num'>12</span></div>");
    assert_eq!(collections.len(), 1);
    assert_eq!(collections[0].count, 12);
}

#[test]
fn the_first_page_has_no_page_segment() {
    assert_eq!(paged_path("films/", 0), "films/");
    assert_eq!(paged_path("films/?filter=last", 1), "films/?filter=last");
}

#[test]
fn a_search_query_is_form_encoded() {
    assert_eq!(
        search_path("star wars", 1),
        "search/?do=search&subaction=search&q=star+wars"
    );
    assert_eq!(
        search_path("кино & co", 3),
        "search/?do=search&subaction=search&q=%D0%BA%D0%B8%D0%BD%D0%BE+%26+co&page=3"
    );
}

#[test]
fn collections_are_paged_after_the_first() {
    assert_eq!(collections_path(1), "collections/");
    assert_eq!(collections_path(4), "collections/page/4/");
}
