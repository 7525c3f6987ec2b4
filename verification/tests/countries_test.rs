use movo_core::client::countries::{canonical, countries, entries};
use std::collections::HashSet;

#[test]
fn the_same_country_under_any_of_its_names() {
    assert_eq!(canonical("Россия"), "ru");
    assert_eq!(canonical(" росія "), "ru");
    assert_eq!(canonical("Russia"), "ru");
    assert_eq!(canonical("ru"), "ru");
    assert_eq!(canonical("Корея Южная"), "kr");
    assert_eq!(canonical("Південна Корея"), "kr");
}

#[test]
fn an_unknown_name_is_kept_as_typed() {
    assert_eq!(canonical(" Атлантида "), "атлантида");
}

#[test]
fn codes_and_names_are_unique() {
    let mut codes = HashSet::new();
    let mut names = HashSet::new();
    let all = countries();
    for country in &all {
        assert!(codes.insert(country.code), "code {} twice", country.code);
        for name in country.names() {
            assert!(names.insert(name.clone()), "name {name} under two countries");
        }
    }
    assert_eq!(entries().len(), all.len());
}
