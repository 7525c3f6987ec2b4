//! Countries a listing can be from, under every name the provider or a person
//! might use for them.
//!
//! The provider names the country of a title in the language of its interface,
//! which is not the language of the person reading the app; a name typed in
//! Ukrainian or English never matched the Russian one in the listing. Names
//! are therefore reduced to a code on both sides, so "Росія", "Russia" and
//! "Россия" are the same country. A name this table does not know is kept as
//! typed and still matches the listing letter for letter.

use vstd::prelude::*;
use crate::text::{string_views, chars_of, lowercased, owned, same_chars, string_of, to_lowercase, trim, trimmed};

verus! {

/// One country: its code, its name in each language the app speaks, and the
/// other spellings the provider or a person might use.
pub struct Country {
    pub code: &'static str,
    pub en: &'static str,
    pub ru: &'static str,
    pub uk: &'static str,
    pub aliases: Vec<&'static str>,
}

/// A country as plain text: code, English, Russian and Ukrainian names, aliases.
pub type CountryText = (&'static str, &'static str, &'static str, &'static str, Seq<&'static str>);

pub open spec fn country_text(c: Country) -> CountryText {
    (c.code, c.en, c.ru, c.uk, c.aliases@)
}

/// The known country at position `i` of the table.
pub open spec fn country_at(i: int) -> CountryText {
    if i == 0 {
        ("us", "USA", "США", "США", seq!["united states", "america"])
    } else     if i == 1 {
        ("gb", "United Kingdom", "Великобритания", "Великобританія", seq!["uk", "great britain", "britain", "england", "англия", "англія"])
    } else     if i == 2 {
        ("ru", "Russia", "Россия", "Росія", seq!["russian federation"])
    } else     if i == 3 {
        ("ua", "Ukraine", "Украина", "Україна", seq![])
    } else     if i == 4 {
        ("fr", "France", "Франция", "Франція", seq![])
    } else     if i == 5 {
        ("de", "Germany", "Германия", "Німеччина", seq![])
    } else     if i == 6 {
        ("it", "Italy", "Италия", "Італія", seq![])
    } else     if i == 7 {
        ("es", "Spain", "Испания", "Іспанія", seq![])
    } else     if i == 8 {
        ("jp", "Japan", "Япония", "Японія", seq![])
    } else     if i == 9 {
        ("kr", "South Korea", "Корея Южная", "Південна Корея", seq!["korea", "южная корея", "корея", "корея південна"])
    } else     if i == 10 {
        ("cn", "China", "Китай", "Китай", seq![])
    } else     if i == 11 {
        ("in", "India", "Индия", "Індія", seq![])
    } else     if i == 12 {
        ("tr", "Turkey", "Турция", "Туреччина", seq!["türkiye"])
    } else     if i == 13 {
        ("ca", "Canada", "Канада", "Канада", seq![])
    } else     if i == 14 {
        ("au", "Australia", "Австралия", "Австралія", seq![])
    } else     if i == 15 {
        ("br", "Brazil", "Бразилия", "Бразилія", seq![])
    } else     if i == 16 {
        ("mx", "Mexico", "Мексика", "Мексика", seq![])
    } else     if i == 17 {
        ("ar", "Argentina", "Аргентина", "Аргентина", seq![])
    } else     if i == 18 {
        ("pl", "Poland", "Польша", "Польща", seq![])
    } else     if i == 19 {
        ("cz", "Czech Republic", "Чехия", "Чехія", seq!["czechia"])
    } else     if i == 20 {
        ("se", "Sweden", "Швеция", "Швеція", seq![])
    } else     if i == 21 {
        ("no", "Norway", "Норвегия", "Норвегія", seq![])
    } else     if i == 22 {
        ("dk", "Denmark", "Дания", "Данія", seq![])
    } else     if i == 23 {
        ("fi", "Finland", "Финляндия", "Фінляндія", seq![])
    } else     if i == 24 {
        ("nl", "Netherlands", "Нидерланды", "Нідерланди", seq!["holland"])
    } else     if i == 25 {
        ("be", "Belgium", "Бельгия", "Бельгія", seq![])
    } else     if i == 26 {
        ("ie", "Ireland", "Ирландия", "Ірландія", seq![])
    } else     if i == 27 {
        ("nz", "New Zealand", "Новая Зеландия", "Нова Зеландія", seq![])
    } else     if i == 28 {
        ("hk", "Hong Kong", "Гонконг", "Гонконг", seq![])
    } else     if i == 29 {
        ("tw", "Taiwan", "Тайвань", "Тайвань", seq![])
    } else     if i == 30 {
        ("th", "Thailand", "Таиланд", "Таїланд", seq![])
    } else     if i == 31 {
        ("by", "Belarus", "Беларусь", "Білорусь", seq!["белоруссия"])
    } else     if i == 32 {
        ("kz", "Kazakhstan", "Казахстан", "Казахстан", seq![])
    } else     if i == 33 {
        ("ge", "Georgia", "Грузия", "Грузія", seq![])
    } else     if i == 34 {
        ("am", "Armenia", "Армения", "Вірменія", seq![])
    } else     if i == 35 {
        ("az", "Azerbaijan", "Азербайджан", "Азербайджан", seq![])
    } else     if i == 36 {
        ("uz", "Uzbekistan", "Узбекистан", "Узбекистан", seq![])
    } else     if i == 37 {
        ("kg", "Kyrgyzstan", "Киргизия", "Киргизстан", seq!["кыргызстан"])
    } else     if i == 38 {
        ("md", "Moldova", "Молдова", "Молдова", seq!["молдавия"])
    } else     if i == 39 {
        ("lt", "Lithuania", "Литва", "Литва", seq![])
    } else     if i == 40 {
        ("lv", "Latvia", "Латвия", "Латвія", seq![])
    } else     if i == 41 {
        ("ee", "Estonia", "Эстония", "Естонія", seq![])
    } else     if i == 42 {
        ("il", "Israel", "Израиль", "Ізраїль", seq![])
    } else     if i == 43 {
        ("ir", "Iran", "Иран", "Іран", seq![])
    } else     if i == 44 {
        ("eg", "Egypt", "Египет", "Єгипет", seq![])
    } else     if i == 45 {
        ("za", "South Africa", "ЮАР", "ПАР", seq!["южная африка", "південна африка"])
    } else     if i == 46 {
        ("ae", "United Arab Emirates", "ОАЭ", "ОАЕ", seq!["uae"])
    } else     if i == 47 {
        ("sa", "Saudi Arabia", "Саудовская Аравия", "Саудівська Аравія", seq![])
    } else     if i == 48 {
        ("pk", "Pakistan", "Пакистан", "Пакистан", seq![])
    } else     if i == 49 {
        ("ng", "Nigeria", "Нигерия", "Нігерія", seq![])
    } else     if i == 50 {
        ("at", "Austria", "Австрия", "Австрія", seq![])
    } else     if i == 51 {
        ("ch", "Switzerland", "Швейцария", "Швейцарія", seq![])
    } else     if i == 52 {
        ("hu", "Hungary", "Венгрия", "Угорщина", seq![])
    } else     if i == 53 {
        ("gr", "Greece", "Греция", "Греція", seq![])
    } else     if i == 54 {
        ("pt", "Portugal", "Португалия", "Португалія", seq![])
    } else     if i == 55 {
        ("ro", "Romania", "Румыния", "Румунія", seq![])
    } else     if i == 56 {
        ("bg", "Bulgaria", "Болгария", "Болгарія", seq![])
    } else     if i == 57 {
        ("rs", "Serbia", "Сербия", "Сербія", seq![])
    } else     if i == 58 {
        ("hr", "Croatia", "Хорватия", "Хорватія", seq![])
    } else     if i == 59 {
        ("sk", "Slovakia", "Словакия", "Словаччина", seq![])
    } else     if i == 60 {
        ("is", "Iceland", "Исландия", "Ісландія", seq![])
    } else     if i == 61 {
        ("lu", "Luxembourg", "Люксембург", "Люксембург", seq![])
    } else     if i == 62 {
        ("co", "Colombia", "Колумбия", "Колумбія", seq![])
    } else     if i == 63 {
        ("cl", "Chile", "Чили", "Чилі", seq![])
    } else     if i == 64 {
        ("ph", "Philippines", "Филиппины", "Філіппіни", seq![])
    } else     if i == 65 {
        ("id", "Indonesia", "Индонезия", "Індонезія", seq![])
    } else     if i == 66 {
        ("vn", "Vietnam", "Вьетнам", "В'єтнам", seq![])
    } else     if i == 67 {
        ("su", "USSR", "СССР", "СРСР", seq!["soviet union"])
    } else {
        ("", "", "", "", seq![])
    }
}

/// Every known country, in the order they are offered and matched.
pub open spec fn country_table() -> Seq<CountryText> {
    Seq::new(68, |i: int| country_at(i))
}

/// Every known country; see [`country_table`].
pub fn countries() -> (t: Vec<Country>)
    ensures
        t@.map_values(|c: Country| country_text(c)) == country_table(),
{
    let mut t: Vec<Country> = Vec::new();
    t.push(Country { code: "us", en: "USA", ru: "США", uk: "США", aliases: vec!["united states", "america"] });
    assert(forall|i: int| 0 <= i < 1 ==> country_text(#[trigger] t@[i]) == country_at(i));
    t.push(Country { code: "gb", en: "United Kingdom", ru: "Великобритания", uk: "Великобританія", aliases: vec!["uk", "great britain", "britain", "england", "англия", "англія"] });
    assert(forall|i: int| 0 <= i < 2 ==> country_text(#[trigger] t@[i]) == country_at(i));
    t.push(Country { code: "ru", en: "Russia", ru: "Россия", uk: "Росія", aliases: vec!["russian federation"] });
    assert(forall|i: int| 0 <= i < 3 ==> country_text(#[trigger] t@[i]) == country_at(i));
    t.push(Country { code: "ua", en: "Ukraine", ru: "Украина", uk: "Україна", aliases: vec![] });
    assert(forall|i: int| 0 <= i < 4 ==> country_text(#[trigger] t@[i]) == country_at(i));
    t.push(Country { code: "fr", en: "France", ru: "Франция", uk: "Франція", aliases: vec![] });
    assert(forall|i: int| 0 <= i < 5 ==> country_text(#[trigger] t@[i]) == country_at(i));
    t.push(Country { code: "de", en: "Germany", ru: "Германия", uk: "Німеччина", aliases: vec![] });
    assert(forall|i: int| 0 <= i < 6 ==> country_text(#[trigger] t@[i]) == country_at(i));
    t.push(Country { code: "it", en: "Italy", ru: "Италия", uk: "Італія", aliases: vec![] });
    assert(forall|i: int| 0 <= i < 7 ==> country_text(#[trigger] t@[i]) == country_at(i));
    t.push(Country { code: "es", en: "Spain", ru: "Испания", uk: "Іспанія", aliases: vec![] });
    assert(forall|i: int| 0 <= i < 8 ==> country_text(#[trigger] t@[i]) == country_at(i));
    t.push(Country { code: "jp", en: "Japan", ru: "Япония", uk: "Японія", aliases: vec![] });
    assert(forall|i: int| 0 <= i < 9 ==> country_text(#[trigger] t@[i]) == country_at(i));
    t.push(Country { code: "kr", en: "South Korea", ru: "Корея Южная", uk: "Південна Корея", aliases: vec!["korea", "южная корея", "корея", "корея південна"] });
    assert(forall|i: int| 0 <= i < 10 ==> country_text(#[trigger] t@[i]) == country_at(i));
    t.push(Country { code: "cn", en: "China", ru: "Китай", uk: "Китай", aliases: vec![] });
    assert(forall|i: int| 0 <= i < 11 ==> country_text(#[trigger] t@[i]) == country_at(i));
    t.push(Country { code: "in", en: "India", ru: "Индия", uk: "Індія", aliases: vec![] });
    assert(forall|i: int| 0 <= i < 12 ==> country_text(#[trigger] t@[i]) == country_at(i));
    t.push(Country { code: "tr", en: "Turkey", ru: "Турция", uk: "Туреччина", aliases: vec!["türkiye"] });
    assert(forall|i: int| 0 <= i < 13 ==> country_text(#[trigger] t@[i]) == country_at(i));
    t.push(Country { code: "ca", en: "Canada", ru: "Канада", uk: "Канада", aliases: vec![] });
    assert(forall|i: int| 0 <= i < 14 ==> country_text(#[trigger] t@[i]) == country_at(i));
    t.push(Country { code: "au", en: "Australia", ru: "Австралия", uk: "Австралія", aliases: vec![] });
    assert(forall|i: int| 0 <= i < 15 ==> country_text(#[trigger] t@[i]) == country_at(i));
    t.push(Country { code: "br", en: "Brazil", ru: "Бразилия", uk: "Бразилія", aliases: vec![] });
    assert(forall|i: int| 0 <= i < 16 ==> country_text(#[trigger] t@[i]) == country_at(i));
    t.push(Country { code: "mx", en: "Mexico", ru: "Мексика", uk: "Мексика", aliases: vec![] });
    assert(forall|i: int| 0 <= i < 17 ==> country_text(#[trigger] t@[i]) == country_at(i));
    t.push(Country { code: "ar", en: "Argentina", ru: "Аргентина", uk: "Аргентина", aliases: vec![] });
    assert(forall|i: int| 0 <= i < 18 ==> country_text(#[trigger] t@[i]) == country_at(i));
    t.push(Country { code: "pl", en: "Poland", ru: "Польша", uk: "Польща", aliases: vec![] });
    assert(forall|i: int| 0 <= i < 19 ==> country_text(#[trigger] t@[i]) == country_at(i));
    t.push(Country { code: "cz", en: "Czech Republic", ru: "Чехия", uk: "Чехія", aliases: vec!["czechia"] });
    assert(forall|i: int| 0 <= i < 20 ==> country_text(#[trigger] t@[i]) == country_at(i));
    t.push(Country { code: "se", en: "Sweden", ru: "Швеция", uk: "Швеція", aliases: vec![] });
    assert(forall|i: int| 0 <= i < 21 ==> country_text(#[trigger] t@[i]) == country_at(i));
    t.push(Country { code: "no", en: "Norway", ru: "Норвегия", uk: "Норвегія", aliases: vec![] });
    assert(forall|i: int| 0 <= i < 22 ==> country_text(#[trigger] t@[i]) == country_at(i));
    t.push(Country { code: "dk", en: "Denmark", ru: "Дания", uk: "Данія", aliases: vec![] });
    assert(forall|i: int| 0 <= i < 23 ==> country_text(#[trigger] t@[i]) == country_at(i));
    t.push(Country { code: "fi", en: "Finland", ru: "Финляндия", uk: "Фінляндія", aliases: vec![] });
    assert(forall|i: int| 0 <= i < 24 ==> country_text(#[trigger] t@[i]) == country_at(i));
    t.push(Country { code: "nl", en: "Netherlands", ru: "Нидерланды", uk: "Нідерланди", aliases: vec!["holland"] });
    assert(forall|i: int| 0 <= i < 25 ==> country_text(#[trigger] t@[i]) == country_at(i));
    t.push(Country { code: "be", en: "Belgium", ru: "Бельгия", uk: "Бельгія", aliases: vec![] });
    assert(forall|i: int| 0 <= i < 26 ==> country_text(#[trigger] t@[i]) == country_at(i));
    t.push(Country { code: "ie", en: "Ireland", ru: "Ирландия", uk: "Ірландія", aliases: vec![] });
    assert(forall|i: int| 0 <= i < 27 ==> country_text(#[trigger] t@[i]) == country_at(i));
    t.push(Country { code: "nz", en: "New Zealand", ru: "Новая Зеландия", uk: "Нова Зеландія", aliases: vec![] });
    assert(forall|i: int| 0 <= i < 28 ==> country_text(#[trigger] t@[i]) == country_at(i));
    t.push(Country { code: "hk", en: "Hong Kong", ru: "Гонконг", uk: "Гонконг", aliases: vec![] });
    assert(forall|i: int| 0 <= i < 29 ==> country_text(#[trigger] t@[i]) == country_at(i));
    t.push(Country { code: "tw", en: "Taiwan", ru: "Тайвань", uk: "Тайвань", aliases: vec![] });
    assert(forall|i: int| 0 <= i < 30 ==> country_text(#[trigger] t@[i]) == country_at(i));
    t.push(Country { code: "th", en: "Thailand", ru: "Таиланд", uk: "Таїланд", aliases: vec![] });
    assert(forall|i: int| 0 <= i < 31 ==> country_text(#[trigger] t@[i]) == country_at(i));
    t.push(Country { code: "by", en: "Belarus", ru: "Беларусь", uk: "Білорусь", aliases: vec!["белоруссия"] });
    assert(forall|i: int| 0 <= i < 32 ==> country_text(#[trigger] t@[i]) == country_at(i));
    t.push(Country { code: "kz", en: "Kazakhstan", ru: "Казахстан", uk: "Казахстан", aliases: vec![] });
    assert(forall|i: int| 0 <= i < 33 ==> country_text(#[trigger] t@[i]) == country_at(i));
    t.push(Country { code: "ge", en: "Georgia", ru: "Грузия", uk: "Грузія", aliases: vec![] });
    assert(forall|i: int| 0 <= i < 34 ==> country_text(#[trigger] t@[i]) == country_at(i));
    t.push(Country { code: "am", en: "Armenia", ru: "Армения", uk: "Вірменія", aliases: vec![] });
    assert(forall|i: int| 0 <= i < 35 ==> country_text(#[trigger] t@[i]) == country_at(i));
    t.push(Country { code: "az", en: "Azerbaijan", ru: "Азербайджан", uk: "Азербайджан", aliases: vec![] });
    assert(forall|i: int| 0 <= i < 36 ==> country_text(#[trigger] t@[i]) == country_at(i));
    t.push(Country { code: "uz", en: "Uzbekistan", ru: "Узбекистан", uk: "Узбекистан", aliases: vec![] });
    assert(forall|i: int| 0 <= i < 37 ==> country_text(#[trigger] t@[i]) == country_at(i));
    t.push(Country { code: "kg", en: "Kyrgyzstan", ru: "Киргизия", uk: "Киргизстан", aliases: vec!["кыргызстан"] });
    assert(forall|i: int| 0 <= i < 38 ==> country_text(#[trigger] t@[i]) == country_at(i));
    t.push(Country { code: "md", en: "Moldova", ru: "Молдова", uk: "Молдова", aliases: vec!["молдавия"] });
    assert(forall|i: int| 0 <= i < 39 ==> country_text(#[trigger] t@[i]) == country_at(i));
    t.push(Country { code: "lt", en: "Lithuania", ru: "Литва", uk: "Литва", aliases: vec![] });
    assert(forall|i: int| 0 <= i < 40 ==> country_text(#[trigger] t@[i]) == country_at(i));
    t.push(Country { code: "lv", en: "Latvia", ru: "Латвия", uk: "Латвія", aliases: vec![] });
    assert(forall|i: int| 0 <= i < 41 ==> country_text(#[trigger] t@[i]) == country_at(i));
    t.push(Country { code: "ee", en: "Estonia", ru: "Эстония", uk: "Естонія", aliases: vec![] });
    assert(forall|i: int| 0 <= i < 42 ==> country_text(#[trigger] t@[i]) == country_at(i));
    t.push(Country { code: "il", en: "Israel", ru: "Израиль", uk: "Ізраїль", aliases: vec![] });
    assert(forall|i: int| 0 <= i < 43 ==> country_text(#[trigger] t@[i]) == country_at(i));
    t.push(Country { code: "ir", en: "Iran", ru: "Иран", uk: "Іран", aliases: vec![] });
    assert(forall|i: int| 0 <= i < 44 ==> country_text(#[trigger] t@[i]) == country_at(i));
    t.push(Country { code: "eg", en: "Egypt", ru: "Египет", uk: "Єгипет", aliases: vec![] });
    assert(forall|i: int| 0 <= i < 45 ==> country_text(#[trigger] t@[i]) == country_at(i));
    t.push(Country { code: "za", en: "South Africa", ru: "ЮАР", uk: "ПАР", aliases: vec!["южная африка", "південна африка"] });
    assert(forall|i: int| 0 <= i < 46 ==> country_text(#[trigger] t@[i]) == country_at(i));
    t.push(Country { code: "ae", en: "United Arab Emirates", ru: "ОАЭ", uk: "ОАЕ", aliases: vec!["uae"] });
    assert(forall|i: int| 0 <= i < 47 ==> country_text(#[trigger] t@[i]) == country_at(i));
    t.push(Country { code: "sa", en: "Saudi Arabia", ru: "Саудовская Аравия", uk: "Саудівська Аравія", aliases: vec![] });
    assert(forall|i: int| 0 <= i < 48 ==> country_text(#[trigger] t@[i]) == country_at(i));
    t.push(Country { code: "pk", en: "Pakistan", ru: "Пакистан", uk: "Пакистан", aliases: vec![] });
    assert(forall|i: int| 0 <= i < 49 ==> country_text(#[trigger] t@[i]) == country_at(i));
    t.push(Country { code: "ng", en: "Nigeria", ru: "Нигерия", uk: "Нігерія", aliases: vec![] });
    assert(forall|i: int| 0 <= i < 50 ==> country_text(#[trigger] t@[i]) == country_at(i));
    t.push(Country { code: "at", en: "Austria", ru: "Австрия", uk: "Австрія", aliases: vec![] });
    assert(forall|i: int| 0 <= i < 51 ==> country_text(#[trigger] t@[i]) == country_at(i));
    t.push(Country { code: "ch", en: "Switzerland", ru: "Швейцария", uk: "Швейцарія", aliases: vec![] });
    assert(forall|i: int| 0 <= i < 52 ==> country_text(#[trigger] t@[i]) == country_at(i));
    t.push(Country { code: "hu", en: "Hungary", ru: "Венгрия", uk: "Угорщина", aliases: vec![] });
    assert(forall|i: int| 0 <= i < 53 ==> country_text(#[trigger] t@[i]) == country_at(i));
    t.push(Country { code: "gr", en: "Greece", ru: "Греция", uk: "Греція", aliases: vec![] });
    assert(forall|i: int| 0 <= i < 54 ==> country_text(#[trigger] t@[i]) == country_at(i));
    t.push(Country { code: "pt", en: "Portugal", ru: "Португалия", uk: "Португалія", aliases: vec![] });
    assert(forall|i: int| 0 <= i < 55 ==> country_text(#[trigger] t@[i]) == country_at(i));
    t.push(Country { code: "ro", en: "Romania", ru: "Румыния", uk: "Румунія", aliases: vec![] });
    assert(forall|i: int| 0 <= i < 56 ==> country_text(#[trigger] t@[i]) == country_at(i));
    t.push(Country { code: "bg", en: "Bulgaria", ru: "Болгария", uk: "Болгарія", aliases: vec![] });
    assert(forall|i: int| 0 <= i < 57 ==> country_text(#[trigger] t@[i]) == country_at(i));
    t.push(Country { code: "rs", en: "Serbia", ru: "Сербия", uk: "Сербія", aliases: vec![] });
    assert(forall|i: int| 0 <= i < 58 ==> country_text(#[trigger] t@[i]) == country_at(i));
    t.push(Country { code: "hr", en: "Croatia", ru: "Хорватия", uk: "Хорватія", aliases: vec![] });
    assert(forall|i: int| 0 <= i < 59 ==> country_text(#[trigger] t@[i]) == country_at(i));
    t.push(Country { code: "sk", en: "Slovakia", ru: "Словакия", uk: "Словаччина", aliases: vec![] });
    assert(forall|i: int| 0 <= i < 60 ==> country_text(#[trigger] t@[i]) == country_at(i));
    t.push(Country { code: "is", en: "Iceland", ru: "Исландия", uk: "Ісландія", aliases: vec![] });
    assert(forall|i: int| 0 <= i < 61 ==> country_text(#[trigger] t@[i]) == country_at(i));
    t.push(Country { code: "lu", en: "Luxembourg", ru: "Люксембург", uk: "Люксембург", aliases: vec![] });
    assert(forall|i: int| 0 <= i < 62 ==> country_text(#[trigger] t@[i]) == country_at(i));
    t.push(Country { code: "co", en: "Colombia", ru: "Колумбия", uk: "Колумбія", aliases: vec![] });
    assert(forall|i: int| 0 <= i < 63 ==> country_text(#[trigger] t@[i]) == country_at(i));
    t.push(Country { code: "cl", en: "Chile", ru: "Чили", uk: "Чилі", aliases: vec![] });
    assert(forall|i: int| 0 <= i < 64 ==> country_text(#[trigger] t@[i]) == country_at(i));
    t.push(Country { code: "ph", en: "Philippines", ru: "Филиппины", uk: "Філіппіни", aliases: vec![] });
    assert(forall|i: int| 0 <= i < 65 ==> country_text(#[trigger] t@[i]) == country_at(i));
    t.push(Country { code: "id", en: "Indonesia", ru: "Индонезия", uk: "Індонезія", aliases: vec![] });
    assert(forall|i: int| 0 <= i < 66 ==> country_text(#[trigger] t@[i]) == country_at(i));
    t.push(Country { code: "vn", en: "Vietnam", ru: "Вьетнам", uk: "В'єтнам", aliases: vec![] });
    assert(forall|i: int| 0 <= i < 67 ==> country_text(#[trigger] t@[i]) == country_at(i));
    t.push(Country { code: "su", en: "USSR", ru: "СССР", uk: "СРСР", aliases: vec!["soviet union"] });
    assert(forall|i: int| 0 <= i < 68 ==> country_text(#[trigger] t@[i]) == country_at(i));
    assert(t@.map_values(|c: Country| country_text(c)) =~= country_table());
    t
}


/// Every name a country answers to, lower-cased, before duplicates are dropped.
pub open spec fn all_names(c: CountryText) -> Seq<Seq<char>> {
    (seq![c.1, c.2, c.3] + c.4).map_values(|a: &'static str| lowercased(a@))
}

/// The sequence with every later repeat of a value dropped.
pub open spec fn first_occurrences(s: Seq<Seq<char>>) -> Seq<Seq<char>>
    decreases s.len(),
{
    if s.len() == 0 {
        seq![]
    } else {
        let init = first_occurrences(s.drop_last());
        if init.contains(s.last()) {
            init
        } else {
            init.push(s.last())
        }
    }
}

/// Every name a country answers to, lower-cased; a name shared by two
/// languages is listed once.
pub open spec fn country_names(c: CountryText) -> Seq<Seq<char>> {
    first_occurrences(all_names(c))
}

/// The country's names before duplicates are dropped, lower-cased.
fn lowercase_names(c: &Country) -> (r: Vec<String>)
    ensures
        string_views(r@) == all_names(country_text(*c)),
{
    let mut all: Vec<&'static str> = Vec::new();
    all.push(c.en);
    all.push(c.ru);
    all.push(c.uk);
    let mut i: usize = 0;
    while i < c.aliases.len()
        invariant
            i <= c.aliases@.len(),
            all@ =~= seq![c.en, c.ru, c.uk] + c.aliases@.subrange(0, i as int),
        decreases c.aliases.len() - i,
    {
        all.push(c.aliases[i]);
        i += 1;
    }
    assert(c.aliases@.subrange(0, c.aliases@.len() as int) =~= c.aliases@);
    let mut r: Vec<String> = Vec::new();
    let mut k: usize = 0;
    while k < all.len()
        invariant
            k <= all@.len(),
            all@ == seq![c.en, c.ru, c.uk] + c.aliases@,
            string_views(r@) =~= all@.subrange(0, k as int).map_values(
                |a: &'static str| lowercased(a@),
            ),
        decreases all.len() - k,
    {
        let ghost before = r@;
        let l = to_lowercase(all[k]);
        r.push(l);
        assert(string_views(r@) =~= string_views(before).push(lowercased(all@[k as int]@)));
        assert(all@.subrange(0, k + 1).map_values(|a: &'static str| lowercased(a@)) =~= all@.subrange(
            0,
            k as int,
        ).map_values(|a: &'static str| lowercased(a@)).push(lowercased(all@[k as int]@)));
        k += 1;
    }
    assert(all@.subrange(0, all@.len() as int) =~= all@);
    r
}

pub(crate) fn contains_name(names: &Vec<String>, name: &Vec<char>) -> (r: bool)
    ensures
        r == string_views(names@).contains(name@),
{
    let mut i: usize = 0;
    while i < names.len()
        invariant
            i <= names.len(),
            forall|j: int| 0 <= j < i ==> names@[j]@ != name@,
        decreases names.len() - i,
    {
        if same_chars(&chars_of(names[i].as_str()), name) {
            assert(string_views(names@)[i as int] == name@);
            return true;
        }
        i += 1;
    }
    assert(!string_views(names@).contains(name@)) by {
        if string_views(names@).contains(name@) {
            let j = choose|j: int|
                0 <= j < names@.len() && #[trigger] string_views(names@)[j] == name@;
            assert(names@[j]@ == name@);
        }
    }
    false
}

impl Country {
    /// Every name this country answers to, lower-cased, the way [`canonical`]
    /// compares them; a name shared by two languages is listed once.
    pub fn names(&self) -> (r: Vec<String>)
        ensures
            string_views(r@) == country_names(country_text(*self)),
    {
        let all = lowercase_names(self);
        let ghost allv = string_views(all@);
        let mut seen: Vec<String> = Vec::new();
        let mut i: usize = 0;
        while i < all.len()
            invariant
                i <= all@.len(),
                allv == string_views(all@),
                string_views(seen@) =~= first_occurrences(allv.subrange(0, i as int)),
            decreases all.len() - i,
        {
            let name = chars_of(all[i].as_str());
            assert(allv.subrange(0, i + 1).drop_last() =~= allv.subrange(0, i as int));
            assert(allv.subrange(0, i + 1).last() == name@);
            if !contains_name(&seen, &name) {
                seen.push(all[i].clone());
            }
            i += 1;
        }
        assert(allv.subrange(0, allv.len() as int) =~= allv);
        seen
    }
}

/// The country as a front end lists it.
pub struct CountryEntry {
    pub code: &'static str,
    pub name: CountryName,
    pub aliases: Vec<String>,
}

pub struct CountryName {
    pub en: &'static str,
    pub ru: &'static str,
    pub uk: &'static str,
}

/// Every known country, for a front end to offer: each with its code, its
/// names in the three languages, and every name it answers to.
pub fn entries() -> (r: Vec<CountryEntry>)
    ensures
        r@.len() == country_table().len(),
        forall|i: int|
            #![trigger r@[i]]
            0 <= i < r@.len() ==> {
                let c = country_table()[i];
                &&& r@[i].code == c.0
                &&& r@[i].name.en == c.1
                &&& r@[i].name.ru == c.2
                &&& r@[i].name.uk == c.3
                &&& string_views(r@[i].aliases@) == country_names(c)
            },
{
    let table = countries();
    let ghost tv = table@.map_values(|c: Country| country_text(c));
    let mut r: Vec<CountryEntry> = Vec::new();
    let mut i: usize = 0;
    while i < table.len()
        invariant
            i <= table@.len(),
            tv == table@.map_values(|c: Country| country_text(c)),
            tv == country_table(),
            r@.len() == i,
            forall|j: int|
                #![trigger r@[j]]
                0 <= j < i ==> {
                    let c = country_table()[j];
                    &&& r@[j].code == c.0
                    &&& r@[j].name.en == c.1
                    &&& r@[j].name.ru == c.2
                    &&& r@[j].name.uk == c.3
                    &&& string_views(r@[j].aliases@) == country_names(c)
                },
        decreases table.len() - i,
    {
        let c = &table[i];
        assert(country_text(*c) == tv[i as int]);
        r.push(
            CountryEntry {
                code: c.code,
                name: CountryName { en: c.en, ru: c.ru, uk: c.uk },
                aliases: c.names(),
            },
        );
        i += 1;
    }
    r
}

/// The country `name` (already trimmed and lower-cased) refers to: by its
/// code or by any of its names.
pub open spec fn answers_to(c: CountryText, name: Seq<char>) -> bool {
    c.0@ == name || all_names(c).contains(name)
}

/// The code of the first country that answers to the trimmed, lower-cased
/// name, or that name itself when no country does.
pub open spec fn canonical_name(name: Seq<char>) -> Seq<char> {
    let n = lowercased(trimmed(name));
    let t = country_table();
    if exists|i: int| 0 <= i < t.len() && answers_to(t[i], n) {
        let i = choose|i: int|
            0 <= i < t.len() && answers_to(t[i], n) && forall|j: int|
                0 <= j < i ==> !answers_to(t[j], n);
        t[i].0@
    } else {
        n
    }
}

/// The code of the country `name` refers to, or the name itself, trimmed and
/// lower-cased, when no country is known by it.
pub fn canonical(name: &str) -> (r: String)
    ensures
        r@ == canonical_name(name@),
{
    let t = trim(&chars_of(name));
    let ts = string_of(t.as_slice());
    let lower = to_lowercase(ts.as_str());
    let n = chars_of(lower.as_str());
    let table = countries();
    let ghost tv = table@.map_values(|c: Country| country_text(c));
    let mut i: usize = 0;
    while i < table.len()
        invariant
            i <= table@.len(),
            tv == table@.map_values(|c: Country| country_text(c)),
            tv == country_table(),
            n@ == lowercased(trimmed(name@)),
            forall|j: int| 0 <= j < i ==> !answers_to(country_table()[j], n@),
        decreases table.len() - i,
    {
        let c = &table[i];
        assert(country_text(*c) == tv[i as int]);
        let names = lowercase_names(c);
        if same_chars(&chars_of(c.code), &n) || contains_name(&names, &n) {
            proof {
                let k = choose|k: int|
                    0 <= k < country_table().len() && answers_to(country_table()[k], n@) && forall|
                        j: int,
                    | 0 <= j < k ==> !answers_to(country_table()[j], n@);
                if k < i {
                } else if k > i {
                }
            }
            return owned(c.code);
        }
        i += 1;
    }
    lower
}

/// A two-letter code as one number.
pub open spec fn code_key(code: Seq<char>) -> int {
    (code[0] as int) * 0x110000 + (code[1] as int)
}

/// The position in the table of the country whose code has `key`.
pub open spec fn table_position(key: int) -> int {
    if key == 130351219 {
        0
    } else if key == 114753634 {
        1
    } else if key == 127008885 {
        2
    } else if key == 130351201 {
        3
    } else if key == 113639538 {
        4
    } else if key == 111411301 {
        5
    } else if key == 116981876 {
        6
    } else if key == 112525427 {
        7
    } else if key == 118095984 {
        8
    } else if key == 119210098 {
        9
    } else if key == 110297198 {
        10
    } else if key == 116981870 {
        11
    } else if key == 129237106 {
        12
    } else if key == 110297185 {
        13
    } else if key == 108068981 {
        14
    } else if key == 109183090 {
        15
    } else if key == 121438328 {
        16
    } else if key == 108068978 {
        17
    } else if key == 124780652 {
        18
    } else if key == 110297210 {
        19
    } else if key == 128122981 {
        20
    } else if key == 122552431 {
        21
    } else if key == 111411307 {
        22
    } else if key == 113639529 {
        23
    } else if key == 122552428 {
        24
    } else if key == 109183077 {
        25
    } else if key == 116981861 {
        26
    } else if key == 122552442 {
        27
    } else if key == 115867755 {
        28
    } else if key == 129237111 {
        29
    } else if key == 129237096 {
        30
    } else if key == 109183097 {
        31
    } else if key == 119210106 {
        32
    } else if key == 114753637 {
        33
    } else if key == 108068973 {
        34
    } else if key == 108068986 {
        35
    } else if key == 130351226 {
        36
    } else if key == 119210087 {
        37
    } else if key == 121438308 {
        38
    } else if key == 120324212 {
        39
    } else if key == 120324214 {
        40
    } else if key == 112525413 {
        41
    } else if key == 116981868 {
        42
    } else if key == 116981874 {
        43
    } else if key == 112525415 {
        44
    } else if key == 135921761 {
        45
    } else if key == 108068965 {
        46
    } else if key == 128122977 {
        47
    } else if key == 124780651 {
        48
    } else if key == 122552423 {
        49
    } else if key == 108068980 {
        50
    } else if key == 110297192 {
        51
    } else if key == 115867765 {
        52
    } else if key == 114753650 {
        53
    } else if key == 124780660 {
        54
    } else if key == 127008879 {
        55
    } else if key == 109183079 {
        56
    } else if key == 127008883 {
        57
    } else if key == 115867762 {
        58
    } else if key == 128122987 {
        59
    } else if key == 116981875 {
        60
    } else if key == 120324213 {
        61
    } else if key == 110297199 {
        62
    } else if key == 110297196 {
        63
    } else if key == 124780648 {
        64
    } else if key == 116981860 {
        65
    } else if key == 131465326 {
        66
    } else if key == 128122997 {
        67
    } else {
        -1
    }
}

proof fn lemma_code_finds_its_country(k: int)
    requires
        0 <= k < country_table().len(),
    ensures
        country_table()[k].0@.len() == 2,
        table_position(code_key(country_table()[k].0@)) == k,
{
    if k == 0 {
        reveal_strlit("us");
    } else if k == 1 {
        reveal_strlit("gb");
    } else if k == 2 {
        reveal_strlit("ru");
    } else if k == 3 {
        reveal_strlit("ua");
    } else if k == 4 {
        reveal_strlit("fr");
    } else if k == 5 {
        reveal_strlit("de");
    } else if k == 6 {
        reveal_strlit("it");
    } else if k == 7 {
        reveal_strlit("es");
    } else if k == 8 {
        reveal_strlit("jp");
    } else if k == 9 {
        reveal_strlit("kr");
    } else if k == 10 {
        reveal_strlit("cn");
    } else if k == 11 {
        reveal_strlit("in");
    } else if k == 12 {
        reveal_strlit("tr");
    } else if k == 13 {
        reveal_strlit("ca");
    } else if k == 14 {
        reveal_strlit("au");
    } else if k == 15 {
        reveal_strlit("br");
    } else if k == 16 {
        reveal_strlit("mx");
    } else if k == 17 {
        reveal_strlit("ar");
    } else if k == 18 {
        reveal_strlit("pl");
    } else if k == 19 {
        reveal_strlit("cz");
    } else if k == 20 {
        reveal_strlit("se");
    } else if k == 21 {
        reveal_strlit("no");
    } else if k == 22 {
        reveal_strlit("dk");
    } else if k == 23 {
        reveal_strlit("fi");
    } else if k == 24 {
        reveal_strlit("nl");
    } else if k == 25 {
        reveal_strlit("be");
    } else if k == 26 {
        reveal_strlit("ie");
    } else if k == 27 {
        reveal_strlit("nz");
    } else if k == 28 {
        reveal_strlit("hk");
    } else if k == 29 {
        reveal_strlit("tw");
    } else if k == 30 {
        reveal_strlit("th");
    } else if k == 31 {
        reveal_strlit("by");
    } else if k == 32 {
        reveal_strlit("kz");
    } else if k == 33 {
        reveal_strlit("ge");
    } else if k == 34 {
        reveal_strlit("am");
    } else if k == 35 {
        reveal_strlit("az");
    } else if k == 36 {
        reveal_strlit("uz");
    } else if k == 37 {
        reveal_strlit("kg");
    } else if k == 38 {
        reveal_strlit("md");
    } else if k == 39 {
        reveal_strlit("lt");
    } else if k == 40 {
        reveal_strlit("lv");
    } else if k == 41 {
        reveal_strlit("ee");
    } else if k == 42 {
        reveal_strlit("il");
    } else if k == 43 {
        reveal_strlit("ir");
    } else if k == 44 {
        reveal_strlit("eg");
    } else if k == 45 {
        reveal_strlit("za");
    } else if k == 46 {
        reveal_strlit("ae");
    } else if k == 47 {
        reveal_strlit("sa");
    } else if k == 48 {
        reveal_strlit("pk");
    } else if k == 49 {
        reveal_strlit("ng");
    } else if k == 50 {
        reveal_strlit("at");
    } else if k == 51 {
        reveal_strlit("ch");
    } else if k == 52 {
        reveal_strlit("hu");
    } else if k == 53 {
        reveal_strlit("gr");
    } else if k == 54 {
        reveal_strlit("pt");
    } else if k == 55 {
        reveal_strlit("ro");
    } else if k == 56 {
        reveal_strlit("bg");
    } else if k == 57 {
        reveal_strlit("rs");
    } else if k == 58 {
        reveal_strlit("hr");
    } else if k == 59 {
        reveal_strlit("sk");
    } else if k == 60 {
        reveal_strlit("is");
    } else if k == 61 {
        reveal_strlit("lu");
    } else if k == 62 {
        reveal_strlit("co");
    } else if k == 63 {
        reveal_strlit("cl");
    } else if k == 64 {
        reveal_strlit("ph");
    } else if k == 65 {
        reveal_strlit("id");
    } else if k == 66 {
        reveal_strlit("vn");
    } else if k == 67 {
        reveal_strlit("su");
    }
}

/// No two known countries share a code.
pub proof fn law_country_codes_distinct(i: int, j: int)
    requires
        0 <= i < j < country_table().len(),
    ensures
        country_table()[i].0@ != country_table()[j].0@,
{
    lemma_code_finds_its_country(i);
    lemma_code_finds_its_country(j);
}

} // verus!
