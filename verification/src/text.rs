//! Character-sequence helpers shared by every parser in the crate.
//!
//! Text is handled as `Vec<char>` whose view is the `Seq<char>` that the
//! contracts speak of; conversion to and from `str`/`String` happens at the
//! edges through the small wrappers below.

use vstd::prelude::*;
use vstd::string::StringExecFns;

verus! {

/// `s.chars().collect()`: the characters of a string slice.
#[verifier::external_body]
pub fn chars_of(s: &str) -> (v: Vec<char>)
    ensures
        v@ == s@,
{
    s.chars().collect()
}

/// `v.iter().collect()`: the string made of the given characters.
#[verifier::external_body]
pub fn string_of(v: &[char]) -> (s: String)
    ensures
        s@ == v@,
{
    v.iter().collect()
}

/// ASCII lower-casing of one character; every other character is kept.
pub open spec fn ascii_lower(c: char) -> char {
    if 'A' <= c && c <= 'Z' {
        ((c as u32) + 32) as char
    } else {
        c
    }
}

pub open spec fn ascii_lower_seq(s: Seq<char>) -> Seq<char> {
    s.map_values(|c: char| ascii_lower(c))
}

pub fn ascii_lower_char(c: char) -> (r: char)
    ensures
        r == ascii_lower(c),
{
    if 'A' <= c && c <= 'Z' {
        let b: u8 = (c as u8) + 32;
        b as char
    } else {
        c
    }
}

pub fn to_ascii_lowercase(s: &Vec<char>) -> (r: Vec<char>)
    ensures
        r@ == ascii_lower_seq(s@),
{
    let mut r: Vec<char> = Vec::new();
    let mut i: usize = 0;
    while i < s.len()
        invariant
            i <= s.len(),
            r@ =~= ascii_lower_seq(s@.subrange(0, i as int)),
        decreases s.len() - i,
    {
        let c = ascii_lower_char(s[i]);
        r.push(c);
        i += 1;
        assert(r@ =~= ascii_lower_seq(s@.subrange(0, i as int)));
    }
    assert(s@.subrange(0, s.len() as int) =~= s@);
    r
}

/// `needle` occurs in `s` starting at index `i`.
pub open spec fn occurs_at(s: Seq<char>, needle: Seq<char>, i: int) -> bool {
    0 <= i && i + needle.len() <= s.len() && s.subrange(i, i + needle.len()) =~= needle
}

/// `needle` occurs somewhere in `s` (the empty needle occurs everywhere).
pub open spec fn contains_seq(s: Seq<char>, needle: Seq<char>) -> bool {
    exists|i: int| occurs_at(s, needle, i)
}

pub fn matches_at(s: &Vec<char>, needle: &Vec<char>, i: usize) -> (b: bool)
    ensures
        b == occurs_at(s@, needle@, i as int),
{
    if i > s.len() || needle.len() > s.len() - i {
        return false;
    }
    let mut k: usize = 0;
    while k < needle.len()
        invariant
            i + needle.len() <= s.len(),
            k <= needle.len(),
            forall|j: int| 0 <= j < k ==> s@[i + j] == needle@[j],
        decreases needle.len() - k,
    {
        if s[i + k] != needle[k] {
            assert(s@.subrange(i as int, i + needle.len())[k as int] != needle@[k as int]);
            return false;
        }
        k += 1;
    }
    assert(s@.subrange(i as int, i + needle.len()) =~= needle@);
    true
}

/// The first index at which `needle` occurs in `s`.
pub fn find_seq(s: &Vec<char>, needle: &Vec<char>) -> (r: Option<usize>)
    ensures
        match r {
            Some(i) => occurs_at(s@, needle@, i as int) && forall|j: int|
                0 <= j < i ==> !occurs_at(s@, needle@, j),
            None => !contains_seq(s@, needle@),
        },
{
    let mut i: usize = 0;
    while i < s.len()
        invariant
            i <= s.len(),
            forall|j: int| 0 <= j < i ==> !occurs_at(s@, needle@, j),
        decreases s.len() - i,
    {
        if matches_at(s, needle, i) {
            return Some(i);
        }
        i += 1;
    }
    if matches_at(s, needle, i) {
        return Some(i);
    }
    assert forall|j: int| !occurs_at(s@, needle@, j) by {
        if 0 <= j && j <= i {
        }
    }
    None
}

pub fn contains(s: &Vec<char>, needle: &Vec<char>) -> (b: bool)
    ensures
        b == contains_seq(s@, needle@),
{
    find_seq(s, needle).is_some()
}

/// Does the text, ASCII-lower-cased, contain the given literal?
pub fn contains_str(s: &Vec<char>, needle: &str) -> (b: bool)
    ensures
        b == contains_seq(s@, needle@),
{
    let n = chars_of(needle);
    contains(s, &n)
}


/// The characters Rust's `char::is_whitespace` accepts: those with the
/// Unicode `White_Space` property.
pub open spec fn is_ws(c: char) -> bool {
    ('\u{9}' <= c && c <= '\u{d}') || c == ' ' || c == '\u{85}' || c == '\u{a0}'
        || c == '\u{1680}' || ('\u{2000}' <= c && c <= '\u{200a}') || c == '\u{2028}'
        || c == '\u{2029}' || c == '\u{202f}' || c == '\u{205f}' || c == '\u{3000}'
}

pub fn is_whitespace(c: char) -> (b: bool)
    ensures
        b == is_ws(c),
{
    ('\u{9}' <= c && c <= '\u{d}') || c == ' ' || c == '\u{85}' || c == '\u{a0}'
        || c == '\u{1680}' || ('\u{2000}' <= c && c <= '\u{200a}') || c == '\u{2028}'
        || c == '\u{2029}' || c == '\u{202f}' || c == '\u{205f}' || c == '\u{3000}'
}

/// `s` without the leading characters for which `p` holds.
pub open spec fn trim_start_by(s: Seq<char>, p: spec_fn(char) -> bool) -> Seq<char>
    decreases s.len(),
{
    if s.len() > 0 && p(s[0]) {
        trim_start_by(s.drop_first(), p)
    } else {
        s
    }
}

/// `s` without the trailing characters for which `p` holds.
pub open spec fn trim_end_by(s: Seq<char>, p: spec_fn(char) -> bool) -> Seq<char>
    decreases s.len(),
{
    if s.len() > 0 && p(s.last()) {
        trim_end_by(s.drop_last(), p)
    } else {
        s
    }
}

pub open spec fn ws_pred() -> spec_fn(char) -> bool {
    |c: char| is_ws(c)
}

pub open spec fn char_pred(x: char) -> spec_fn(char) -> bool {
    |c: char| c == x
}

/// `str::trim`: the text without leading and trailing white space.
pub open spec fn trimmed(s: Seq<char>) -> Seq<char> {
    trim_end_by(trim_start_by(s, ws_pred()), ws_pred())
}

/// `str::trim_matches(x)` for one character `x`.
pub open spec fn trimmed_char(s: Seq<char>, x: char) -> Seq<char> {
    trim_end_by(trim_start_by(s, char_pred(x)), char_pred(x))
}

pub proof fn lemma_trim_start_step(s: Seq<char>, p: spec_fn(char) -> bool, i: int)
    requires
        0 <= i < s.len(),
        p(s[i]),
    ensures
        trim_start_by(s.subrange(i, s.len() as int), p) == trim_start_by(
            s.subrange(i + 1, s.len() as int),
            p,
        ),
{
    assert(s.subrange(i, s.len() as int).drop_first() =~= s.subrange(i + 1, s.len() as int));
}

pub proof fn lemma_trim_end_step(s: Seq<char>, p: spec_fn(char) -> bool, j: int)
    requires
        0 < j <= s.len(),
        p(s[j - 1]),
    ensures
        trim_end_by(s.subrange(0, j), p) == trim_end_by(s.subrange(0, j - 1), p),
{
    assert(s.subrange(0, j).drop_last() =~= s.subrange(0, j - 1));
}

/// Index of the first character not accepted by `p` (or the length).
fn skip_start(s: &Vec<char>, x: Option<char>) -> (i: usize)
    ensures
        i <= s.len(),
        trim_start_by(s@, pred_of(x)) == s@.subrange(i as int, s.len() as int),
{
    let mut i: usize = 0;
    assert(s@.subrange(0, s.len() as int) =~= s@);
    while i < s.len()
        invariant
            i <= s.len(),
            trim_start_by(s@, pred_of(x)) == trim_start_by(s@.subrange(i as int, s.len() as int), pred_of(x)),
        decreases s.len() - i,
    {
        let hit = match x {
            Some(c) => s[i] == c,
            None => is_whitespace(s[i]),
        };
        if !hit {
            return i;
        }
        proof {
            lemma_trim_start_step(s@, pred_of(x), i as int);
        }
        i += 1;
    }
    assert(s@.subrange(i as int, s.len() as int) =~= Seq::<char>::empty());
    i
}

/// The predicate a trim uses: white space, or one given character.
pub open spec fn pred_of(x: Option<char>) -> spec_fn(char) -> bool {
    match x {
        Some(c) => char_pred(c),
        None => ws_pred(),
    }
}

fn skip_end(s: &Vec<char>, from: usize, x: Option<char>) -> (j: usize)
    requires
        from <= s.len(),
    ensures
        from <= j <= s.len(),
        trim_end_by(s@.subrange(from as int, s.len() as int), pred_of(x)) == s@.subrange(
            from as int,
            j as int,
        ),
{
    let ghost t = s@.subrange(from as int, s.len() as int);
    let mut j: usize = s.len();
    assert(t.subrange(0, t.len() as int) =~= t);
    while j > from
        invariant
            from <= j <= s.len(),
            t == s@.subrange(from as int, s.len() as int),
            trim_end_by(t, pred_of(x)) == trim_end_by(t.subrange(0, j - from), pred_of(x)),
        decreases j,
    {
        let hit = match x {
            Some(c) => s[j - 1] == c,
            None => is_whitespace(s[j - 1]),
        };
        if !hit {
            assert(t.subrange(0, j - from) =~= s@.subrange(from as int, j as int));
            return j;
        }
        proof {
            lemma_trim_end_step(t, pred_of(x), j - from);
        }
        j -= 1;
    }
    assert(t.subrange(0, 0) =~= s@.subrange(from as int, from as int));
    j
}

pub fn slice_vec(s: &Vec<char>, from: usize, to: usize) -> (r: Vec<char>)
    requires
        from <= to <= s.len(),
    ensures
        r@ == s@.subrange(from as int, to as int),
{
    let mut r: Vec<char> = Vec::new();
    let mut i = from;
    while i < to
        invariant
            from <= i <= to,
            to <= s.len(),
            r@ =~= s@.subrange(from as int, i as int),
        decreases to - i,
    {
        r.push(s[i]);
        i += 1;
    }
    r
}

/// `str::trim`.
pub fn trim(s: &Vec<char>) -> (r: Vec<char>)
    ensures
        r@ == trimmed(s@),
{
    let i = skip_start(s, None);
    let j = skip_end(s, i, None);
    slice_vec(s, i, j)
}

/// `str::trim_matches(c)`.
pub fn trim_char(s: &Vec<char>, c: char) -> (r: Vec<char>)
    ensures
        r@ == trimmed_char(s@, c),
{
    let i = skip_start(s, Some(c));
    let j = skip_end(s, i, Some(c));
    slice_vec(s, i, j)
}

/// `str::trim_start_matches(c)`.
pub fn trim_start_char(s: &Vec<char>, c: char) -> (r: Vec<char>)
    ensures
        r@ == trim_start_by(s@, char_pred(c)),
{
    let i = skip_start(s, Some(c));
    slice_vec(s, i, s.len())
}

/// `str::trim_end_matches(c)`.
pub fn trim_end_char(s: &Vec<char>, c: char) -> (r: Vec<char>)
    ensures
        r@ == trim_end_by(s@, char_pred(c)),
{
    let j = skip_end(s, 0, Some(c));
    assert(s@.subrange(0, s.len() as int) =~= s@);
    slice_vec(s, 0, j)
}

/// The views of a sequence of character vectors.
pub open spec fn views(v: Seq<Vec<char>>) -> Seq<Seq<char>> {
    v.map_values(|x: Vec<char>| x@)
}

/// `str::split(c)`: the pieces between occurrences of `c`, in order; there
/// is always at least one piece.
pub open spec fn split_on(s: Seq<char>, c: char) -> Seq<Seq<char>>
    decreases s.len(),
{
    if s.len() == 0 {
        seq![Seq::<char>::empty()]
    } else {
        let init = split_on(s.drop_last(), c);
        if s.last() == c {
            init.push(Seq::<char>::empty())
        } else {
            init.update(init.len() - 1, init.last().push(s.last()))
        }
    }
}

pub proof fn lemma_split_on_nonempty(s: Seq<char>, c: char)
    ensures
        split_on(s, c).len() >= 1,
    decreases s.len(),
{
    if s.len() > 0 {
        lemma_split_on_nonempty(s.drop_last(), c);
    }
}

pub fn split_char(s: &Vec<char>, c: char) -> (r: Vec<Vec<char>>)
    ensures
        views(r@) == split_on(s@, c),
        r@.len() >= 1,
{
    let mut parts: Vec<Vec<char>> = Vec::new();
    let mut cur: Vec<char> = Vec::new();
    let mut i: usize = 0;
    while i < s.len()
        invariant
            i <= s.len(),
            views(parts@).push(cur@) =~= split_on(s@.subrange(0, i as int), c),
        decreases s.len() - i,
    {
        proof {
            lemma_split_on_nonempty(s@.subrange(0, i as int), c);
            assert(s@.subrange(0, i + 1).drop_last() =~= s@.subrange(0, i as int));
        }
        if s[i] == c {
            parts.push(cur);
            cur = Vec::new();
        } else {
            cur.push(s[i]);
        }
        i += 1;
        assert(views(parts@).push(cur@) =~= split_on(s@.subrange(0, i as int), c));
    }
    parts.push(cur);
    assert(s@.subrange(0, s.len() as int) =~= s@);
    assert(views(parts@) =~= split_on(s@, c));
    parts
}

pub open spec fn is_digit(c: char) -> bool {
    '0' <= c && c <= '9'
}

pub open spec fn all_digits(s: Seq<char>) -> bool {
    forall|i: int| 0 <= i < s.len() ==> is_digit(#[trigger] s[i])
}

/// The value of a run of decimal digits.
pub open spec fn digits_value(s: Seq<char>) -> nat
    decreases s.len(),
{
    if s.len() == 0 {
        0
    } else {
        digits_value(s.drop_last()) * 10 + ((s.last() as nat) - ('0' as nat)) as nat
    }
}

pub proof fn lemma_digits_value_grows(s: Seq<char>, i: int, j: int)
    requires
        0 <= i <= j <= s.len(),
        all_digits(s),
    ensures
        digits_value(s.subrange(0, i)) <= digits_value(s.subrange(0, j)),
    decreases j - i,
{
    if i < j {
        lemma_digits_value_grows(s, i, j - 1);
        assert(s.subrange(0, j).drop_last() =~= s.subrange(0, j - 1));
        assert(is_digit(s[j - 1]));
    }
}

/// What Rust's integer parsing accepts: an optional sign and at least one
/// ASCII digit; `None` when the text is not a number.
pub open spec fn parsed_int(s: Seq<char>) -> Option<int> {
    let neg = s.len() > 0 && s[0] == '-';
    let body = if s.len() > 0 && (s[0] == '-' || s[0] == '+') {
        s.drop_first()
    } else {
        s
    };
    if body.len() == 0 || !all_digits(body) {
        None
    } else if neg {
        Some(-(digits_value(body) as int))
    } else {
        Some(digits_value(body) as int)
    }
}

/// `str::parse::<i64>()`.
pub open spec fn parsed_i64(s: Seq<char>) -> Option<i64> {
    match parsed_int(s) {
        Some(v) => if i64::MIN <= v <= i64::MAX {
            Some(v as i64)
        } else {
            None
        },
        None => None,
    }
}

/// What Rust's unsigned parsing accepts: an optional `+` and at least one
/// ASCII digit.
pub open spec fn parsed_nat(s: Seq<char>) -> Option<nat> {
    let body = if s.len() > 0 && s[0] == '+' {
        s.drop_first()
    } else {
        s
    };
    if body.len() == 0 || !all_digits(body) {
        None
    } else {
        Some(digits_value(body))
    }
}

/// `str::parse::<u64>()`.
pub open spec fn parsed_u64(s: Seq<char>) -> Option<u64> {
    match parsed_nat(s) {
        Some(v) => if v <= u64::MAX {
            Some(v as u64)
        } else {
            None
        },
        None => None,
    }
}

/// The value of `s[from..]` as digits, if every character there is a digit
/// and the value does not exceed `limit`.
fn digits_upto(s: &Vec<char>, from: usize, limit: u64) -> (r: Option<u64>)
    requires
        from <= s.len(),
    ensures
        match r {
            Some(v) => all_digits(s@.subrange(from as int, s.len() as int)) && v == digits_value(
                s@.subrange(from as int, s.len() as int),
            ) && v <= limit,
            None => !all_digits(s@.subrange(from as int, s.len() as int)) || digits_value(
                s@.subrange(from as int, s.len() as int),
            ) > limit,
        },
{
    let ghost body = s@.subrange(from as int, s.len() as int);
    let mut v: u64 = 0;
    let mut i: usize = from;
    while i < s.len()
        invariant
            from <= i <= s.len(),
            body == s@.subrange(from as int, s.len() as int),
            all_digits(body.subrange(0, i - from)),
            v == digits_value(body.subrange(0, i - from)),
            v <= limit,
        decreases s.len() - i,
    {
        let c = s[i];
        if !('0' <= c && c <= '9') {
            assert(!is_digit(body[i - from]));
            return None;
        }
        let d: u64 = (c as u32 - '0' as u32) as u64;
        assert(body.subrange(0, i + 1 - from).drop_last() =~= body.subrange(0, i - from));
        if d > limit || v > (limit - d) / 10 {
            proof {
                assert(all_digits(body.subrange(0, i + 1 - from)));
                assert(digits_value(body.subrange(0, i + 1 - from)) == v * 10 + d);
                if d <= limit {
                    assert(v * 10 + d > limit) by (nonlinear_arith)
                        requires
                            v > (limit - d) / 10,
                            d <= limit,
                    ;
                }
                if all_digits(body) {
                    lemma_digits_value_grows(body, i + 1 - from, body.len() as int);
                    assert(body.subrange(0, body.len() as int) =~= body);
                }
            }
            return None;
        }
        proof {
            assert(v * 10 + d <= limit) by (nonlinear_arith)
                requires
                    v <= (limit - d) / 10,
                    d <= limit,
            ;
        }
        v = v * 10 + d;
        i += 1;
        assert(all_digits(body.subrange(0, i - from)));
    }
    assert(body.subrange(0, s.len() - from) =~= body);
    Some(v)
}

/// `str::parse::<u64>()`.
pub fn parse_u64(s: &Vec<char>) -> (r: Option<u64>)
    ensures
        r == parsed_u64(s@),
{
    let from: usize = if s.len() > 0 && s[0] == '+' {
        1
    } else {
        0
    };
    assert(from == 1 ==> s@.drop_first() =~= s@.subrange(1, s.len() as int));
    assert(from == 0 ==> s@ =~= s@.subrange(0, s.len() as int));
    if from == s.len() {
        return None;
    }
    digits_upto(s, from, u64::MAX)
}

/// `str::parse::<i64>()`.
pub fn parse_i64(s: &Vec<char>) -> (r: Option<i64>)
    ensures
        r == parsed_i64(s@),
{
    let neg = s.len() > 0 && s[0] == '-';
    let from: usize = if s.len() > 0 && (s[0] == '-' || s[0] == '+') {
        1
    } else {
        0
    };
    assert(from == 1 ==> s@.drop_first() =~= s@.subrange(1, s.len() as int));
    assert(from == 0 ==> s@ =~= s@.subrange(0, s.len() as int));
    if from == s.len() {
        return None;
    }
    let limit: u64 = if neg {
        9223372036854775808
    } else {
        9223372036854775807
    };
    match digits_upto(s, from, limit) {
        Some(v) => {
            if neg {
                if v == 9223372036854775808 {
                    Some(i64::MIN)
                } else {
                    Some(-(v as i64))
                }
            } else {
                Some(v as i64)
            }
        },
        None => None,
    }
}


/// Two character runs are equal.
pub fn same_chars(a: &Vec<char>, b: &Vec<char>) -> (r: bool)
    ensures
        r == (a@ == b@),
{
    if a.len() != b.len() {
        return false;
    }
    let mut i: usize = 0;
    while i < a.len()
        invariant
            i <= a.len(),
            a.len() == b.len(),
            forall|j: int| 0 <= j < i ==> a@[j] == b@[j],
        decreases a.len() - i,
    {
        if a[i] != b[i] {
            return false;
        }
        i += 1;
    }
    assert(a@ =~= b@);
    true
}

/// The characters equal a literal.
pub fn is_str(a: &Vec<char>, lit: &str) -> (r: bool)
    ensures
        r == (a@ == lit@),
{
    let b = chars_of(lit);
    same_chars(a, &b)
}

/// What `str::to_lowercase` makes of a text: Unicode lower-casing.
pub uninterp spec fn lowercased(s: Seq<char>) -> Seq<char>;

/// `str::to_lowercase`.
#[verifier::external_body]
pub fn to_lowercase(s: &str) -> (r: String)
    ensures
        r@ == lowercased(s@),
{
    s.to_lowercase()
}

/// The first match of the regular expression `pattern` in `text`, as the
/// `regex` crate finds it (leftmost, then first alternative); nothing when
/// there is none or `pattern` does not compile.
pub uninterp spec fn regex_first_match(pattern: Seq<char>, text: Seq<char>) -> Option<Seq<char>>;

/// `regex::Regex::new(pattern)` and `Regex::find` on `text`: the text of
/// the first match.
#[verifier::external_body]
pub(crate) fn regex_find(pattern: &str, text: &str) -> (r: Option<String>)
    ensures
        opt_view(r) == regex_first_match(pattern@, text@),
{
    match regex::Regex::new(pattern) {
        Ok(re) => re.find(text).map(|m| m.as_str().to_string()),
        Err(_) => None,
    }
}

/// What capture group `group` of the first match of the regular expression
/// `pattern` in `text` took; nothing when there is no match, the group took
/// no part in it, or `pattern` does not compile.
pub uninterp spec fn regex_first_group(pattern: Seq<char>, text: Seq<char>, group: usize) -> Option<Seq<char>>;

/// `regex::Regex::new(pattern)`, `Regex::captures` on `text` and
/// `Captures::get(group)`: the text the group took.
#[verifier::external_body]
pub(crate) fn regex_group(pattern: &str, text: &str, group: usize) -> (r: Option<String>)
    ensures
        opt_view(r) == regex_first_group(pattern@, text@, group),
{
    match regex::Regex::new(pattern) {
        Ok(re) => re.captures(text).and_then(|c| c.get(group)).map(|m| m.as_str().to_string()),
        Err(_) => None,
    }
}

/// Whether `char::is_alphanumeric` accepts a character: Unicode
/// `Alphabetic` or numeric.
pub uninterp spec fn alphanumeric(c: char) -> bool;

/// `char::is_alphanumeric`.
#[verifier::external_body]
pub fn is_alphanumeric(c: char) -> (r: bool)
    ensures
        r == alphanumeric(c),
{
    c.is_alphanumeric()
}

/// The pieces of `s` between characters that `sep` accepts.
pub open spec fn split_by(s: Seq<char>, sep: spec_fn(char) -> bool) -> Seq<Seq<char>>
    decreases s.len(),
{
    if s.len() == 0 {
        seq![Seq::<char>::empty()]
    } else {
        let init = split_by(s.drop_last(), sep);
        if sep(s.last()) {
            init.push(Seq::<char>::empty())
        } else {
            init.update(init.len() - 1, init.last().push(s.last()))
        }
    }
}

pub proof fn lemma_split_by_nonempty(s: Seq<char>, sep: spec_fn(char) -> bool)
    ensures
        split_by(s, sep).len() >= 1,
    decreases s.len(),
{
    if s.len() > 0 {
        lemma_split_by_nonempty(s.drop_last(), sep);
    }
}

/// The non-empty runs among `v`, in order.
pub open spec fn nonempty_runs(v: Seq<Seq<char>>) -> Seq<Seq<char>>
    decreases v.len(),
{
    if v.len() == 0 {
        seq![]
    } else {
        let init = nonempty_runs(v.drop_last());
        if v.last().len() > 0 {
            init.push(v.last())
        } else {
            init
        }
    }
}

pub open spec fn not_alphanumeric() -> spec_fn(char) -> bool {
    |c: char| !alphanumeric(c)
}

/// The words of a text: its maximal runs of alphanumeric characters.
pub open spec fn words(s: Seq<char>) -> Seq<Seq<char>> {
    nonempty_runs(split_by(s, not_alphanumeric()))
}

/// `s.split(|c| !c.is_alphanumeric()).filter(|w| !w.is_empty())`.
pub fn split_words(s: &Vec<char>) -> (r: Vec<Vec<char>>)
    ensures
        views(r@) == words(s@),
{
    let mut out: Vec<Vec<char>> = Vec::new();
    let mut cur: Vec<char> = Vec::new();
    let mut i: usize = 0;
    let ghost sep = not_alphanumeric();
    while i < s.len()
        invariant
            i <= s.len(),
            sep == not_alphanumeric(),
            split_by(s@.subrange(0, i as int), sep).len() >= 1,
            views(out@) =~= nonempty_runs(split_by(s@.subrange(0, i as int), sep).drop_last()),
            cur@ == split_by(s@.subrange(0, i as int), sep).last(),
        decreases s.len() - i,
    {
        let ghost prev = split_by(s@.subrange(0, i as int), sep);
        proof {
            assert(s@.subrange(0, i + 1).drop_last() =~= s@.subrange(0, i as int));
        }
        if !is_alphanumeric(s[i]) {
            if cur.len() > 0 {
                out.push(cur);
            }
            cur = Vec::new();
            proof {
                let next = split_by(s@.subrange(0, i + 1), sep);
                assert(next =~= prev.push(Seq::<char>::empty()));
                assert(next.drop_last() =~= prev);
                assert(prev =~= prev.drop_last().push(prev.last()));
            }
        } else {
            cur.push(s[i]);
            proof {
                let next = split_by(s@.subrange(0, i + 1), sep);
                assert(next.drop_last() =~= prev.drop_last());
            }
        }
        i += 1;
        proof {
            lemma_split_by_nonempty(s@.subrange(0, i as int), sep);
        }
    }
    let ghost all = split_by(s@.subrange(0, i as int), sep);
    proof {
        assert(all =~= all.drop_last().push(all.last()));
    }
    if cur.len() > 0 {
        out.push(cur);
    }
    assert(s@.subrange(0, s.len() as int) =~= s@);
    assert(views(out@) =~= words(s@));
    out
}


/// An owned copy of a string slice.
pub fn owned(s: &str) -> (r: String)
    ensures
        r@ == s@,
{
    String::from_str(s)
}

/// The character of a decimal digit.
pub open spec fn digit_char(d: nat) -> char {
    (('0' as nat) + d) as char
}

/// The decimal spelling of a number, as `to_string` writes it.
pub open spec fn decimal(n: nat) -> Seq<char>
    decreases n,
{
    if n < 10 {
        seq![digit_char(n)]
    } else {
        decimal(n / 10).push(digit_char(n % 10))
    }
}

/// `n.to_string()` for an unsigned number, as characters.
pub fn decimal_chars(n: u64) -> (r: Vec<char>)
    ensures
        r@ == decimal(n as nat),
    decreases n,
{
    if n < 10 {
        let c: char = ((n as u8) + 48) as char;
        assert(c == digit_char(n as nat));
        let mut v: Vec<char> = Vec::new();
        v.push(c);
        assert(v@ =~= decimal(n as nat));
        v
    } else {
        let mut v = decimal_chars(n / 10);
        let d: u8 = (n % 10) as u8;
        let c: char = (d + 48) as char;
        assert(c == digit_char((n % 10) as nat));
        v.push(c);
        v
    }
}

/// `n.to_string()` for a 128-bit unsigned number, as characters.
pub fn decimal_chars_u128(n: u128) -> (r: Vec<char>)
    ensures
        r@ == decimal(n as nat),
    decreases n,
{
    if n < 10 {
        let c: char = ((n as u8) + 48) as char;
        assert(c == digit_char(n as nat));
        let mut v: Vec<char> = Vec::new();
        v.push(c);
        assert(v@ =~= decimal(n as nat));
        v
    } else {
        let mut v = decimal_chars_u128(n / 10);
        let d: u8 = (n % 10) as u8;
        let c: char = (d + 48) as char;
        assert(c == digit_char((n % 10) as nat));
        v.push(c);
        v
    }
}

/// The first index of a character.
pub fn find_char(s: &Vec<char>, c: char) -> (r: Option<usize>)
    ensures
        match r {
            Some(i) => i < s@.len() && s@[i as int] == c && forall|j: int| 0 <= j < i ==> s@[j] != c,
            None => forall|j: int| 0 <= j < s@.len() ==> s@[j] != c,
        },
{
    let mut i: usize = 0;
    while i < s.len()
        invariant
            i <= s.len(),
            forall|j: int| 0 <= j < i ==> s@[j] != c,
        decreases s.len() - i,
    {
        if s[i] == c {
            return Some(i);
        }
        i += 1;
    }
    None
}

/// The index of the first occurrence of `c` in `s`, if any.
pub open spec fn first_index(s: Seq<char>, c: char) -> Option<int> {
    if exists|i: int| 0 <= i < s.len() && s[i] == c {
        Some(choose|i: int| 0 <= i < s.len() && s[i] == c && forall|j: int| 0 <= j < i ==> s[j] != c)
    } else {
        None
    }
}

pub proof fn lemma_first_index(s: Seq<char>, c: char, i: int)
    requires
        0 <= i < s.len(),
        s[i] == c,
        forall|j: int| 0 <= j < i ==> s[j] != c,
    ensures
        first_index(s, c) == Some(i),
{
    let k = choose|k: int| 0 <= k < s.len() && s[k] == c && forall|j: int| 0 <= j < k ==> s[j] != c;
    if k < i {
        assert(s[k] != c);
    } else if k > i {
        assert(s[i] != c);
    }
}

/// Appends the characters of a literal.
pub fn push_str(v: &mut Vec<char>, lit: &str)
    ensures
        final(v)@ == old(v)@ + lit@,
{
    let mut add = chars_of(lit);
    v.append(&mut add);
}

/// Appends characters.
pub fn push_all(v: &mut Vec<char>, more: &Vec<char>)
    ensures
        final(v)@ == old(v)@ + more@,
{
    let mut i: usize = 0;
    let ghost start = v@;
    while i < more.len()
        invariant
            i <= more.len(),
            v@ =~= start + more@.subrange(0, i as int),
        decreases more.len() - i,
    {
        v.push(more[i]);
        i += 1;
    }
    assert(more@.subrange(0, more@.len() as int) =~= more@);
}

/// Text starts with a literal.
pub open spec fn starts_with(s: Seq<char>, p: Seq<char>) -> bool {
    p.len() <= s.len() && s.subrange(0, p.len() as int) =~= p
}

pub fn has_prefix(s: &Vec<char>, lit: &str) -> (r: bool)
    ensures
        r == starts_with(s@, lit@),
{
    let p = chars_of(lit);
    matches_at(s, &p, 0)
}

/// ASCII-case-insensitive equality, as `str::eq_ignore_ascii_case` decides it.
pub open spec fn eq_ignore_case(a: Seq<char>, b: Seq<char>) -> bool {
    ascii_lower_seq(a) == ascii_lower_seq(b)
}

pub fn eq_ignore_ascii_case(a: &Vec<char>, b: &Vec<char>) -> (r: bool)
    ensures
        r == eq_ignore_case(a@, b@),
{
    let la = to_ascii_lowercase(a);
    let lb = to_ascii_lowercase(b);
    same_chars(&la, &lb)
}


/// The texts of a sequence of strings.
pub open spec fn string_views(v: Seq<String>) -> Seq<Seq<char>> {
    v.map_values(|s: String| s@)
}


/// What `str::to_uppercase` makes of a text: Unicode upper-casing.
pub uninterp spec fn uppercased(s: Seq<char>) -> Seq<char>;

/// `str::to_uppercase`.
#[verifier::external_body]
pub fn to_uppercase(s: &str) -> (r: String)
    ensures
        r@ == uppercased(s@),
{
    s.to_uppercase()
}

/// The index of the first occurrence of `needle` in `s`, if any.
pub open spec fn first_occurrence(s: Seq<char>, needle: Seq<char>) -> Option<int> {
    if contains_seq(s, needle) {
        Some(
            choose|i: int|
                occurs_at(s, needle, i) && forall|j: int| 0 <= j < i ==> !occurs_at(s, needle, j),
        )
    } else {
        None
    }
}

pub proof fn lemma_first_occurrence(s: Seq<char>, needle: Seq<char>, i: int)
    requires
        occurs_at(s, needle, i),
        forall|j: int| 0 <= j < i ==> !occurs_at(s, needle, j),
    ensures
        first_occurrence(s, needle) == Some(i),
{
    let k = choose|k: int|
        occurs_at(s, needle, k) && forall|j: int| 0 <= j < k ==> !occurs_at(s, needle, j);
    if k < i {
        assert(!occurs_at(s, needle, k));
    } else if k > i {
        assert(!occurs_at(s, needle, i));
    }
}

/// `str::split(sep)` for a non-empty separator: the pieces between its
/// leftmost, non-overlapping occurrences.
#[verifier::opaque]
pub open spec fn split_at_str(s: Seq<char>, sep: Seq<char>) -> Seq<Seq<char>>
    decreases s.len(),
{
    if sep.len() == 0 {
        seq![s]
    } else {
        match first_occurrence(s, sep) {
            Some(i) => if 0 <= i && i + sep.len() <= s.len() {
                seq![s.subrange(0, i)] + split_at_str(s.subrange(i + sep.len(), s.len() as int), sep)
            } else {
                seq![s]
            },
            None => seq![s],
        }
    }
}

proof fn lemma_split_at_step(s: Seq<char>, sep: Seq<char>, i: int)
    requires
        sep.len() > 0,
        occurs_at(s, sep, i),
        forall|j: int| 0 <= j < i ==> !occurs_at(s, sep, j),
    ensures
        split_at_str(s, sep) == seq![s.subrange(0, i)] + split_at_str(
            s.subrange(i + sep.len(), s.len() as int),
            sep,
        ),
{
    lemma_first_occurrence(s, sep, i);
    reveal(split_at_str);
}

proof fn lemma_split_at_end(s: Seq<char>, sep: Seq<char>)
    requires
        sep.len() > 0,
        !contains_seq(s, sep),
    ensures
        split_at_str(s, sep) == seq![s],
{
    reveal(split_at_str);
}

/// `str::split(sep)` for a literal, non-empty separator.
pub fn split_str(s: &Vec<char>, sep: &str) -> (r: Vec<Vec<char>>)
    requires
        sep@.len() > 0,
    ensures
        views(r@) == split_at_str(s@, sep@),
{
    let needle = chars_of(sep);
    let mut parts: Vec<Vec<char>> = Vec::new();
    let mut rest: Vec<char> = s.clone();
    while true
        invariant
            needle@ == sep@,
            needle@.len() > 0,
            views(parts@) + split_at_str(rest@, sep@) == split_at_str(s@, sep@),
        decreases rest@.len(),
    {
        match find_seq(&rest, &needle) {
            Some(i) => {
                proof {
                    lemma_split_at_step(rest@, sep@, i as int);
                }
                assert(i + needle@.len() <= rest@.len());
                assert(i + needle.len() <= rest.len());
                let piece = slice_vec(&rest, 0, i);
                let next = slice_vec(&rest, i + needle.len(), rest.len());
                let ghost prev = views(parts@);
                parts.push(piece);
                assert(views(parts@) =~= prev.push(rest@.subrange(0, i as int)));
                assert(views(parts@) + split_at_str(next@, sep@) =~= prev + split_at_str(rest@, sep@));
                rest = next;
            },
            None => {
                proof {
                    lemma_split_at_end(rest@, sep@);
                }
                let ghost prev = views(parts@);
                parts.push(rest);
                assert(views(parts@) =~= prev + seq![rest@]);
                return parts;
            },
        }
    }
    parts
}

/// The text an optional string holds.
pub open spec fn opt_view(o: Option<String>) -> Option<Seq<char>> {
    match o {
        Some(s) => Some(s@),
        None => None,
    }
}


/// `str::trim_end_matches` with a text pattern: every copy of `suffix` at
/// the end removed, one after the other.
pub open spec fn trim_end_seq(s: Seq<char>, suffix: Seq<char>) -> Seq<char>
    decreases s.len(),
{
    if suffix.len() > 0 && suffix.len() <= s.len() && s.subrange(s.len() - suffix.len(), s.len() as int)
        == suffix {
        trim_end_seq(s.subrange(0, s.len() - suffix.len()), suffix)
    } else {
        s
    }
}

pub fn trim_end_lit(s: &Vec<char>, suffix: &str) -> (r: Vec<char>)
    ensures
        r@ == trim_end_seq(s@, suffix@),
{
    let suf = chars_of(suffix);
    let mut end: usize = s.len();
    assert(s@.subrange(0, end as int) =~= s@);
    while suf.len() > 0 && suf.len() <= end && matches_at(s, &suf, end - suf.len())
        invariant
            end <= s@.len(),
            suf@ == suffix@,
            trim_end_seq(s@.subrange(0, end as int), suffix@) == trim_end_seq(s@, suffix@),
        decreases end,
    {
        let ghost cur = s@.subrange(0, end as int);
        assert(cur.subrange(cur.len() - suf@.len(), cur.len() as int) =~= s@.subrange(
            end - suf@.len(),
            end as int,
        ));
        assert(cur.subrange(0, cur.len() - suf@.len()) =~= s@.subrange(0, end - suf@.len()));
        end = end - suf.len();
    }
    proof {
        let cur = s@.subrange(0, end as int);
        if suf@.len() > 0 && suf@.len() <= end {
            assert(cur.subrange(cur.len() - suf@.len(), cur.len() as int) =~= s@.subrange(
                end - suf@.len(),
                end as int,
            ));
        }
    }
    slice_vec(s, 0, end)
}

/// The index of the last occurrence of `c` in `s`, if any.
pub open spec fn last_index(s: Seq<char>, c: char) -> Option<int> {
    if exists|i: int| 0 <= i < s.len() && s[i] == c {
        Some(choose|i: int| 0 <= i < s.len() && s[i] == c && forall|j: int| i < j < s.len() ==> s[j] != c)
    } else {
        None
    }
}

pub proof fn lemma_last_index(s: Seq<char>, c: char, i: int)
    requires
        0 <= i < s.len(),
        s[i] == c,
        forall|j: int| i < j < s.len() ==> s[j] != c,
    ensures
        last_index(s, c) == Some(i),
{
    let k = choose|k: int| 0 <= k < s.len() && s[k] == c && forall|j: int| k < j < s.len() ==> s[j] != c;
    if k < i {
        assert(s[i] != c);
    } else if k > i {
        assert(s[k] != c);
    }
}

/// `str::rfind` for a character.
pub fn rfind_char(s: &Vec<char>, c: char) -> (r: Option<usize>)
    ensures
        match r {
            Some(i) => i < s@.len() && last_index(s@, c) == Some(i as int),
            None => last_index(s@, c) is None,
        },
{
    let mut i: usize = s.len();
    while i > 0
        invariant
            i <= s@.len(),
            forall|j: int| i <= j < s@.len() ==> s@[j] != c,
        decreases i,
    {
        if s[i - 1] == c {
            proof {
                lemma_last_index(s@, c, i - 1);
            }
            return Some(i - 1);
        }
        i -= 1;
    }
    None
}

/// `str::replace` with a non-empty pattern: every occurrence of `pat`,
/// read from the left without overlaps, replaced by `rep`.
pub open spec fn replaced(s: Seq<char>, pat: Seq<char>, rep: Seq<char>) -> Seq<char>
    decreases s.len(),
{
    if s.len() == 0 {
        seq![]
    } else if pat.len() > 0 && starts_with(s, pat) {
        rep + replaced(s.subrange(pat.len() as int, s.len() as int), pat, rep)
    } else {
        seq![s[0]] + replaced(s.subrange(1, s.len() as int), pat, rep)
    }
}

pub fn replace_lit(s: &Vec<char>, pat: &str, rep: &str) -> (r: Vec<char>)
    ensures
        r@ == replaced(s@, pat@, rep@),
{
    let p = chars_of(pat);
    let q = chars_of(rep);
    let mut out: Vec<char> = Vec::new();
    let mut i: usize = 0;
    assert(s@.subrange(0, s@.len() as int) =~= s@);
    while i < s.len()
        invariant
            i <= s@.len(),
            p@ == pat@,
            q@ == rep@,
            out@ + replaced(s@.subrange(i as int, s@.len() as int), pat@, rep@) == replaced(s@, pat@, rep@),
        decreases s.len() - i,
    {
        let ghost rest = s@.subrange(i as int, s@.len() as int);
        let ghost prev = out@;
        if p.len() > 0 && matches_at(s, &p, i) {
            assert(starts_with(rest, p@)) by {
                assert(rest.subrange(0, p@.len() as int) =~= s@.subrange(i as int, i + p@.len()));
            }
            assert(rest.subrange(p@.len() as int, rest.len() as int) =~= s@.subrange(
                i + p@.len(),
                s@.len() as int,
            ));
            push_all(&mut out, &q);
            i = i + p.len();
            assert(out@ + replaced(s@.subrange(i as int, s@.len() as int), pat@, rep@) =~= prev
                + replaced(rest, pat@, rep@));
        } else {
            assert(!(p@.len() > 0 && starts_with(rest, p@))) by {
                if p@.len() > 0 && starts_with(rest, p@) {
                    assert(rest.subrange(0, p@.len() as int) =~= s@.subrange(i as int, i + p@.len()));
                    assert(occurs_at(s@, p@, i as int));
                }
            }
            assert(rest.subrange(1, rest.len() as int) =~= s@.subrange(i + 1, s@.len() as int));
            out.push(s[i]);
            i += 1;
            assert(out@ + replaced(s@.subrange(i as int, s@.len() as int), pat@, rep@) =~= prev
                + replaced(rest, pat@, rep@));
        }
    }
    assert(out@ + replaced(s@.subrange(i as int, s@.len() as int), pat@, rep@) =~= out@);
    out
}

pub open spec fn is_ascii_digit(c: char) -> bool {
    '0' <= c && c <= '9'
}

/// The ASCII digits of `s`, in order.
pub open spec fn ascii_digits(s: Seq<char>) -> Seq<char>
    decreases s.len(),
{
    if s.len() == 0 {
        seq![]
    } else if is_ascii_digit(s.last()) {
        ascii_digits(s.drop_last()).push(s.last())
    } else {
        ascii_digits(s.drop_last())
    }
}

pub fn keep_ascii_digits(s: &Vec<char>) -> (r: Vec<char>)
    ensures
        r@ == ascii_digits(s@),
{
    let mut out: Vec<char> = Vec::new();
    let mut i: usize = 0;
    while i < s.len()
        invariant
            i <= s@.len(),
            out@ == ascii_digits(s@.subrange(0, i as int)),
        decreases s.len() - i,
    {
        assert(s@.subrange(0, i + 1).drop_last() =~= s@.subrange(0, i as int));
        if '0' <= s[i] && s[i] <= '9' {
            out.push(s[i]);
        }
        i += 1;
    }
    assert(s@.subrange(0, s@.len() as int) =~= s@);
    out
}

/// What Rust's `i32` parsing accepts.
pub open spec fn parsed_i32(s: Seq<char>) -> Option<i32> {
    match parsed_int(s) {
        Some(v) => if i32::MIN <= v <= i32::MAX {
            Some(v as i32)
        } else {
            None
        },
        None => None,
    }
}

pub fn parse_i32(s: &Vec<char>) -> (r: Option<i32>)
    ensures
        r == parsed_i32(s@),
{
    match parse_i64(s) {
        Some(v) => if -2147483648 <= v && v <= 2147483647 {
            Some(v as i32)
        } else {
            None
        },
        None => {
            proof {
                if parsed_int(s@) is Some {
                    assert(!(i64::MIN <= parsed_int(s@)->0 <= i64::MAX));
                }
            }
            None
        },
    }
}

/// The text after the last `c`, or all of it.
pub open spec fn after_last(s: Seq<char>, c: char) -> Seq<char> {
    match last_index(s, c) {
        Some(i) => s.subrange(i + 1, s.len() as int),
        None => s,
    }
}

/// The text before the first `c`, or all of it.
pub open spec fn before_first(s: Seq<char>, c: char) -> Seq<char> {
    match first_index(s, c) {
        Some(i) => s.subrange(0, i),
        None => s,
    }
}

/// `str::split_whitespace`: the runs of non-white-space characters.
pub fn split_whitespace(s: &Vec<char>) -> (r: Vec<Vec<char>>)
    ensures
        views(r@) == nonempty_runs(split_by(s@, ws_pred())),
{
    let mut out: Vec<Vec<char>> = Vec::new();
    let mut cur: Vec<char> = Vec::new();
    let mut i: usize = 0;
    let ghost sep = ws_pred();
    while i < s.len()
        invariant
            i <= s.len(),
            sep == ws_pred(),
            split_by(s@.subrange(0, i as int), sep).len() >= 1,
            views(out@) =~= nonempty_runs(split_by(s@.subrange(0, i as int), sep).drop_last()),
            cur@ == split_by(s@.subrange(0, i as int), sep).last(),
        decreases s.len() - i,
    {
        let ghost prev = split_by(s@.subrange(0, i as int), sep);
        proof {
            assert(s@.subrange(0, i + 1).drop_last() =~= s@.subrange(0, i as int));
        }
        if is_whitespace(s[i]) {
            if cur.len() > 0 {
                out.push(cur);
            }
            cur = Vec::new();
            proof {
                let next = split_by(s@.subrange(0, i + 1), sep);
                assert(next =~= prev.push(Seq::<char>::empty()));
                assert(next.drop_last() =~= prev);
                assert(prev =~= prev.drop_last().push(prev.last()));
            }
        } else {
            cur.push(s[i]);
            proof {
                let next = split_by(s@.subrange(0, i + 1), sep);
                assert(next.drop_last() =~= prev.drop_last());
            }
        }
        i += 1;
        proof {
            lemma_split_by_nonempty(s@.subrange(0, i as int), sep);
        }
    }
    let ghost all = split_by(s@.subrange(0, i as int), sep);
    proof {
        assert(all =~= all.drop_last().push(all.last()));
    }
    if cur.len() > 0 {
        out.push(cur);
    }
    assert(s@.subrange(0, s.len() as int) =~= s@);
    assert(views(out@) =~= nonempty_runs(split_by(s@, ws_pred())));
    out
}

/// The pieces joined with one space between each two.
pub open spec fn joined_spaced(parts: Seq<Seq<char>>) -> Seq<char>
    decreases parts.len(),
{
    if parts.len() == 0 {
        seq![]
    } else if parts.len() == 1 {
        parts[0]
    } else {
        joined_spaced(parts.drop_last()) + seq![' '] + parts.last()
    }
}

/// `s.split_whitespace().collect::<Vec<_>>().join(" ")`: the words of `s`
/// with one space between each two.
pub open spec fn spaced_words(s: Seq<char>) -> Seq<char> {
    joined_spaced(nonempty_runs(split_by(s, ws_pred())))
}

pub fn normalize_spaces(s: &Vec<char>) -> (r: Vec<char>)
    ensures
        r@ == spaced_words(s@),
{
    let parts = split_whitespace(s);
    let ghost pv = views(parts@);
    let mut out: Vec<char> = Vec::new();
    let mut i: usize = 0;
    while i < parts.len()
        invariant
            i <= parts@.len(),
            pv == views(parts@),
            out@ == joined_spaced(pv.subrange(0, i as int)),
        decreases parts.len() - i,
    {
        assert(pv.subrange(0, i + 1).drop_last() =~= pv.subrange(0, i as int));
        assert(pv.subrange(0, i + 1).last() == parts@[i as int]@);
        let ghost before = out@;
        if i > 0 {
            out.push(' ');
        }
        push_all(&mut out, &parts[i]);
        proof {
            if i == 0 {
                assert(pv.subrange(0, 1) =~= seq![pv[0]]);
                assert(out@ =~= pv[0]);
            } else {
                assert(out@ =~= before + seq![' '] + pv[i as int]);
            }
        }
        i += 1;
    }
    assert(pv.subrange(0, parts@.len() as int) =~= pv);
    out
}


/// What Rust's `usize` parsing accepts.
pub open spec fn parsed_usize(s: Seq<char>) -> Option<usize> {
    match parsed_nat(s) {
        Some(v) => if v <= usize::MAX {
            Some(v as usize)
        } else {
            None
        },
        None => None,
    }
}

pub fn parse_usize(s: &Vec<char>) -> (r: Option<usize>)
    ensures
        r == parsed_usize(s@),
{
    match parse_u64(s) {
        Some(v) => if v <= usize::MAX as u64 {
            Some(v as usize)
        } else {
            None
        },
        None => {
            proof {
                if parsed_nat(s@) is Some {
                    assert(parsed_nat(s@)->0 > u64::MAX);
                }
            }
            None
        },
    }
}


/// What Rust's `u32` parsing accepts.
pub open spec fn parsed_u32(s: Seq<char>) -> Option<u32> {
    match parsed_nat(s) {
        Some(v) => if v <= u32::MAX {
            Some(v as u32)
        } else {
            None
        },
        None => None,
    }
}

pub fn parse_u32(s: &Vec<char>) -> (r: Option<u32>)
    ensures
        r == parsed_u32(s@),
{
    match parse_u64(s) {
        Some(v) => if v <= 4294967295 {
            Some(v as u32)
        } else {
            None
        },
        None => {
            proof {
                if parsed_nat(s@) is Some {
                    assert(parsed_nat(s@)->0 > u64::MAX);
                }
            }
            None
        },
    }
}

/// `n.to_string()` for a signed number.
pub open spec fn signed_decimal(n: int) -> Seq<char> {
    if n < 0 {
        seq!['-'] + decimal((-n) as nat)
    } else {
        decimal(n as nat)
    }
}

pub fn i64_chars(n: i64) -> (r: Vec<char>)
    ensures
        r@ == signed_decimal(n as int),
{
    if n < 0 {
        let magnitude: u64 = if n == i64::MIN {
            9223372036854775808
        } else {
            (-n) as u64
        };
        let mut out: Vec<char> = Vec::new();
        out.push('-');
        push_all(&mut out, &decimal_chars(magnitude));
        out
    } else {
        decimal_chars(n as u64)
    }
}

/// The first `n` characters of `s`, or all of it.
pub open spec fn take_chars(s: Seq<char>, n: nat) -> Seq<char> {
    if s.len() <= n {
        s
    } else {
        s.subrange(0, n as int)
    }
}


/// `str::split_once(c)`: the text before and after the first `c`.
pub open spec fn split_once(s: Seq<char>, c: char) -> Option<(Seq<char>, Seq<char>)> {
    match first_index(s, c) {
        Some(i) => Some((s.subrange(0, i), s.subrange(i + 1, s.len() as int))),
        None => None,
    }
}

/// `str::split_once(c)`.
pub fn split_once_char(s: &Vec<char>, c: char) -> (r: Option<(Vec<char>, Vec<char>)>)
    ensures
        match r {
            Some((a, b)) => split_once(s@, c) == Some((a@, b@)),
            None => split_once(s@, c) is None,
        },
{
    match find_char(s, c) {
        Some(i) => {
            proof {
                lemma_first_index(s@, c, i as int);
            }
            assert(i < s.len());
            Some((slice_vec(s, 0, i), slice_vec(s, i + 1, s.len())))
        },
        None => None,
    }
}

} // verus!
