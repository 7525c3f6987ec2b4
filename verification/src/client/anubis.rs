//! The proof-of-work interstitial the site's front may put before a page.

use vstd::prelude::*;
use sha2::Digest;
use crate::json::{json_string, json_string_value, pair_views};
use crate::text::{
    all_digits, char_pred, chars_of, digit_char, digits_value, contains_seq, contains_str, decimal, decimal_chars, decimal_chars_u128,
    find_char, find_seq, first_index, first_occurrence, lemma_first_index,
    lemma_first_occurrence, opt_view, owned, push_all, push_str, slice_vec, string_of, trim,
    trim_end_by, trim_end_char, trimmed,
};

verus! {

/// The proof-of-work algorithm a challenge asks for.
#[derive(Debug, Clone, Copy, PartialEq, Eq, Structural)]
pub enum AnubisAlgorithm {
    Fast,
    Slow,
    /// No proof of work: the interstitial only asks to wait out a delay.
    Metarefresh,
}

impl Default for AnubisAlgorithm {
    fn default() -> (r: Self)
        ensures
            r == AnubisAlgorithm::Fast,
    {
        AnubisAlgorithm::Fast
    }
}

pub struct AnubisRules {
    pub algorithm: Option<AnubisAlgorithm>,
    pub difficulty: Option<usize>,
}

pub struct AnubisChallengeInner {
    pub id: String,
    pub random_data: String,
    pub difficulty: Option<usize>,
}

pub struct AnubisChallengeData {
    pub rules: Option<AnubisRules>,
    pub challenge: Option<AnubisChallengeInner>,
}

pub struct AnubisSolution {
    pub pass_url: String,
    pub challenge_id: String,
    pub algorithm: AnubisAlgorithm,
    /// The SHA-256 hex digest of a proof of work (empty without one).
    pub hash: String,
    /// The nonce of a proof of work (unused without one).
    pub nonce: u64,
    pub elapsed_ms: u128,
    pub redir_url: String,
}

/// The cookie the interstitial sets to the challenge id; the request that
/// passes the challenge echoes it back.
pub const VERIFICATION_COOKIE: &'static str = "techaro.lol-anubis-cookie-verification";

/// A page that is the interstitial rather than the page asked for.
pub open spec fn challenge_page(html: Seq<char>) -> bool {
    contains_seq(html, "anubis_challenge"@) || contains_seq(html, "/.within.website/x/cmd/anubis/"@)
}

pub fn is_challenge(html: &str) -> (r: bool)
    ensures
        r == challenge_page(html@),
{
    let h = chars_of(html);
    contains_str(&h, "anubis_challenge") || contains_str(&h, "/.within.website/x/cmd/anubis/")
}

/// The content of the script tag with id `id`: from after the end of the
/// tag that carries the id to the next closing script tag, trimmed. The
/// interstitial escapes `<`, `>` and `&` inside it, so the first closing tag
/// ends it.
pub open spec fn script_content(html: Seq<char>, id: Seq<char>) -> Option<Seq<char>> {
    let marker = "id=\""@ + id + "\""@;
    match first_occurrence(html, marker) {
        Some(start) => {
            let rest = html.subrange(start, html.len() as int);
            match first_index(rest, '>') {
                Some(close) => {
                    let content = rest.subrange(close + 1, rest.len() as int);
                    match first_occurrence(content, "</script>"@) {
                        Some(end) => Some(trimmed(content.subrange(0, end))),
                        None => None,
                    }
                },
                None => None,
            }
        },
        None => None,
    }
}

fn find_text(s: &Vec<char>, needle: &Vec<char>) -> (r: Option<usize>)
    ensures
        match r {
            Some(i) => first_occurrence(s@, needle@) == Some(i as int) && i + needle@.len() <= s@.len(),
            None => first_occurrence(s@, needle@) is None,
        },
{
    match find_seq(s, needle) {
        Some(i) => {
            proof {
                lemma_first_occurrence(s@, needle@, i as int);
            }
            Some(i)
        },
        None => None,
    }
}

pub fn extract_script_tag(html: &str, id: &str) -> (r: Option<String>)
    ensures
        opt_view(r) == script_content(html@, id@),
{
    let h = chars_of(html);
    let mut marker = chars_of("id=\"");
    push_all(&mut marker, &chars_of(id));
    push_str(&mut marker, "\"");
    let start = match find_text(&h, &marker) {
        Some(s) => s,
        None => {
            return None;
        },
    };
    let rest = slice_vec(&h, start, h.len());
    let close = match find_char(&rest, '>') {
        Some(c) => {
            proof {
                lemma_first_index(rest@, '>', c as int);
            }
            c
        },
        None => {
            return None;
        },
    };
    let content = slice_vec(&rest, close + 1, rest.len());
    let end = match find_text(&content, &chars_of("</script>")) {
        Some(e) => e,
        None => {
            return None;
        },
    };
    Some(string_of(trim(&slice_vec(&content, 0, end)).as_slice()))
}

/// The SHA-256 digest of the UTF-8 bytes of a text.
pub uninterp spec fn sha256_digest(text: Seq<char>) -> Seq<u8>;

/// `sha2::Sha256`: `new`, `update` with the bytes of `text`, `finalize`.
#[verifier::external_body]
pub(crate) fn sha256_of(text: &str) -> (r: Vec<u8>)
    ensures
        r@ == sha256_digest(text@),
{
    let mut hasher = sha2::Sha256::new();
    hasher.update(text.as_bytes());
    hasher.finalize().to_vec()
}

/// The lowercase hex digit for a value below sixteen.
pub open spec fn hex_digit(v: int) -> char {
    if v < 10 {
        (('0' as int) + v) as char
    } else {
        (('a' as int) + v - 10) as char
    }
}

/// Two lowercase hex digits per byte, high half first.
pub open spec fn hex_lower(bytes: Seq<u8>) -> Seq<char>
    decreases bytes.len(),
{
    if bytes.len() == 0 {
        seq![]
    } else {
        hex_lower(bytes.drop_last()) + seq![hex_digit((bytes.last() / 16) as int), hex_digit((bytes.last() % 16) as int)]
    }
}

/// `hex::encode`: two lowercase hex digits per byte, high half first.
#[verifier::external_body]
pub(crate) fn hex_encode(bytes: &[u8]) -> (r: String)
    ensures
        r@ == hex_lower(bytes@),
{
    hex::encode(bytes)
}

/// The hex digest of the challenge data followed by a nonce.
pub open spec fn pow_hash(random_data: Seq<char>, nonce: nat) -> Seq<char> {
    hex_lower(sha256_digest(random_data + decimal(nonce)))
}

/// A digest that starts with `difficulty` zeros (all of it when it is
/// shorter).
pub open spec fn pow_solved(hash: Seq<char>, difficulty: nat) -> bool {
    forall|i: int| 0 <= i < hash.len() && i < difficulty ==> hash[i] == '0'
}

fn leading_zeros(hash: &Vec<char>, difficulty: usize) -> (r: bool)
    ensures
        r == pow_solved(hash@, difficulty as nat),
{
    let mut i: usize = 0;
    while i < hash.len() && i < difficulty
        invariant
            i <= hash@.len(),
            forall|j: int| 0 <= j < i && j < difficulty ==> hash@[j] == '0',
        decreases hash.len() - i,
    {
        if hash[i] != '0' {
            return false;
        }
        i += 1;
    }
    true
}

/// Finds the least nonce whose digest, with the challenge data before it,
/// starts with `difficulty` zeros; nothing when no nonce below `u64::MAX`
/// does.
pub fn solve_pow(random_data: &str, difficulty: usize) -> (r: Option<(u64, String)>)
    ensures
        match r {
            Some((nonce, hash)) => hash@ == hex_lower(sha256_digest(random_data@ + decimal(nonce as nat)))
                && hash@ == pow_hash(random_data@, nonce as nat) && pow_solved(
                hash@,
                difficulty as nat,
            ) && forall|m: nat| m < nonce ==> !pow_solved(#[trigger] pow_hash(random_data@, m), difficulty as nat),
            None => forall|m: nat| m < u64::MAX ==> !pow_solved(#[trigger] pow_hash(random_data@, m), difficulty as nat),
        },
{
    let data = chars_of(random_data);
    let mut nonce: u64 = 0;
    while nonce < u64::MAX
        invariant
            data@ == random_data@,
            forall|m: nat| m < nonce ==> !pow_solved(#[trigger] pow_hash(random_data@, m), difficulty as nat),
        decreases u64::MAX - nonce,
    {
        let mut buffer = data.clone();
        push_all(&mut buffer, &decimal_chars(nonce));
        let text = string_of(buffer.as_slice());
        let hash = hex_encode(sha256_of(text.as_str()).as_slice());
        let hash_chars = chars_of(hash.as_str());
        assert(hash@ == pow_hash(random_data@, nonce as nat));
        if leading_zeros(&hash_chars, difficulty) {
            return Some((nonce, hash));
        }
        nonce += 1;
    }
    None
}

/// What solving a challenge needs: its id, its data, how many zeros the
/// digest must start with, and the algorithm.
pub struct ChallengePlan {
    pub challenge_id: String,
    pub random_data: String,
    pub difficulty: usize,
    pub algorithm: AnubisAlgorithm,
}

/// The plan a challenge asks for: its rules' difficulty, else its own, else
/// none; its rules' algorithm, else the fast one. A challenge without its
/// challenge object is refused.
pub fn challenge_plan(data: AnubisChallengeData) -> (r: Result<ChallengePlan, String>)
    ensures
        match data.challenge {
            None => r matches Err(m) && m@ == "anubis challenge missing 'challenge' object"@,
            Some(inner) => r matches Ok(p) && p.challenge_id == inner.id && p.random_data == inner.random_data
                && p.difficulty == match data.rules {
                    Some(rules) => match rules.difficulty {
                        Some(d) => d,
                        None => match inner.difficulty {
                            Some(d) => d,
                            None => 0,
                        },
                    },
                    None => match inner.difficulty {
                        Some(d) => d,
                        None => 0,
                    },
                } && p.algorithm == match data.rules {
                    Some(rules) => match rules.algorithm {
                        Some(a) => a,
                        None => AnubisAlgorithm::Fast,
                    },
                    None => AnubisAlgorithm::Fast,
                },
        },
{
    let inner = match data.challenge {
        Some(inner) => inner,
        None => {
            return Err(owned("anubis challenge missing 'challenge' object"));
        },
    };
    let (rule_difficulty, rule_algorithm) = match data.rules {
        Some(rules) => (rules.difficulty, rules.algorithm),
        None => (None, None),
    };
    let difficulty = match rule_difficulty {
        Some(d) => d,
        None => match inner.difficulty {
            Some(d) => d,
            None => 0,
        },
    };
    let algorithm = match rule_algorithm {
        Some(a) => a,
        None => AnubisAlgorithm::Fast,
    };
    Ok(ChallengePlan { challenge_id: inner.id, random_data: inner.random_data, difficulty, algorithm })
}

/// The texts a challenge page carries: the challenge, and the path prefix
/// the interstitial is served under (an empty one when the page has none).
pub fn challenge_texts(html: &str) -> (r: Result<(String, String), String>)
    ensures
        match script_content(html@, "anubis_challenge"@) {
            None => r matches Err(m) && m@ == "Missing anubis_challenge tag in HTML"@,
            Some(c) => r matches Ok((challenge, prefix)) && challenge@ == c && prefix@ == match json_string_value(
                match script_content(html@, "anubis_base_prefix"@) {
                    Some(p) => p,
                    None => "\"\""@,
                },
            ) {
                Some(p) => p,
                None => seq![],
            },
        },
{
    let challenge = match extract_script_tag(html, "anubis_challenge") {
        Some(c) => c,
        None => {
            return Err(owned("Missing anubis_challenge tag in HTML"));
        },
    };
    let prefix_json = match extract_script_tag(html, "anubis_base_prefix") {
        Some(p) => p,
        None => owned("\"\""),
    };
    let prefix = match json_string(prefix_json.as_str()) {
        Some(p) => p,
        None => String::new(),
    };
    Ok((challenge, prefix))
}

/// Where a solved challenge is passed: the site's origin, the prefix, and
/// the interstitial's pass path.
pub open spec fn pass_url_of(base_origin: Seq<char>, prefix: Seq<char>) -> Seq<char> {
    trim_end_by(base_origin, char_pred('/')) + prefix + "/.within.website/x/cmd/anubis/api/pass-challenge"@
}

pub fn pass_url(base_origin: &str, prefix: &str) -> (r: String)
    ensures
        r@ == pass_url_of(base_origin@, prefix@),
{
    let mut out = trim_end_char(&chars_of(base_origin), '/');
    push_all(&mut out, &chars_of(prefix));
    push_str(&mut out, "/.within.website/x/cmd/anubis/api/pass-challenge");
    string_of(out.as_slice())
}

/// How long a challenge without proof of work asks to wait: one second more
/// than its difficulty, in milliseconds.
pub fn metarefresh_wait_ms(difficulty: usize) -> (r: u64)
    requires
        (difficulty + 1) * 1000 <= u64::MAX,
    ensures
        r == (difficulty + 1) * 1000,
{
    (difficulty as u64 + 1) * 1000
}


/// The query of the request that hands a solution in: the challenge, where
/// to go after it and how long solving took; with a proof of work, its hash
/// and nonce too.
pub open spec fn pass_fields(s: AnubisSolution) -> Seq<(Seq<char>, Seq<char>)> {
    let base = seq![
        ("id"@, s.challenge_id@),
        ("redir"@, s.redir_url@),
        ("elapsedTime"@, decimal(s.elapsed_ms as nat)),
    ];
    if s.hash@.len() > 0 {
        base + seq![("response"@, s.hash@), ("nonce"@, decimal(s.nonce as nat))]
    } else {
        base
    }
}

pub fn pass_query(solution: &AnubisSolution) -> (r: Vec<(String, String)>)
    ensures
        pair_views(r@) == pass_fields(*solution),
{
    let mut q: Vec<(String, String)> = Vec::new();
    q.push((owned("id"), string_of(chars_of(solution.challenge_id.as_str()).as_slice())));
    q.push((owned("redir"), string_of(chars_of(solution.redir_url.as_str()).as_slice())));
    q.push((owned("elapsedTime"), string_of(decimal_chars_u128(solution.elapsed_ms).as_slice())));
    let hash = chars_of(solution.hash.as_str());
    if hash.len() > 0 {
        q.push((owned("response"), string_of(hash.as_slice())));
        q.push((owned("nonce"), string_of(decimal_chars(solution.nonce).as_slice())));
    }
    assert(pair_views(q@) =~= pass_fields(*solution));
    q
}

/// The cookie the request that hands a solution in sends: the verification
/// cookie set to the challenge id, and nothing else.
pub fn pass_cookie(challenge_id: &str) -> (r: String)
    ensures
        r@ == VERIFICATION_COOKIE@ + "="@ + challenge_id@,
{
    let mut out = chars_of(VERIFICATION_COOKIE);
    push_str(&mut out, "=");
    push_all(&mut out, &chars_of(challenge_id));
    string_of(out.as_slice())
}

/// A lowercase hex digit: `0`-`9` or `a`-`f`.
pub open spec fn is_lower_hex(c: char) -> bool {
    ('0' <= c && c <= '9') || ('a' <= c && c <= 'f')
}

/// The answer to a challenge is the digest of the challenge's data with
/// the nonce's decimal digits appended after it (never before), written as
/// two lowercase hex digits per byte.
pub proof fn law_pow_digest_of_data_then_nonce(random_data: Seq<char>, nonce: nat)
    ensures
        pow_hash(random_data, nonce) == hex_lower(sha256_digest(random_data + decimal(nonce))),
        pow_hash(random_data, nonce).len() == 2 * sha256_digest(random_data + decimal(nonce)).len(),
        forall|i: int| 0 <= i < pow_hash(random_data, nonce).len() ==> is_lower_hex(#[trigger] pow_hash(random_data, nonce)[i]),
        all_digits(decimal(nonce)),
        digits_value(decimal(nonce)) == nonce,
        decimal(nonce).len() == 1 || decimal(nonce)[0] != '0',
{
    lemma_hex_lower_shape(sha256_digest(random_data + decimal(nonce)));
    lemma_decimal_digits(nonce);
}

/// `decimal(n)` is the plain decimal spelling of `n`: digits only, reading
/// back as `n`, with no leading zero.
proof fn lemma_decimal_digits(n: nat)
    ensures
        all_digits(decimal(n)),
        digits_value(decimal(n)) == n,
        decimal(n).len() >= 1,
        decimal(n).len() == 1 || decimal(n)[0] != '0',
        n >= 10 ==> decimal(n)[0] != '0',
    decreases n,
{
    if n >= 10 {
        lemma_decimal_digits(n / 10);
        let d = decimal(n / 10);
        assert(decimal(n) == d.push(digit_char(n % 10)));
        assert(decimal(n).drop_last() =~= d);
        assert((digit_char(n % 10) as nat) == ('0' as nat) + n % 10);
        assert(decimal(n).last() == digit_char(n % 10));
        assert(digits_value(decimal(n)) == digits_value(d) * 10 + n % 10);
        assert(n == (n / 10) * 10 + n % 10);
        assert(decimal(n)[0] == d[0]);
        assert(n / 10 >= 1);
        assert(d.len() == 1 ==> d[0] != '0') by {
            if d.len() == 1 && d[0] == '0' {
                assert(digits_value(d) == digits_value(d.drop_last()) * 10 + ((d.last() as nat) - ('0' as nat)) as nat);
                assert(d.drop_last().len() == 0);
            }
        }
    } else {
        assert(decimal(n) == seq![digit_char(n)]);
        assert(decimal(n).drop_last() =~= Seq::<char>::empty());
        assert((digit_char(n) as nat) == ('0' as nat) + n);
        assert(digits_value(decimal(n).drop_last()) == 0);
        assert(decimal(n).last() == digit_char(n));
        assert(digits_value(decimal(n)) == n);
    }
}

proof fn lemma_hex_lower_shape(bytes: Seq<u8>)
    ensures
        hex_lower(bytes).len() == 2 * bytes.len(),
        forall|i: int| 0 <= i < hex_lower(bytes).len() ==> is_lower_hex(#[trigger] hex_lower(bytes)[i]),
    decreases bytes.len(),
{
    if bytes.len() > 0 {
        lemma_hex_lower_shape(bytes.drop_last());
        let b = bytes.last();
        let hi = (b / 16) as int;
        let lo = (b % 16) as int;
        assert(is_lower_hex(hex_digit(hi)));
        assert(is_lower_hex(hex_digit(lo)));
        let init = hex_lower(bytes.drop_last());
        assert forall|i: int| 0 <= i < hex_lower(bytes).len() implies is_lower_hex(#[trigger] hex_lower(bytes)[i]) by {
            if i < init.len() {
                assert(hex_lower(bytes)[i] == init[i]);
            }
        }
    }
}

} // verus!
