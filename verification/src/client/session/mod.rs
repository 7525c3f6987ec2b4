//! What a session decides on its own: where a request goes, how long a retry
//! waits, what a failed reply is reported as, and what the cookie jar says
//! about who is signed in. The requests themselves are sent by the front end.

pub mod cookies;
pub mod credentials;

use vstd::prelude::*;
use vstd::utf8::encode_utf8;
use crate::error::{ClientError, ErrorKind};
use crate::text::{
    char_pred, chars_of, contains_seq, contains_str, decimal, decimal_chars, has_prefix,
    i64_chars, opt_view, owned, push_all, push_str, signed_decimal, starts_with, string_of,
    trim, trim_end_by, trim_end_char, trim_start_by, trim_start_char, trimmed,
};

verus! {

/// The provider's official address.
pub const OFFICIAL_MIRROR: &'static str = "https://hdrzk.org";

/// The first retry waits this many milliseconds; each further one doubles it.
pub const RETRY_BASE_DELAY_MS: u64 = 300;

/// Every retry waits up to this many milliseconds more, so that requests that
/// failed together do not retry in lockstep.
pub const RETRY_SPREAD_MS: u64 = 100;

/// The most a reply body may hold. The largest page the provider serves is
/// well under a megabyte; this only stops a broken reply from being read
/// without limit.
pub const MAX_RESPONSE_BYTES: usize = 16777216;

/// An address that names its own scheme.
pub open spec fn is_absolute(value: Seq<char>) -> bool {
    starts_with(value, "http://"@) || starts_with(value, "https://"@)
}

/// `value` put under `base`, with exactly one slash between them.
pub open spec fn under_base(base: Seq<char>, value: Seq<char>) -> Seq<char> {
    trim_end_by(base, char_pred('/')) + "/"@ + trim_start_by(value, char_pred('/'))
}

/// Where a link found on a page points: kept when absolute, given `https:`
/// when scheme-relative, else put under the provider's address.
pub open spec fn resolved_url(base: Seq<char>, value: Seq<char>) -> Seq<char> {
    if is_absolute(value) {
        value
    } else if starts_with(value, "//"@) {
        "https:"@ + value
    } else {
        under_base(base, value)
    }
}

fn text_is_absolute(v: &Vec<char>) -> (r: bool)
    ensures
        r == is_absolute(v@),
{
    proof {
        reveal_strlit("http://");
        reveal_strlit("https://");
    }
    has_prefix(v, "http://") || has_prefix(v, "https://")
}

fn put_under_base(base: &str, value: &Vec<char>) -> (r: Vec<char>)
    ensures
        r@ == under_base(base@, value@),
{
    let mut out = trim_end_char(&chars_of(base), '/');
    push_str(&mut out, "/");
    push_all(&mut out, &trim_start_char(value, '/'));
    proof {
        reveal_strlit("/");
    }
    out
}

/// The address a link on a page points to.
pub fn resolve_url(base: &str, value: &str) -> (r: String)
    ensures
        r@ == resolved_url(base@, value@),
{
    let v = chars_of(value);
    proof {
        reveal_strlit("//");
        reveal_strlit("https:");
    }
    if text_is_absolute(&v) {
        owned(value)
    } else if has_prefix(&v, "//") {
        let mut out = chars_of("https:");
        push_all(&mut out, &v);
        string_of(out.as_slice())
    } else {
        let out = put_under_base(base, &v);
        string_of(out.as_slice())
    }
}

/// The address a session keeps for its provider: the one it was given,
/// without trailing slashes.
pub fn session_base(base_url: &str) -> (r: String)
    ensures
        r@ == trim_end_by(base_url@, char_pred('/')),
{
    let out = trim_end_char(&chars_of(base_url), '/');
    string_of(out.as_slice())
}


/// What `url::Url` reads out of an address: its path and its query, or the
/// text of the parse error.
pub uninterp spec fn url_path_query(url: Seq<char>) -> Result<(Seq<char>, Option<Seq<char>>), Seq<char>>;

pub open spec fn path_query_view(r: Result<(String, Option<String>), String>) -> Result<(Seq<char>, Option<Seq<char>>), Seq<char>> {
    match r {
        Ok((p, q)) => Ok((p@, opt_view(q))),
        Err(e) => Err(e@),
    }
}

/// `url::Url::parse`, then `Url::path` and `Url::query`; when the address
/// does not parse, the `ParseError` as its `Display` writes it.
#[verifier::external_body]
fn path_and_query(url: &str) -> (r: Result<(String, Option<String>), String>)
    ensures
        path_query_view(r) == url_path_query(url@),
{
    match url::Url::parse(url) {
        Ok(parsed) => Ok((parsed.path().to_string(), parsed.query().map(str::to_string))),
        Err(error) => Err(error.to_string()),
    }
}

/// Where a page request goes: an absolute address keeps only its path and
/// query, which are put on the session's own provider; anything else is a
/// path under it. An absolute address that does not parse is refused with
/// the parser's reason.
pub open spec fn provider_address(base: Seq<char>, target: Seq<char>) -> Result<Seq<char>, Seq<char>> {
    if is_absolute(target) {
        match url_path_query(target) {
            Ok((path, query)) => Ok(
                base + path + match query {
                    Some(q) => "?"@ + q,
                    None => ""@,
                },
            ),
            Err(e) => Err("Invalid provider URL "@ + target + ": "@ + e),
        }
    } else {
        Ok(base + "/"@ + trim_start_by(target, char_pred('/')))
    }
}

/// The address a page request for `target` is sent to, on the session's
/// provider `base`.
pub fn provider_url(base: &str, target: &str) -> (r: Result<String, ClientError>)
    ensures
        match r {
            Ok(u) => provider_address(base@, target@) == Ok::<Seq<char>, Seq<char>>(u@),
            Err(e) => e.kind == ErrorKind::Other && provider_address(base@, target@)
                == Err::<Seq<char>, Seq<char>>(e.message@),
        },
{
    let t = chars_of(target);
    proof {
        reveal_strlit("?");
        reveal_strlit("");
        reveal_strlit("/");
        reveal_strlit("Invalid provider URL ");
        reveal_strlit(": ");
    }
    if text_is_absolute(&t) {
        match path_and_query(target) {
            Ok((path, query)) => {
                let mut out = chars_of(base);
                push_all(&mut out, &chars_of(path.as_str()));
                match query {
                    Some(q) => {
                        push_str(&mut out, "?");
                        push_all(&mut out, &chars_of(q.as_str()));
                    },
                    None => {},
                }
                assert(out@ =~= base@ + path@ + match opt_view(query) {
                    Some(q) => "?"@ + q,
                    None => ""@,
                });
                Ok(string_of(out.as_slice()))
            },
            Err(e) => {
                let mut out = chars_of("Invalid provider URL ");
                push_all(&mut out, &t);
                push_str(&mut out, ": ");
                push_all(&mut out, &chars_of(e.as_str()));
                Err(ClientError::new(ErrorKind::Other, string_of(out.as_slice())))
            },
        }
    } else {
        let mut out = chars_of(base);
        push_str(&mut out, "/");
        push_all(&mut out, &trim_start_char(&t, '/'));
        Ok(string_of(out.as_slice()))
    }
}

/// The address an AJAX call goes to: the endpoint under the provider, with
/// the time `now_ms` added as the query parameter `t` so that no cache
/// answers it.
pub open spec fn ajax_address(base: Seq<char>, endpoint: Seq<char>, now_ms: int) -> Seq<char> {
    let full = if is_absolute(endpoint) {
        endpoint
    } else {
        base + "/"@ + trim_start_by(endpoint, char_pred('/'))
    };
    full + (if contains_seq(full, "?"@) {
        "&"@
    } else {
        "?"@
    }) + "t="@ + signed_decimal(now_ms)
}

/// The AJAX address for `endpoint` at the time `now_ms`.
pub fn ajax_url_at(base: &str, endpoint: &str, now_ms: i64) -> (r: String)
    ensures
        r@ == ajax_address(base@, endpoint@, now_ms as int),
{
    let e = chars_of(endpoint);
    proof {
        reveal_strlit("?");
        reveal_strlit("&");
        reveal_strlit("/");
        reveal_strlit("t=");
    }
    let mut full = if text_is_absolute(&e) {
        e
    } else {
        let mut out = chars_of(base);
        push_str(&mut out, "/");
        push_all(&mut out, &trim_start_char(&e, '/'));
        out
    };
    if contains_str(&full, "?") {
        push_str(&mut full, "&");
    } else {
        push_str(&mut full, "?");
    }
    push_str(&mut full, "t=");
    push_all(&mut full, &i64_chars(now_ms));
    string_of(full.as_slice())
}

/// `ms` doubled `times` times.
pub open spec fn doubled(ms: nat, times: nat) -> nat
    decreases times,
{
    if times == 0 {
        ms
    } else {
        2 * doubled(ms, (times - 1) as nat)
    }
}

proof fn lemma_doubled_grows(ms: nat, a: nat, b: nat)
    requires
        a <= b,
    ensures
        doubled(ms, a) <= doubled(ms, b),
    decreases b,
{
    if a < b {
        lemma_doubled_grows(ms, a, (b - 1) as nat);
    }
}

/// How long to wait before attempt number `attempt`, counted from zero: the
/// first goes at once; after it, the base delay doubled for each attempt
/// past the second, plus the spread.
pub open spec fn retry_delay(attempt: nat, spread_ms: nat) -> nat {
    if attempt == 0 {
        0
    } else {
        doubled(RETRY_BASE_DELAY_MS as nat, (attempt - 1) as nat) + spread_ms
    }
}

/// The wait in milliseconds before attempt `attempt`, with `spread_ms` of
/// spread. Attempts past the 32nd overflow the doubling, as they do with the
/// `u32` power that the delay is made of.
pub fn retry_delay_ms(attempt: u32, spread_ms: u64) -> (r: u64)
    requires
        attempt <= 32,
        spread_ms < RETRY_SPREAD_MS,
    ensures
        r == retry_delay(attempt as nat, spread_ms as nat),
{
    if attempt == 0 {
        return 0;
    }
    assert(doubled(300, 31) == 644245094400) by {
        reveal_with_fuel(doubled, 32);
    }
    let mut delay: u64 = RETRY_BASE_DELAY_MS;
    let mut i: u32 = 1;
    while i < attempt
        invariant
            1 <= i <= attempt <= 32,
            delay == doubled(300, (i - 1) as nat),
            doubled(300, 31) == 644245094400,
        decreases attempt - i,
    {
        proof {
            lemma_doubled_grows(300, i as nat, 31);
        }
        delay = delay * 2;
        i += 1;
    }
    proof {
        lemma_doubled_grows(300, (attempt - 1) as nat, 31);
    }
    delay + spread_ms
}

/// The spread a retry adds, taken from the nanoseconds of the clock: it only
/// has to tell apart callers that failed together.
pub fn retry_spread_ms(subsec_nanos: u32) -> (r: u64)
    ensures
        r == subsec_nanos as nat % RETRY_SPREAD_MS as nat,
        r < RETRY_SPREAD_MS,
{
    subsec_nanos as u64 % RETRY_SPREAD_MS
}

/// A request that never got its reply: a timeout when the client gave up
/// waiting, otherwise a network failure; the message is the context and the
/// transport's own words.
pub fn transport_error(context: &str, timed_out: bool, detail: &str) -> (r: ClientError)
    ensures
        r.kind == (if timed_out {
            ErrorKind::Timeout
        } else {
            ErrorKind::Network
        }),
        r.message@ == context@ + ": "@ + detail@,
{
    let mut out = chars_of(context);
    push_str(&mut out, ": ");
    push_all(&mut out, &chars_of(detail));
    proof {
        reveal_strlit(": ");
    }
    let kind = if timed_out {
        ErrorKind::Timeout
    } else {
        ErrorKind::Network
    };
    ClientError::new(kind, string_of(out.as_slice()))
}

/// The content type a reply is reported with: its header, or `unknown`, cut
/// to 80 characters.
pub open spec fn content_type_shown(header: Option<Seq<char>>) -> Seq<char> {
    let t = match header {
        Some(h) => h,
        None => "unknown"@,
    };
    if t.len() <= 80 {
        t
    } else {
        t.subrange(0, 80)
    }
}

pub fn content_type_of(header: Option<&str>) -> (r: String)
    ensures
        r@ == content_type_shown(match header {
            Some(h) => Some(h@),
            None => None,
        }),
{
    proof {
        reveal_strlit("unknown");
    }
    let t = match header {
        Some(h) => chars_of(h),
        None => chars_of("unknown"),
    };
    if t.len() <= 80 {
        string_of(t.as_slice())
    } else {
        let mut out: Vec<char> = Vec::new();
        let mut i: usize = 0;
        while i < 80
            invariant
                i <= 80 < t.len(),
                out@ =~= t@.subrange(0, i as int),
            decreases 80 - i,
        {
            out.push(t[i]);
            i += 1;
        }
        string_of(out.as_slice())
    }
}

/// The failure a reply is refused with once it grew past the limit.
pub open spec fn too_large_message() -> Seq<char> {
    "HTTP response exceeded "@ + decimal(MAX_RESPONSE_BYTES as nat) + " bytes"@
}

/// Whether a reply of `have` bytes may take a chunk of `more` bytes: no when
/// the two together pass the limit, and the failure then says so.
pub fn accept_chunk(have: usize, more: usize) -> (r: Result<(), ClientError>)
    ensures
        r is Ok <==> have + more <= MAX_RESPONSE_BYTES,
        r matches Err(e) ==> e.kind == ErrorKind::Network && e.message@ == too_large_message(),
{
    if have > MAX_RESPONSE_BYTES || more > MAX_RESPONSE_BYTES - have {
        let mut out = chars_of("HTTP response exceeded ");
        push_all(&mut out, &decimal_chars(MAX_RESPONSE_BYTES as u64));
        push_str(&mut out, " bytes");
        proof {
            reveal_strlit("HTTP response exceeded ");
            reveal_strlit(" bytes");
        }
        Err(ClientError::new(ErrorKind::Network, string_of(out.as_slice())))
    } else {
        Ok(())
    }
}

/// How a refused reply's body is described, without quoting it: `empty`,
/// `JSON`, `HTML` or `text`, from the content type or the first character
/// that is not white space.
pub open spec fn body_kind(content_type: Seq<char>, body: Seq<char>) -> Seq<char> {
    let t = trimmed(body);
    if t.len() == 0 {
        "empty"@
    } else if contains_seq(content_type, "json"@) || t[0] == '{' || t[0] == '[' {
        "JSON"@
    } else if contains_seq(content_type, "html"@) || t[0] == '<' {
        "HTML"@
    } else {
        "text"@
    }
}

/// The length in bytes of text as UTF-8 writes it, as `str::len` gives it.
pub open spec fn byte_len(s: Seq<char>) -> nat {
    (encode_utf8(s).len() as usize) as nat
}

/// What a reply with a failure status is reported as: the operation, the
/// status, the content type, the kind of body and its size, never the body
/// itself.
pub open spec fn failure_description(operation: Seq<char>, status: u16, content_type: Seq<char>, body: Seq<char>) -> Seq<char> {
    operation + " failed: HTTP "@ + decimal(status as nat) + "; content-type "@ + content_type
        + "; "@ + body_kind(content_type, body) + " body ("@ + decimal(byte_len(body)) + " bytes)"@
}

fn describe_body(content_type: &str, body: &str) -> (r: Vec<char>)
    ensures
        r@ == body_kind(content_type@, body@),
{
    let ct = chars_of(content_type);
    let t = trim(&chars_of(body));
    proof {
        reveal_strlit("empty");
        reveal_strlit("JSON");
        reveal_strlit("HTML");
        reveal_strlit("text");
    }
    if t.len() == 0 {
        chars_of("empty")
    } else if contains_str(&ct, "json") || t[0] == '{' || t[0] == '[' {
        chars_of("JSON")
    } else if contains_str(&ct, "html") || t[0] == '<' {
        chars_of("HTML")
    } else {
        chars_of("text")
    }
}

/// A status in the success range, 200 to 299, hands the body on; any other
/// is a provider failure described by [`failure_description`].
pub fn require_success(operation: &str, status: u16, content_type: &str, body: String) -> (r: Result<String, ClientError>)
    ensures
        200 <= status <= 299 ==> (r matches Ok(b) && b@ == body@),
        !(200 <= status <= 299) ==> (r matches Err(e) && e.kind == ErrorKind::Provider
            && e.message@ == failure_description(operation@, status, content_type@, body@)),
{
    if 200 <= status && status <= 299 {
        return Ok(body);
    }
    let size = body.as_str().len();
    assert(size == byte_len(body@));
    let mut out = chars_of(operation);
    push_str(&mut out, " failed: HTTP ");
    push_all(&mut out, &decimal_chars(status as u64));
    push_str(&mut out, "; content-type ");
    push_all(&mut out, &chars_of(content_type));
    push_str(&mut out, "; ");
    push_all(&mut out, &describe_body(content_type, body.as_str()));
    push_str(&mut out, " body (");
    push_all(&mut out, &decimal_chars(size as u64));
    push_str(&mut out, " bytes)");
    proof {
        reveal_strlit(" failed: HTTP ");
        reveal_strlit("; content-type ");
        reveal_strlit("; ");
        reveal_strlit(" body (");
        reveal_strlit(" bytes)");
    }
    Err(ClientError::new(ErrorKind::Provider, string_of(out.as_slice())))
}


/// Each retry past the first waits twice as long as the one before, before
/// the spread; the first retry waits the base delay.
pub proof fn law_retry_delays_double(attempt: nat, spread_ms: nat)
    requires
        attempt >= 1,
    ensures
        retry_delay(1, spread_ms) == RETRY_BASE_DELAY_MS + spread_ms,
        retry_delay(attempt + 1, spread_ms) == 2 * retry_delay(attempt, 0) + spread_ms,
{
}

} // verus!
