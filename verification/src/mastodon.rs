use crate::http::{header_texts, HttpMethod, HttpRequest};
use crate::text::{trim, trim_end_char, trim_end_char_spec, trim_spec};
use vstd::prelude::*;
use vstd::utf8::encode_utf8;

verus! {

/// A byte that URL encoding keeps as it is: an ASCII letter or digit, `-`,
/// `.`, `_` or `~`.
pub open spec fn unreserved(b: u8) -> bool {
    ||| 48 <= b <= 57
    ||| 65 <= b <= 90
    ||| 97 <= b <= 122
    ||| b == 45
    ||| b == 46
    ||| b == 95
    ||| b == 126
}

/// The upper-case hexadecimal digit of a value below 16.
pub open spec fn hex_digit(d: int) -> char {
    if d < 10 {
        (48 + d) as char
    } else {
        (55 + d) as char
    }
}

/// Every byte of `bytes` that is not unreserved written as `%` and two
/// upper-case hexadecimal digits; the unreserved bytes as themselves.
pub open spec fn percent_encoded(bytes: Seq<u8>) -> Seq<char>
    decreases bytes.len(),
{
    if bytes.len() == 0 {
        Seq::empty()
    } else {
        let b = bytes.last();
        let tail = if unreserved(b) {
            seq![b as char]
        } else {
            seq!['%', hex_digit(b as int / 16), hex_digit(b as int % 16)]
        };
        percent_encoded(bytes.drop_last()) + tail
    }
}

/// Calls `urlencoding::encode`. Claimed, as its source shows: every byte of
/// the UTF-8 encoding of `s` that is not an ASCII letter or digit, `-`, `.`,
/// `_` or `~` becomes `%` and two upper-case hexadecimal digits; the others
/// stay.
#[verifier::external_body]
fn url_encode(s: &str) -> (r: String)
    ensures
        r@ == percent_encoded(encode_utf8(s@)),
{
    urlencoding::encode(s).into_owned()
}

/// The Mastodon instance the bot posts to when `NEWSPENGUIN_MSTD_API_URI` is
/// not set.
pub open spec fn default_instance() -> Seq<char> {
    "https://mstd.seungjin.net"@
}

/// The value `ENVIRONMENT` has in development.
pub open spec fn development() -> Seq<char> {
    "development"@
}

/// What posting a message comes to.
pub enum TootPlan {
    /// `ENVIRONMENT` is `development`: the message is shown, not posted.
    SkipDevelopment,
    /// A dry run: the message is shown, not posted.
    SkipDryRun,
    /// The request that posts the message.
    Send(HttpRequest),
}

/// Whether the value of `ENVIRONMENT` (absent meaning `production`) is
/// `development`.
pub open spec fn in_development(environment: Option<String>) -> bool {
    environment matches Some(e) && e@ == development()
}

/// The base URL of the instance: the value of `NEWSPENGUIN_MSTD_API_URI` or
/// the default instance, trimmed and without trailing slashes.
pub open spec fn instance_base(api_uri: Option<String>) -> Seq<char> {
    let raw = match api_uri {
        Some(u) => u@,
        None => default_instance(),
    };
    trim_end_char_spec(trim_spec(raw), '/')
}

/// The form body that posts `message` publicly.
pub open spec fn toot_body(message: Seq<char>) -> Seq<char> {
    "status="@ + percent_encoded(encode_utf8(message)) + "&visibility=public"@
}

/// The headers of the posting request, with the access token.
pub open spec fn toot_headers(token: Seq<char>) -> Seq<(Seq<char>, Seq<char>)> {
    seq![
        ("Authorization"@, "Bearer "@ + trim_spec(token)),
        ("Content-Type"@, "application/x-www-form-urlencoded"@),
        ("User-Agent"@, "newspenguin-rss-bot/0.1.0"@),
    ]
}

/// `q` posts `message` with the access token `token` to the instance that
/// `api_uri` names.
pub open spec fn toot_request_is(q: HttpRequest, message: Seq<char>, token: Seq<char>, api_uri: Option<String>) -> bool {
    &&& q.method == HttpMethod::Post
    &&& q.url@ == instance_base(api_uri) + "/api/v1/statuses"@
    &&& q.body is Some
    &&& q.body->0@ == toot_body(message)
    &&& header_texts(q.headers@) == toot_headers(token)
}

/// How to post `message`: not at all in development or in a dry run;
/// otherwise a form POST of the message, public, to the statuses endpoint of
/// the instance, authorised by the trimmed access token. The access token
/// (`NEWSPENGUIN_MSTD_ACCESS_TOKEN`) must be set when a request is to be sent.
pub fn plan_toot(
    message: &str,
    dry_run: bool,
    environment: Option<String>,
    token: Option<String>,
    api_uri: Option<String>,
) -> (r: TootPlan)
    requires
        in_development(environment) || dry_run || token is Some,
    ensures
        in_development(environment) ==> r is SkipDevelopment,
        !in_development(environment) && dry_run ==> r is SkipDryRun,
        !in_development(environment) && !dry_run ==> (r matches TootPlan::Send(q)
            && toot_request_is(q, message@, token->0@, api_uri)),
{
    let is_dev = match &environment {
        Some(e) => *e == "development".to_owned(),
        None => false,
    };
    if is_dev {
        return TootPlan::SkipDevelopment;
    }
    if dry_run {
        return TootPlan::SkipDryRun;
    }
    let token = match token {
        Some(t) => t,
        None => return TootPlan::SkipDryRun,
    };
    let base = match &api_uri {
        Some(u) => trim_end_char(trim(u.as_str()), '/').to_owned(),
        None => trim_end_char(trim("https://mstd.seungjin.net"), '/').to_owned(),
    };
    let url = base.concat("/api/v1/statuses");
    let body = "status=".to_owned().concat(url_encode(message).as_str()).concat("&visibility=public");
    let auth = "Bearer ".to_owned().concat(trim(token.as_str()));
    let headers = vec![
        ("Authorization".to_owned(), auth),
        ("Content-Type".to_owned(), "application/x-www-form-urlencoded".to_owned()),
        ("User-Agent".to_owned(), "newspenguin-rss-bot/0.1.0".to_owned()),
    ];
    assert(header_texts(headers@) =~= toot_headers(token@));
    TootPlan::Send(HttpRequest { method: HttpMethod::Post, url, headers, body: Some(body) })
}

} // verus!

verus! {

/// A character that may stand in a URL-encoded form value: an unreserved
/// ASCII character, `%`, or an upper-case hexadecimal digit.
pub open spec fn form_safe(c: char) -> bool {
    ||| unreserved(c as u8) && (c as u32) < 128
    ||| c == '%'
}

/// URL encoding writes only form-safe characters, and three characters at
/// most for each byte.
pub proof fn law_percent_encoding_is_form_safe(bytes: Seq<u8>)
    ensures
        forall|i: int| 0 <= i < percent_encoded(bytes).len() ==> form_safe(#[trigger] percent_encoded(bytes)[i]),
        bytes.len() <= percent_encoded(bytes).len() <= 3 * bytes.len(),
    decreases bytes.len(),
{
    if bytes.len() > 0 {
        let p = bytes.drop_last();
        law_percent_encoding_is_form_safe(p);
        let b = bytes.last();
        let head = percent_encoded(p);
        let all = percent_encoded(bytes);
        let tail = if unreserved(b) {
            seq![b as char]
        } else {
            seq!['%', hex_digit(b as int / 16), hex_digit(b as int % 16)]
        };
        assert(all == head + tail);
        assert forall|i: int| 0 <= i < all.len() implies form_safe(#[trigger] all[i]) by {
            if i < head.len() {
                assert(all[i] == head[i]);
            } else {
                assert(all[i] == tail[i - head.len()]);
                if !unreserved(b) && i > head.len() {
                    let d = if i == head.len() + 1 { b as int / 16 } else { b as int % 16 };
                    assert(0 <= d < 16);
                    assert(tail[i - head.len()] == hex_digit(d));
                }
            }
        }
    }
}

} // verus!
