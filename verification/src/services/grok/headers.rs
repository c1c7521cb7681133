//! The headers that a call upstream carries.

use vstd::prelude::*;
use crate::services::grok::model::Cost;
use crate::services::token::models::EffortType;
use crate::text::{spec_starts_with, spec_trim, starts_with, str_chars, string_from_range, trim};

verus! {

/// The effort that a call of a model of the given cost is charged with.
pub fn effort_for(cost: Cost) -> (r: EffortType)
    ensures
        r == if cost == Cost::High {
            EffortType::High
        } else {
            EffortType::Low
        },
{
    match cost {
        Cost::High => EffortType::High,
        Cost::Low => EffortType::Low,
    }
}

/// A secret without one leading `sso=`.
pub open spec fn spec_strip_sso(token: Seq<char>) -> Seq<char> {
    if spec_starts_with(token, "sso="@) {
        token.skip(4)
    } else {
        token
    }
}

/// A secret without one leading `sso=`.
pub fn strip_sso(token: &str) -> (r: String)
    ensures
        r@ == spec_strip_sso(token@),
{
    let chars = str_chars(token);
    let prefix = str_chars("sso=");
    proof {
        reveal_strlit("sso=");
        assert(prefix@.len() == 4);
    }
    if starts_with(&chars, &prefix) {
        assert(chars@.skip(4) =~= chars@.subrange(4, chars.len() as int));
        string_from_range(&chars, 4, chars.len())
    } else {
        token.to_owned()
    }
}

/// The cookie of a call: the secret, and the clearance if there is one.
pub open spec fn spec_session_cookie(token: Seq<char>, cf_clearance: Seq<char>) -> Seq<char> {
    if cf_clearance.len() == 0 {
        "sso="@ + spec_strip_sso(token)
    } else {
        "sso="@ + spec_strip_sso(token) + ";cf_clearance="@ + cf_clearance
    }
}

/// The cookie of a call.
pub fn session_cookie(token: &str, cf_clearance: &str) -> (r: String)
    ensures
        r@ == spec_session_cookie(token@, cf_clearance@),
{
    let mut out = "sso=".to_owned();
    out.append(strip_sso(token).as_str());
    if !cf_clearance.is_empty() {
        out.append(";cf_clearance=");
        out.append(cf_clearance);
    }
    out
}

/// The cookie of a call that changes the account: the secret for reading
/// and for writing, and the clearance, trimmed, if there is one.
pub open spec fn spec_account_cookie(token: Seq<char>, cf_clearance: Seq<char>) -> Seq<char> {
    let raw = spec_strip_sso(token);
    let base = "sso="@ + raw + "; sso-rw="@ + raw;
    if spec_trim(cf_clearance).len() == 0 {
        base
    } else {
        base + "; cf_clearance="@ + spec_trim(cf_clearance)
    }
}

/// The cookie of a call that changes the account.
pub fn account_cookie(token: &str, cf_clearance: &str) -> (r: String)
    ensures
        r@ == spec_account_cookie(token@, cf_clearance@),
{
    let raw = strip_sso(token);
    let cf = trim(cf_clearance);
    let mut out = "sso=".to_owned();
    out.append(raw.as_str());
    out.append("; sso-rw=");
    out.append(raw.as_str());
    if !cf.as_str().is_empty() {
        out.append("; cf_clearance=");
        out.append(cf.as_str());
    }
    out
}

/// One header: its name and its value.
#[derive(Debug)]
pub struct Header {
    pub name: String,
    pub value: String,
}

/// The names and values of a list of headers.
pub open spec fn headers_view(s: Seq<Header>) -> Seq<(Seq<char>, Seq<char>)> {
    Seq::new(s.len(), |i: int| (s[i].name@, s[i].value@))
}

/// The browser that calls pass for.
pub open spec fn spec_user_agent() -> Seq<char> {
    "Mozilla/5.0 (Macintosh; Intel Mac OS X 10_15_7) AppleWebKit/537.36 (KHTML, like Gecko) Chrome/136.0.0.0 Safari/537.36"@
}

/// The headers of a call of the interface: those of the browser, the page
/// that the call comes from, the two identifiers, and the cookie.
pub open spec fn spec_api_headers(
    referer: Seq<char>,
    statsig_id: Seq<char>,
    request_id: Seq<char>,
    cookie: Seq<char>,
) -> Seq<(Seq<char>, Seq<char>)> {
    seq![
        ("Accept"@, "*/*"@),
        ("Accept-Encoding"@, "gzip, deflate, br, zstd"@),
        ("Accept-Language"@, "zh-CN,zh;q=0.9"@),
        (
            "Baggage"@,
            "sentry-environment=production,sentry-release=d6add6fb0460641fd482d767a335ef72b9b6abb8,sentry-public_key=b311e0f2690c81f25e2c4cf6d4f7ce1c"@,
        ),
        ("Cache-Control"@, "no-cache"@),
        ("Content-Type"@, "application/json"@),
        ("Origin"@, "https://grok.com"@),
        ("Pragma"@, "no-cache"@),
        ("Priority"@, "u=1, i"@),
        ("Referer"@, referer),
        ("Sec-Ch-Ua"@, "\"Google Chrome\";v=\"136\", \"Chromium\";v=\"136\", \"Not(A:Brand\";v=\"24\""@),
        ("Sec-Ch-Ua-Arch"@, "arm"@),
        ("Sec-Ch-Ua-Bitness"@, "64"@),
        ("Sec-Ch-Ua-Mobile"@, "?0"@),
        ("Sec-Ch-Ua-Model"@, ""@),
        ("Sec-Ch-Ua-Platform"@, "\"macOS\""@),
        ("Sec-Fetch-Dest"@, "empty"@),
        ("Sec-Fetch-Mode"@, "cors"@),
        ("Sec-Fetch-Site"@, "same-origin"@),
        ("User-Agent"@, spec_user_agent()),
        ("x-statsig-id"@, statsig_id),
        ("x-xai-request-id"@, request_id),
        ("Cookie"@, cookie),
    ]
}

/// Appends a header.
fn put(headers: &mut Vec<Header>, name: &str, value: &str)
    ensures
        headers_view(final(headers)@) == headers_view(old(headers)@).push((name@, value@)),
{
    headers.push(Header { name: name.to_owned(), value: value.to_owned() });
    assert(headers_view(headers@) =~= headers_view(old(headers)@).push((name@, value@)));
}

/// The headers of a call of the interface.
pub fn api_headers(
    token: &str,
    referer: &str,
    statsig_id: &str,
    request_id: &str,
    cf_clearance: &str,
) -> (r: Vec<Header>)
    ensures
        headers_view(r@) == spec_api_headers(
            referer@,
            statsig_id@,
            request_id@,
            spec_session_cookie(token@, cf_clearance@),
        ),
{
    let cookie = session_cookie(token, cf_clearance);
    let mut h: Vec<Header> = Vec::new();
    assert(headers_view(h@) =~= Seq::empty());
    put(&mut h, "Accept", "*/*");
    put(&mut h, "Accept-Encoding", "gzip, deflate, br, zstd");
    put(&mut h, "Accept-Language", "zh-CN,zh;q=0.9");
    put(
        &mut h,
        "Baggage",
        "sentry-environment=production,sentry-release=d6add6fb0460641fd482d767a335ef72b9b6abb8,sentry-public_key=b311e0f2690c81f25e2c4cf6d4f7ce1c",
    );
    put(&mut h, "Cache-Control", "no-cache");
    put(&mut h, "Content-Type", "application/json");
    put(&mut h, "Origin", "https://grok.com");
    put(&mut h, "Pragma", "no-cache");
    put(&mut h, "Priority", "u=1, i");
    put(&mut h, "Referer", referer);
    put(&mut h, "Sec-Ch-Ua", "\"Google Chrome\";v=\"136\", \"Chromium\";v=\"136\", \"Not(A:Brand\";v=\"24\"");
    put(&mut h, "Sec-Ch-Ua-Arch", "arm");
    put(&mut h, "Sec-Ch-Ua-Bitness", "64");
    put(&mut h, "Sec-Ch-Ua-Mobile", "?0");
    put(&mut h, "Sec-Ch-Ua-Model", "");
    put(&mut h, "Sec-Ch-Ua-Platform", "\"macOS\"");
    put(&mut h, "Sec-Fetch-Dest", "empty");
    put(&mut h, "Sec-Fetch-Mode", "cors");
    put(&mut h, "Sec-Fetch-Site", "same-origin");
    put(
        &mut h,
        "User-Agent",
        "Mozilla/5.0 (Macintosh; Intel Mac OS X 10_15_7) AppleWebKit/537.36 (KHTML, like Gecko) Chrome/136.0.0.0 Safari/537.36",
    );
    put(&mut h, "x-statsig-id", statsig_id);
    put(&mut h, "x-xai-request-id", request_id);
    put(&mut h, "Cookie", cookie.as_str());
    assert(headers_view(h@) =~= spec_api_headers(
        referer@,
        statsig_id@,
        request_id@,
        spec_session_cookie(token@, cf_clearance@),
    ));
    h
}

/// The headers of a download: those of a browser that opens a page.
pub open spec fn spec_download_headers(cookie: Seq<char>) -> Seq<(Seq<char>, Seq<char>)> {
    seq![
        (
            "Accept"@,
            "text/html,application/xhtml+xml,application/xml;q=0.9,image/avif,image/webp,*/*;q=0.8"@,
        ),
        ("Sec-Fetch-Dest"@, "document"@),
        ("Sec-Fetch-Mode"@, "navigate"@),
        ("Sec-Fetch-Site"@, "same-site"@),
        ("Sec-Fetch-User"@, "?1"@),
        ("Upgrade-Insecure-Requests"@, "1"@),
        ("User-Agent"@, spec_user_agent()),
        ("Cookie"@, cookie),
        ("Referer"@, "https://grok.com/"@),
    ]
}

/// The headers of a download.
pub fn download_headers(token: &str, cf_clearance: &str) -> (r: Vec<Header>)
    ensures
        headers_view(r@) == spec_download_headers(spec_session_cookie(token@, cf_clearance@)),
{
    let cookie = session_cookie(token, cf_clearance);
    let mut h: Vec<Header> = Vec::new();
    assert(headers_view(h@) =~= Seq::empty());
    put(
        &mut h,
        "Accept",
        "text/html,application/xhtml+xml,application/xml;q=0.9,image/avif,image/webp,*/*;q=0.8",
    );
    put(&mut h, "Sec-Fetch-Dest", "document");
    put(&mut h, "Sec-Fetch-Mode", "navigate");
    put(&mut h, "Sec-Fetch-Site", "same-site");
    put(&mut h, "Sec-Fetch-User", "?1");
    put(&mut h, "Upgrade-Insecure-Requests", "1");
    put(
        &mut h,
        "User-Agent",
        "Mozilla/5.0 (Macintosh; Intel Mac OS X 10_15_7) AppleWebKit/537.36 (KHTML, like Gecko) Chrome/136.0.0.0 Safari/537.36",
    );
    put(&mut h, "Cookie", cookie.as_str());
    put(&mut h, "Referer", "https://grok.com/");
    assert(headers_view(h@) =~= spec_download_headers(spec_session_cookie(token@, cf_clearance@)));
    h
}

/// The headers of a call that changes the account.
pub open spec fn spec_account_headers(cookie: Seq<char>) -> Seq<(Seq<char>, Seq<char>)> {
    seq![
        ("accept"@, "*/*"@),
        ("content-type"@, "application/grpc-web+proto"@),
        ("origin"@, "https://grok.com"@),
        ("referer"@, "https://grok.com/"@),
        ("user-agent"@, "Mozilla/5.0 (Macintosh; Intel Mac OS X 10_15_7) AppleWebKit/537.36"@),
        ("x-grpc-web"@, "1"@),
        ("x-user-agent"@, "connect-es/2.1.1"@),
        ("cookie"@, cookie),
    ]
}

/// The headers of a call that changes the account.
pub fn account_headers(token: &str, cf_clearance: &str) -> (r: Vec<Header>)
    ensures
        headers_view(r@) == spec_account_headers(spec_account_cookie(token@, cf_clearance@)),
{
    let cookie = account_cookie(token, cf_clearance);
    let mut h: Vec<Header> = Vec::new();
    assert(headers_view(h@) =~= Seq::empty());
    put(&mut h, "accept", "*/*");
    put(&mut h, "content-type", "application/grpc-web+proto");
    put(&mut h, "origin", "https://grok.com");
    put(&mut h, "referer", "https://grok.com/");
    put(&mut h, "user-agent", "Mozilla/5.0 (Macintosh; Intel Mac OS X 10_15_7) AppleWebKit/537.36");
    put(&mut h, "x-grpc-web", "1");
    put(&mut h, "x-user-agent", "connect-es/2.1.1");
    put(&mut h, "cookie", cookie.as_str());
    assert(headers_view(h@) =~= spec_account_headers(spec_account_cookie(token@, cf_clearance@)));
    h
}

} // verus!
