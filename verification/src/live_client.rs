//! The local Live Client Data API of the game: which address may be read, and
//! what the user is told when reading it (or ApexLOL) fails.
use vstd::prelude::*;
use crate::text::{append_chars, contains_chars, contains_seq, string_from_chars, to_chars};

use crate::apexlol::opt_view;
use crate::json::{json_field_at, json_text, json_unsigned, JsonObject, JsonScalar};

verus! {

#[verifier::external_type_specification]
#[verifier::external_body]
pub struct ExUrl(reqwest::Url);

// ---------------------------------------------------------------------------
// The address
// ---------------------------------------------------------------------------
/// The one address the API is read from.
pub open spec fn active_player_address() -> Seq<char> {
    "https://127.0.0.1:2999/liveclientdata/activeplayer"@
}

/// The parts of a parsed address that decide whether it may be read.
#[derive(Debug, Clone)]
pub struct UrlParts {
    pub scheme: String,
    pub host: Option<String>,
    /// The port, or the scheme's known default port.
    pub port: Option<u16>,
    pub path: String,
}

/// What `Url::parse` makes of a text: the text of the parse error, or the
/// parsed address's scheme, host, port (or known default) and path.
pub uninterp spec fn url_parse_outcome(input: Seq<char>) -> Result<
    (Seq<char>, Option<Seq<char>>, Option<u16>, Seq<char>),
    Seq<char>,
>;

/// Calls `reqwest::Url::parse` (the `url` crate's `Url::parse`) and reads the
/// parsed address's `scheme`, `host_str`, `port_or_known_default` and `path`;
/// on failure, the `Display` text of its `ParseError`.  Both depend on the text
/// alone and are named `url_parse_outcome` of the input.
#[verifier::external_body]
fn parse_url(input: &str) -> (r: Result<(reqwest::Url, UrlParts), String>)
    ensures
        match r {
            Ok((_, p)) => url_parse_outcome(input@) == Ok::<_, Seq<char>>((p.scheme@, opt_view(p.host), p.port, p.path@)),
            Err(e) => url_parse_outcome(input@) == Err::<(Seq<char>, Option<Seq<char>>, Option<u16>, Seq<char>), _>(e@),
        },
{
    match reqwest::Url::parse(input) {
        Ok(url) => {
            let host = match url.host_str() {
                Some(h) => Some(h.to_string()),
                None => None,
            };
            let parts = UrlParts { scheme: url.scheme().to_string(), host, port: url.port_or_known_default(), path: url.path().to_string() };
            Ok((url, parts))
        },
        Err(err) => Err(err.to_string()),
    }
}

/// The parts of an address that make it the game's local active-player
/// endpoint: `https`, host `127.0.0.1`, port 2999, path
/// `/liveclientdata/activeplayer`.
pub open spec fn is_local_endpoint(
    scheme: Seq<char>,
    host: Option<Seq<char>>,
    port: Option<u16>,
    path: Seq<char>,
) -> bool {
    &&& scheme == "https"@
    &&& host == Some("127.0.0.1"@)
    &&& port == Some(2999u16)
    &&& path == "/liveclientdata/activeplayer"@
}

fn same_text(a: &String, b: &str) -> (r: bool)
    ensures
        r == (a@ == b@),
{
    let x = to_chars(a.as_str());
    let y = to_chars(b);
    crate::text::chars_equal(&x, &y)
}

/// Whether the parts of a parsed address name the game's local endpoint.
pub fn is_local_active_player_endpoint(
    scheme: &String,
    host: &Option<String>,
    port: Option<u16>,
    path: &String,
) -> (r: bool)
    ensures
        r == is_local_endpoint(scheme@, opt_view(*host), port, path@),
{
    let host_ok = match host {
        Some(h) => same_text(h, "127.0.0.1"),
        None => false,
    };
    same_text(scheme, "https") && host_ok && port == Some(2999u16) && same_text(path,
        "/liveclientdata/activeplayer")
}

pub open spec fn address_refused_message() -> Seq<char> {
    "Live Client Data API 地址必须限定为 https://127.0.0.1:2999/liveclientdata/activeplayer。"@
}

/// The address of the active-player endpoint, parsed; refused unless it is the
/// game's local endpoint.  When the address does not parse, the error carries
/// the parser's message.
pub fn live_client_active_player_url() -> (r: Result<reqwest::Url, String>)
    ensures
        match url_parse_outcome(active_player_address()) {
            Err(e) => r matches Err(m) && m@ == "Live Client Data API 地址配置无效: "@ + e,
            Ok(p) => if is_local_endpoint(p.0, p.1, p.2, p.3) {
                r is Ok
            } else {
                r matches Err(m) && m@ == address_refused_message()
            },
        },
{
    let (url, parts) = match parse_url("https://127.0.0.1:2999/liveclientdata/activeplayer") {
        Ok(v) => v,
        Err(e) => {
            let mut m = to_chars("Live Client Data API 地址配置无效: ");
            append_chars(&mut m, &to_chars(e.as_str()));
            return Err(string_from_chars(m.as_slice()));
        },
    };
    if is_local_active_player_endpoint(&parts.scheme, &parts.host, parts.port, &parts.path) {
        Ok(url)
    } else {
        Err(crate::text::str_to_string(
            "Live Client Data API 地址必须限定为 https://127.0.0.1:2999/liveclientdata/activeplayer。",
        ))
    }
}

// ---------------------------------------------------------------------------
// Failures
// ---------------------------------------------------------------------------
/// `char::to_ascii_lowercase`.
pub open spec fn ascii_lower(c: char) -> char {
    if 'A' <= c && c <= 'Z' {
        ((c as u32) + 32) as char
    } else {
        c
    }
}

/// `str::to_ascii_lowercase`.
pub open spec fn ascii_lowercase(s: Seq<char>) -> Seq<char> {
    s.map_values(|c: char| ascii_lower(c))
}

fn lower_char(c: char) -> (r: char)
    ensures
        r == ascii_lower(c),
{
    if 'A' <= c && c <= 'Z' {
        let b: u8 = c as u8;
        (b + 32) as char
    } else {
        c
    }
}

fn lowercase_chars(s: &Vec<char>) -> (r: Vec<char>)
    ensures
        r@ == ascii_lowercase(s@),
{
    let mut out: Vec<char> = Vec::new();
    let mut i: usize = 0;
    while i < s.len()
        invariant
            i <= s@.len(),
            out@ == ascii_lowercase(s@.take(i as int)),
        decreases s.len() - i,
    {
        proof {
            assert(s@.take(i + 1) =~= s@.take(i as int).push(s@[i as int]));
        }
        out.push(lower_char(s[i]));
        proof {
            assert(ascii_lowercase(s@.take(i + 1)) =~= ascii_lowercase(s@.take(i as int)).push(ascii_lower(s@[i as int])));
        }
        i = i + 1;
    }
    proof {
        assert(s@.take(s@.len() as int) =~= s@);
    }
    out
}

/// What the user is told when reading the Live Client Data API fails, from
/// whether the request timed out, whether the connection failed, and the
/// error's text.
pub open spec fn live_client_failure_text(timeout: bool, connect: bool, message: Seq<char>) -> Seq<char> {
    if timeout {
        "Live Client Data API 请求超时，请确认 LOL 正在运行且已进入游戏。"@
    } else if connect {
        "无法连接 Live Client Data API，请确认 LOL 正在运行且已进入游戏。"@
    } else if contains_seq(ascii_lowercase(message), "cert"@) {
        "Live Client Data API 本地 HTTPS 证书处理失败: "@ + message
    } else {
        "读取 Live Client Data API 失败: "@ + message
    }
}

fn prefixed(prefix: &str, message: &str) -> (r: String)
    ensures
        r@ == prefix@ + message@,
{
    let mut m = to_chars(prefix);
    append_chars(&mut m, &to_chars(message));
    string_from_chars(m.as_slice())
}

pub fn live_client_failure_message(timeout: bool, connect: bool, message: &str) -> (r: String)
    ensures
        r@ == live_client_failure_text(timeout, connect, message@),
{
    if timeout {
        return crate::text::str_to_string("Live Client Data API 请求超时，请确认 LOL 正在运行且已进入游戏。");
    }
    if connect {
        return crate::text::str_to_string("无法连接 Live Client Data API，请确认 LOL 正在运行且已进入游戏。");
    }
    let lower = lowercase_chars(&to_chars(message));
    if contains_chars(&lower, &to_chars("cert")) {
        prefixed("Live Client Data API 本地 HTTPS 证书处理失败: ", message)
    } else {
        prefixed("读取 Live Client Data API 失败: ", message)
    }
}

/// What is read of a failed HTTP request: whether it timed out, whether the
/// connection failed, and the error's text.
#[derive(Debug, Clone)]
pub struct RequestFailure {
    pub timeout: bool,
    pub connect: bool,
    pub message: String,
}

/// The message for a failed request to the Live Client Data API.
pub fn live_client_error(err: RequestFailure) -> (r: String)
    ensures
        r@ == live_client_failure_text(err.timeout, err.connect, err.message@),
{
    live_client_failure_message(err.timeout, err.connect, err.message.as_str())
}

/// What the user is told when a request to ApexLOL fails.
pub open spec fn apex_lol_failure_text(timeout: bool, connect: bool, message: Seq<char>) -> Seq<char> {
    if timeout {
        "ApexLOL 请求超时，请稍后重试或使用缓存结果。"@
    } else if connect {
        "无法连接 ApexLOL，请检查网络后重试。"@
    } else {
        "请求 ApexLOL 失败: "@ + message
    }
}

pub fn apex_lol_failure_message(timeout: bool, connect: bool, message: &str) -> (r: String)
    ensures
        r@ == apex_lol_failure_text(timeout, connect, message@),
{
    if timeout {
        crate::text::str_to_string("ApexLOL 请求超时，请稍后重试或使用缓存结果。")
    } else if connect {
        crate::text::str_to_string("无法连接 ApexLOL，请检查网络后重试。")
    } else {
        prefixed("请求 ApexLOL 失败: ", message)
    }
}

/// The message for a failed request to ApexLOL.
pub fn apex_lol_request_error(err: RequestFailure) -> (r: String)
    ensures
        r@ == apex_lol_failure_text(err.timeout, err.connect, err.message@),
{
    apex_lol_failure_message(err.timeout, err.connect, err.message.as_str())
}

/// Failures met while reading the Live Client Data API after the request was sent.
#[derive(Debug, Clone, Copy, PartialEq, Eq, Structural)]
pub enum LiveClientFailure {
    /// The HTTP client could not be built; the detail is the builder's error.
    Client,
    /// The API answered with a status other than success; the detail is the status.
    Status,
    /// The answer was not JSON; the detail is the parser's error.
    Json,
}

pub open spec fn live_client_step_text(kind: LiveClientFailure, detail: Seq<char>) -> Seq<char> {
    match kind {
        LiveClientFailure::Client => "创建 Live Client Data API 客户端失败: "@ + detail,
        LiveClientFailure::Status => "Live Client Data API 返回 HTTP "@ + detail
            + "，请确认 LOL 对局已进入游戏。"@,
        LiveClientFailure::Json => "解析 Live Client Data API 响应失败: "@ + detail,
    }
}

pub fn live_client_step_message(kind: LiveClientFailure, detail: &str) -> (r: String)
    ensures
        r@ == live_client_step_text(kind, detail@),
{
    match kind {
        LiveClientFailure::Client => prefixed("创建 Live Client Data API 客户端失败: ", detail),
        LiveClientFailure::Status => {
            let mut m = to_chars("Live Client Data API 返回 HTTP ");
            append_chars(&mut m, &to_chars(detail));
            append_chars(&mut m, &to_chars("，请确认 LOL 对局已进入游戏。"));
            string_from_chars(m.as_slice())
        },
        LiveClientFailure::Json => prefixed("解析 Live Client Data API 响应失败: ", detail),
    }
}

/// The message when an ApexLOL page answers with a status other than success.
pub fn apex_lol_status_message(status: &str, url: &str) -> (r: String)
    ensures
        r@ == "ApexLOL 返回 HTTP "@ + status@ + ": "@ + url@,
{
    let mut m = to_chars("ApexLOL 返回 HTTP ");
    append_chars(&mut m, &to_chars(status));
    append_chars(&mut m, &to_chars(": "));
    append_chars(&mut m, &to_chars(url));
    string_from_chars(m.as_slice())
}

/// The message when an ApexLOL page's body cannot be read.
pub fn apex_lol_body_message(cause: &str) -> (r: String)
    ensures
        r@ == "读取 ApexLOL 响应失败: "@ + cause@,
{
    prefixed("读取 ApexLOL 响应失败: ", cause)
}

/// What is read of the active player: the text under `championName` and the
/// unsigned number under `level`, when the answer has them.
pub fn active_player_fields(raw: &JsonObject) -> (r: (Option<String>, Option<u64>))
    ensures
        opt_view(r.0) == json_text(*raw, "championName"@),
        r.1 == json_unsigned(*raw, "level"@),
{
    let champion_name = match json_field_at(raw, "championName") {
        Some(JsonScalar::Text(s)) => Some(s.clone()),
        _ => None,
    };
    let level = match json_field_at(raw, "level") {
        Some(JsonScalar::Unsigned(n)) => Some(*n),
        _ => None,
    };
    (champion_name, level)
}

} // verus!
