use screen_capture_diagnostic::json::{JsonObject, JsonScalar};
use screen_capture_diagnostic::live_client::{
    active_player_fields, apex_lol_body_message, apex_lol_failure_message, apex_lol_request_error, apex_lol_status_message,
    is_local_active_player_endpoint, live_client_active_player_url, live_client_error,
    live_client_failure_message, live_client_step_message, LiveClientFailure, RequestFailure,
};

#[test]
fn the_active_player_address_is_accepted() {
    let url = live_client_active_player_url().unwrap();
    assert_eq!(url.as_str(), "https://127.0.0.1:2999/liveclientdata/activeplayer");
}

#[test]
fn only_the_local_endpoint_is_accepted() {
    let https = "https".to_string();
    let path = "/liveclientdata/activeplayer".to_string();
    let local = Some("127.0.0.1".to_string());
    assert!(is_local_active_player_endpoint(&https, &local, Some(2999), &path));
    assert!(!is_local_active_player_endpoint(&"http".to_string(), &local, Some(2999), &path));
    assert!(!is_local_active_player_endpoint(&https, &Some("localhost".to_string()), Some(2999), &path));
    assert!(!is_local_active_player_endpoint(&https, &None, Some(2999), &path));
    assert!(!is_local_active_player_endpoint(&https, &local, Some(443), &path));
    assert!(!is_local_active_player_endpoint(&https, &local, None, &path));
    assert!(!is_local_active_player_endpoint(&https, &local, Some(2999), &"/".to_string()));
}

#[test]
fn live_client_failures() {
    assert_eq!(
        live_client_failure_message(true, true, "x"),
        "Live Client Data API 请求超时，请确认 LOL 正在运行且已进入游戏。"
    );
    assert_eq!(
        live_client_failure_message(false, true, "x"),
        "无法连接 Live Client Data API，请确认 LOL 正在运行且已进入游戏。"
    );
    assert_eq!(
        live_client_failure_message(false, false, "Invalid CERTificate"),
        "Live Client Data API 本地 HTTPS 证书处理失败: Invalid CERTificate"
    );
    assert_eq!(
        live_client_failure_message(false, false, "boom"),
        "读取 Live Client Data API 失败: boom"
    );
}

#[test]
fn apex_lol_failures() {
    assert_eq!(apex_lol_failure_message(true, false, "x"), "ApexLOL 请求超时，请稍后重试或使用缓存结果。");
    assert_eq!(apex_lol_failure_message(false, true, "x"), "无法连接 ApexLOL，请检查网络后重试。");
    assert_eq!(apex_lol_failure_message(false, false, "cert bad"), "请求 ApexLOL 失败: cert bad");
    assert_eq!(
        apex_lol_status_message("404 Not Found", "https://apexlol.info/zh/champions/"),
        "ApexLOL 返回 HTTP 404 Not Found: https://apexlol.info/zh/champions/"
    );
    assert_eq!(apex_lol_body_message("eof"), "读取 ApexLOL 响应失败: eof");
}

#[test]
fn live_client_step_failures() {
    assert_eq!(
        live_client_step_message(LiveClientFailure::Client, "tls"),
        "创建 Live Client Data API 客户端失败: tls"
    );
    assert_eq!(
        live_client_step_message(LiveClientFailure::Status, "404 Not Found"),
        "Live Client Data API 返回 HTTP 404 Not Found，请确认 LOL 对局已进入游戏。"
    );
    assert_eq!(
        live_client_step_message(LiveClientFailure::Json, "EOF"),
        "解析 Live Client Data API 响应失败: EOF"
    );
}

fn failure(timeout: bool, connect: bool, message: &str) -> RequestFailure {
    RequestFailure { timeout, connect, message: message.to_string() }
}

#[test]
fn request_errors_by_kind() {
    assert_eq!(
        live_client_error(failure(true, false, "x")),
        "Live Client Data API 请求超时，请确认 LOL 正在运行且已进入游戏。"
    );
    assert_eq!(
        live_client_error(failure(false, true, "x")),
        "无法连接 Live Client Data API，请确认 LOL 正在运行且已进入游戏。"
    );
    assert_eq!(
        live_client_error(failure(false, false, "bad Cert")),
        "Live Client Data API 本地 HTTPS 证书处理失败: bad Cert"
    );
    assert_eq!(live_client_error(failure(false, false, "builder error")), "读取 Live Client Data API 失败: builder error");
    assert_eq!(apex_lol_request_error(failure(true, true, "x")), "ApexLOL 请求超时，请稍后重试或使用缓存结果。");
    assert_eq!(apex_lol_request_error(failure(false, true, "x")), "无法连接 ApexLOL，请检查网络后重试。");
    assert_eq!(apex_lol_request_error(failure(false, false, "eof")), "请求 ApexLOL 失败: eof");
}

#[test]
fn active_player_name_and_level() {
    let raw = JsonObject {
        entries: vec![
            ("championName".to_string(), JsonScalar::Text("Ahri".to_string())),
            ("level".to_string(), JsonScalar::Unsigned(7)),
        ],
    };
    assert_eq!(active_player_fields(&raw), (Some("Ahri".to_string()), Some(7)));
    let partial = JsonObject {
        entries: vec![
            ("championName".to_string(), JsonScalar::Unsigned(3)),
            ("level".to_string(), JsonScalar::Text("7".to_string())),
        ],
    };
    assert_eq!(active_player_fields(&partial), (None, None));
    assert_eq!(active_player_fields(&JsonObject { entries: vec![] }), (None, None));
}
