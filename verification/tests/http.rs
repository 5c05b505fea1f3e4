use ksu_webui::connection::{answer, check, handle_conn, set_reply, ConnEvent, ConnStep};
use ksu_webui::failure::Failure;
use ksu_webui::feature::{set_feature_persist, SetEvent, SetStep};
use ksu_webui::panel::PANEL_HTML;
use ksu_webui::request::{parse_request, read_request, MAX_REQUEST};
use ksu_webui::response::{reason_phrase, respond, Response};
use ksu_webui::status::{Reading, Status};
use std::collections::HashMap;

const TOKEN: &str = "0123456789abcdef0123456789abcdef";

fn after(request: &str, token: Option<&str>) -> ConnStep {
    let step = handle_conn(ConnStep::Receive, ConnEvent::Received(request.as_bytes().to_vec()));
    assert!(matches!(step, ConnStep::LoadToken { .. }));
    handle_conn(step, ConnEvent::Token(token.map(String::from)))
}

fn response(step: ConnStep) -> Response {
    match step {
        ConnStep::Send(r) => r,
        other => panic!("{other:?}"),
    }
}

fn get(target: &str) -> String {
    format!("GET {target} HTTP/1.1\r\nHost: 127.0.0.1:8389\r\n\r\n")
}

fn is_forbidden(step: ConnStep) -> bool {
    let r = response(step);
    r.code == 403
        && r.content_type == "text/plain; charset=utf-8"
        && r.body
            == "forbidden: token required\nhint: adb shell su -c 'cat /data/adb/ksu/webui_token'\n"
}

#[test]
fn a_request_is_taken_apart() {
    let r = parse_request("POST /a/b?x=1?y HTTP/1.1\r\nHost: h\r\nX-KSU-TOKEN:  abc \r\n\r\nbody");
    assert_eq!(r.method, "POST");
    assert_eq!(r.path, "/a/b");
    assert_eq!(r.query, "x=1?y");
    assert_eq!(r.header_token.as_deref(), Some("abc"));
}

#[test]
fn an_odd_request_is_taken_apart_as_far_as_it_goes() {
    let r = parse_request("");
    assert_eq!((r.method.as_str(), r.path.as_str(), r.query.as_str()), ("", "", ""));
    assert!(r.header_token.is_none());
    let r = parse_request("GET");
    assert_eq!((r.method.as_str(), r.path.as_str()), ("GET", ""));
    let r = parse_request("\r\nGET / HTTP/1.1\r\n");
    assert_eq!((r.method.as_str(), r.path.as_str()), ("", ""));
    let r = parse_request("  GET \t /x\n");
    assert_eq!((r.method.as_str(), r.path.as_str()), ("GET", "/x"));
}

#[test]
fn the_last_token_header_counts() {
    let r = parse_request("GET / HTTP/1.1\nx-ksu-token: a\nX-Ksu-Token: b\nHost: h\n\nx-ksu-token: c\n");
    assert_eq!(r.header_token.as_deref(), Some("b"));
    let r = parse_request("GET / HTTP/1.1\n\nx-ksu-token: c\n");
    assert_eq!(r.header_token, None);
    let r = parse_request("GET / HTTP/1.1\n \nx-ksu-token: c:d");
    assert_eq!(r.header_token.as_deref(), Some("c:d"));
}

#[test]
fn bytes_that_are_no_utf8_are_replaced() {
    let r = read_request(b"GET /\xff?q=\xe4\xbd\xa0\xf0\x9f HTTP/1.1\r\n");
    assert_eq!(r.path, "/\u{fffd}");
    assert_eq!(r.query, "q=\u{4f60}\u{fffd}");
    let r = read_request("GET /你?ü HTTP/1.1\r\n".as_bytes());
    assert_eq!((r.path.as_str(), r.query.as_str()), ("/你", "ü"));
    assert_eq!(MAX_REQUEST, 16 * 1024);
}

#[test]
fn nothing_received_closes_the_connection() {
    let step = handle_conn(ConnStep::Receive, ConnEvent::Received(Vec::new()));
    assert!(matches!(step, ConnStep::Close));
    let step = handle_conn(step, ConnEvent::Token(Some(TOKEN.to_string())));
    assert!(matches!(step, ConnStep::Close));
}

#[test]
fn a_request_without_the_token_is_forbidden() {
    for target in ["/", "/api/status", "/api/feature/set?id=0&value=1", "/nowhere"] {
        assert!(is_forbidden(after(&get(target), Some(TOKEN))), "{target}");
        let sep = if target.contains('?') { '&' } else { '?' };
        let wrong = format!("{target}{sep}token={TOKEN}0");
        assert!(is_forbidden(after(&get(&wrong), Some(TOKEN))), "{target}");
        let empty = format!("{target}{sep}token=");
        assert!(is_forbidden(after(&get(&empty), Some(TOKEN))), "{target}");
    }
}

#[test]
fn a_token_that_cannot_be_loaded_is_an_internal_error() {
    let r = response(after(&get(&format!("/?token={TOKEN}")), None));
    assert_eq!(r.code, 500);
    assert_eq!(r.content_type, "text/plain; charset=utf-8");
    assert_eq!(r.body, "internal error: token unavailable\n");
}

#[test]
fn the_token_in_the_address_opens_the_page() {
    let r = response(after(&get(&format!("/?token={TOKEN}")), Some(TOKEN)));
    assert_eq!(r.code, 200);
    assert_eq!(r.content_type, "text/html; charset=utf-8");
    assert_eq!(r.body, PANEL_HTML);
    assert!(r.body.starts_with("<!DOCTYPE html>\n") && r.body.ends_with("\n</html>"));
}

#[test]
fn the_token_in_a_header_opens_the_page() {
    let request = format!("GET / HTTP/1.1\r\nHost: h\r\nX-KSU-Token: {TOKEN}\r\n\r\n");
    assert_eq!(response(after(&request, Some(TOKEN))).code, 200);
}

#[test]
fn the_header_comes_before_the_address() {
    let request = format!("GET /?token={TOKEN} HTTP/1.1\r\nX-KSU-Token: wrong\r\n\r\n");
    assert!(is_forbidden(after(&request, Some(TOKEN))));
    let request = format!("GET /?token=wrong HTTP/1.1\r\nX-KSU-Token: {TOKEN}\r\n\r\n");
    assert_eq!(response(after(&request, Some(TOKEN))).code, 200);
    let request = format!("GET /?token={TOKEN} HTTP/1.1\r\nX-KSU-Token:\r\n\r\n");
    assert!(is_forbidden(after(&request, Some(TOKEN))));
}

#[test]
fn other_paths_and_methods_are_not_found() {
    for (method, path) in [
        ("GET", "/nowhere"),
        ("POST", "/"),
        ("POST", "/api/status"),
        ("PUT", "/api/feature/set"),
        ("get", "/"),
        ("GET", "/api/status/"),
    ] {
        let r = response(after(&format!("{method} {path}?token={TOKEN} HTTP/1.1\r\n\r\n"), Some(TOKEN)));
        assert_eq!(r.code, 404, "{method} {path}");
        assert_eq!(r.content_type, "text/plain; charset=utf-8");
        assert_eq!(r.body, "not found\n");
    }
}

#[test]
fn the_status_is_asked_for_and_sent() {
    let step = after(&get(&format!("/api/status?token={TOKEN}")), Some(TOKEN));
    assert!(matches!(step, ConnStep::QueryStatus));
    let status = Status {
        version_name: "v".to_string(),
        full_version: "w".to_string(),
        kernel_version_code: 12000,
        kernel_features: 1,
        uapi_version: 1,
        port: 1,
        readings: [Reading { id: 0, state: None }; 6],
    };
    let r = response(handle_conn(step, ConnEvent::Status(status)));
    assert_eq!(r.code, 200);
    assert_eq!(r.content_type, "application/json");
    assert!(r.body.starts_with("{\"version\":\"v\",\"full_version\":\"w\",\"kernel_version_code\":12000,"));
}

#[test]
fn the_page_sets_a_feature() {
    for method in ["GET", "POST"] {
        for (id, value) in [(0, 0), (5, 1), (u32::MAX, u64::MAX)] {
            let request = format!(
                "{method} /api/feature/set?id={id}&value={value}&token={TOKEN} HTTP/1.1\r\n\r\n"
            );
            match after(&request, Some(TOKEN)) {
                ConnStep::SetFeature { id: i, value: v } => assert_eq!((i, v), (id, value)),
                other => panic!("{other:?}"),
            }
        }
    }
}

#[test]
fn a_feature_needs_a_number_and_a_value() {
    for query in [
        "",
        "id=1",
        "value=1",
        "id=x&value=1",
        "id=1&value=-1",
        "id=4294967296&value=1",
        "id=1&value=18446744073709551616",
        "id=&value=1",
    ] {
        let request = format!("GET /api/feature/set?token={TOKEN}&{query} HTTP/1.1\r\n\r\n");
        let r = response(after(&request, Some(TOKEN)));
        assert_eq!(r.code, 400, "{query}");
        assert_eq!(r.content_type, "application/json");
        assert_eq!(r.body, "{\"ok\":false,\"error\":\"missing id or value\"}");
    }
}

#[test]
fn a_set_feature_is_confirmed() {
    let step = ConnStep::SetFeature { id: 4, value: 1 };
    let r = response(handle_conn(step, ConnEvent::FeatureSet(Ok(()))));
    assert_eq!((r.code, r.content_type.as_str()), (200, "application/json"));
    assert_eq!(r.body, "{\"ok\":true,\"id\":4,\"value\":1}");
}

#[test]
fn why_a_feature_is_not_set_is_said() {
    let e = Failure::new("no \"such\" \\ thing".to_string());
    let r = set_reply(4, 1, Err(e));
    assert_eq!((r.code, r.content_type.as_str()), (500, "application/json"));
    assert_eq!(r.body, "{\"ok\":false,\"error\":\"no \\\"such\\\" \\\\ thing\"}");
}

#[test]
fn a_feature_that_is_not_saved_is_answered_with_the_causes() {
    let e = Failure::new("disk full".to_string());
    let saved = set_feature_persist(
        SetStep::SaveConfig { config: HashMap::from([(4, 1)]) },
        SetEvent::Saved(Err(e)),
    );
    let set = match saved {
        SetStep::Done(r) => r,
        other => panic!("{other:?}"),
    };
    let step = ConnStep::SetFeature { id: 4, value: 1 };
    let r = response(handle_conn(step, ConnEvent::FeatureSet(set)));
    assert_eq!((r.code, r.content_type.as_str()), (500, "application/json"));
    assert_eq!(
        r.body,
        "{\"ok\":false,\"error\":\"failed to save feature config: disk full\"}"
    );
}

#[test]
fn a_request_is_checked_and_routed_in_turn() {
    let r = parse_request("GET /api/status?token=t HTTP/1.1");
    assert!(matches!(check(&r, Some("t")), ConnStep::QueryStatus));
    assert!(is_forbidden(check(&r, Some("u"))));
    assert!(matches!(answer(&r), ConnStep::QueryStatus));
}

#[test]
fn a_response_stays_the_one_that_is_sent() {
    let step = after(&get("/"), Some(TOKEN));
    let step = handle_conn(step, ConnEvent::Token(Some(TOKEN.to_string())));
    assert!(is_forbidden(handle_conn(step, ConnEvent::Received(vec![1]))));
}

#[test]
fn a_response_gives_the_length_of_its_body_in_bytes() {
    assert_eq!(
        respond(200, "text/plain; charset=utf-8", "面板\n"),
        "HTTP/1.1 200 OK\r\nContent-Type: text/plain; charset=utf-8\r\nContent-Length: 7\r\nConnection: close\r\nCache-Control: no-store\r\n\r\n面板\n"
    );
    let text = respond(404, "a", "");
    assert!(text.starts_with("HTTP/1.1 404 Not Found\r\nContent-Type: a\r\nContent-Length: 0\r\n"));
    assert!(text.ends_with("\r\n\r\n"));
    let page = respond(200, "text/html; charset=utf-8", PANEL_HTML);
    assert!(page.contains(&format!("\r\nContent-Length: {}\r\n", PANEL_HTML.len())));
    assert!(page.ends_with(PANEL_HTML));
}

#[test]
fn every_code_has_a_reason() {
    assert_eq!(reason_phrase(200), "OK");
    assert_eq!(reason_phrase(400), "Bad Request");
    assert_eq!(reason_phrase(403), "Forbidden");
    assert_eq!(reason_phrase(404), "Not Found");
    assert_eq!(reason_phrase(500), "Internal Server Error");
    assert_eq!(reason_phrase(418), "OK");
}

#[test]
fn a_token_in_the_address_is_taken_as_it_stands() {
    let plain = "aZ09-_.!~*'()";
    for token in [plain, "a/b=c+d"] {
        let page = response(after(&get(&format!("/?token={token}")), Some(token)));
        assert_eq!((page.code, page.body.as_str()), (200, PANEL_HTML));
        let step = after(&get(&format!("/api/status?x=1&token={token}")), Some(token));
        assert!(matches!(step, ConnStep::QueryStatus));
    }
    assert!(is_forbidden(after(&get("/api/status?token=a%2Fb"), Some("a/b"))));
}
