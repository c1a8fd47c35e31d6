use connchk::probe::HTTP_OK;
use connchk::{CheckFailure, HttpOptions, Probe, Reply, ResType, Resource};
use std::collections::HashMap;

fn tcp(desc: &str, addr: &str) -> Resource {
    Resource::new(desc.to_string(), addr.to_string(), ResType::Tcp, None)
}

fn http(desc: &str, addr: &str, custom: Option<HttpOptions>) -> Resource {
    Resource::new(desc.to_string(), addr.to_string(), ResType::Http, custom)
}

fn form(pairs: &[(&str, &str)]) -> HashMap<String, String> {
    let mut params = HashMap::new();
    for (key, value) in pairs {
        params.insert(key.to_string(), value.to_string());
    }
    params
}

fn json_object(pairs: &[(&str, &str)]) -> serde_json::Value {
    let mut object = serde_json::Map::new();
    for (key, value) in pairs {
        object.insert(key.to_string(), serde_json::Value::String(value.to_string()));
    }
    serde_json::Value::Object(object)
}

fn response(status: u16, body: &str) -> Reply {
    Reply::Response { status, body: Some(body.to_string()) }
}

fn refused() -> Reply {
    Reply::Failed { detail: "Connection refused (os error 111)".to_string() }
}

#[test]
fn new_target_is_pending() {
    let target = tcp("ssh", "localhost:22");
    assert_eq!(target.desc, "ssh");
    assert_eq!(target.addr, "localhost:22");
    assert_eq!(target.kind, ResType::Tcp);
    assert_eq!(target.custom, None);
    assert_eq!(target.res, None);
}

#[test]
fn tcp_target_is_connected_to() {
    let target = tcp("ssh", "localhost:22");
    assert_eq!(target.probe(), Probe::Connect { addr: &target.addr });
    assert_eq!(target.probe().expected(), None);
}

#[test]
fn tcp_target_ignores_custom_options() {
    let options = HttpOptions { params: Some(form(&[("a", "b")])), json: None, ok: 201 };
    let target =
        Resource::new("db".to_string(), "db:5432".to_string(), ResType::Tcp, Some(options));
    assert_eq!(target.probe(), Probe::Connect { addr: &target.addr });
    assert_eq!(target.check(&Reply::Connected), Ok(()));
    assert_eq!(target.check(&response(500, "oops")), Ok(()));
}

#[test]
fn plain_http_target_is_fetched() {
    let target = http("site", "https://example.org/", None);
    assert_eq!(target.probe(), Probe::Get { addr: &target.addr });
    assert_eq!(target.probe().expected(), Some(200));
    assert_eq!(HTTP_OK, 200);
}

#[test]
fn custom_params_are_posted_as_form() {
    let params = form(&[("user", "alice"), ("token", "s3cr3t")]);
    let options = HttpOptions { params: Some(params.clone()), json: None, ok: 201 };
    let target = http("login", "https://example.org/login", Some(options));
    assert_eq!(
        target.probe(),
        Probe::PostForm { addr: &target.addr, params: &params, ok: 201 }
    );
    assert_eq!(target.probe().expected(), Some(201));
}

#[test]
fn custom_json_is_posted_as_body() {
    let json = json_object(&[("name", "probe")]);
    let options = HttpOptions { params: None, json: Some(json.clone()), ok: 200 };
    let target = http("api", "https://example.org/api", Some(options));
    assert_eq!(target.probe(), Probe::PostJson { addr: &target.addr, json: &json, ok: 200 });
    assert_eq!(target.probe().expected(), Some(200));
}

#[test]
fn params_win_over_json() {
    let params = form(&[("k", "v")]);
    let json = json_object(&[("k", "v")]);
    let options = HttpOptions { params: Some(params.clone()), json: Some(json), ok: 202 };
    let target = http("both", "https://example.org/both", Some(options));
    assert_eq!(
        target.probe(),
        Probe::PostForm { addr: &target.addr, params: &params, ok: 202 }
    );
}

#[test]
fn empty_custom_options_fall_back_to_get() {
    let options = HttpOptions { params: None, json: None, ok: 204 };
    let target = http("bare", "https://example.org/", Some(options));
    assert_eq!(target.probe(), Probe::Get { addr: &target.addr });
    assert_eq!(target.probe().expected(), Some(200));
    assert_eq!(target.check(&response(200, "")), Ok(()));
    assert_eq!(
        target.check(&response(204, "")),
        Err(CheckFailure::Status { code: 204, body: Some(String::new()) })
    );
}

#[test]
fn probe_accepts_only_the_expected_status() {
    let target = http("site", "https://example.org/", None);
    assert!(target.probe().accepts(200));
    assert!(!target.probe().accepts(201));
    assert!(!target.probe().accepts(404));

    let options = HttpOptions { params: Some(form(&[("a", "b")])), json: None, ok: 201 };
    let custom = http("form", "https://example.org/form", Some(options));
    assert!(custom.probe().accepts(201));
    assert!(!custom.probe().accepts(200));

    let socket = tcp("ssh", "localhost:22");
    assert!(!socket.probe().accepts(200));
}

#[test]
fn tcp_check_succeeds_when_connected() {
    let target = tcp("ssh", "127.0.0.1:22");
    assert_eq!(target.check(&Reply::Connected), Ok(()));
}

#[test]
fn tcp_check_fails_with_connection_refused() {
    let target = tcp("closed", "127.0.0.1:1");
    let failure = target.check(&refused()).unwrap_err();
    assert_eq!(
        failure,
        CheckFailure::Transport { detail: "Connection refused (os error 111)".to_string() }
    );
    assert_eq!(failure.detail(), "Connection refused (os error 111)");
}

#[test]
fn plain_http_check_succeeds_on_200_only() {
    let target = http("site", "http://127.0.0.1:8080/", None);
    assert_eq!(target.check(&Reply::Response { status: 200, body: None }), Ok(()));
    for status in [100u16, 199, 201, 204, 301, 404, 500, 999] {
        let failure = target.check(&response(status, "body")).unwrap_err();
        assert_eq!(failure, CheckFailure::Status { code: status, body: Some("body".to_string()) });
        assert!(failure.detail().contains(&status.to_string()));
    }
}

#[test]
fn plain_http_check_fails_on_transport_error() {
    let target = http("site", "http://127.0.0.1:1/", None);
    let reply = Reply::Failed { detail: "error sending request".to_string() };
    assert_eq!(
        target.check(&reply),
        Err(CheckFailure::Transport { detail: "error sending request".to_string() })
    );
}

#[test]
fn form_check_succeeds_on_its_own_status() {
    let options = HttpOptions { params: Some(form(&[("user", "alice")])), json: None, ok: 201 };
    let target = http("login", "http://127.0.0.1:8080/login", Some(options));
    assert_eq!(target.check(&response(201, "created")), Ok(()));
    assert_eq!(
        target.check(&response(200, "ok")),
        Err(CheckFailure::Status { code: 200, body: Some("ok".to_string()) })
    );
    assert_eq!(
        target.check(&response(400, "bad fields")),
        Err(CheckFailure::Status { code: 400, body: Some("bad fields".to_string()) })
    );
}

#[test]
fn json_check_succeeds_on_its_own_status() {
    let options = HttpOptions { params: None, json: Some(json_object(&[("a", "b")])), ok: 200 };
    let target = http("api", "http://127.0.0.1:8080/api", Some(options));
    assert_eq!(target.check(&response(200, "")), Ok(()));
    assert_eq!(
        target.check(&response(422, "mismatch")),
        Err(CheckFailure::Status { code: 422, body: Some("mismatch".to_string()) })
    );
}

#[test]
fn http_check_without_response_fails() {
    let target = http("site", "http://127.0.0.1:8080/", None);
    let failure = target.check(&Reply::Connected).unwrap_err();
    assert_eq!(failure, CheckFailure::NoResponse);
    assert_eq!(failure.detail(), "no response received");
}

#[test]
fn status_failure_detail_has_code_and_body() {
    let failure = CheckFailure::Status { code: 404, body: Some("Not Found".to_string()) };
    assert_eq!(failure.detail(), "\n\tStatus: 404\n\tDetails: Not Found");
}

#[test]
fn status_failure_detail_with_unreadable_body_is_empty_after_label() {
    let failure = CheckFailure::Status { code: 503, body: None };
    assert_eq!(failure.detail(), "\n\tStatus: 503\n\tDetails: ");
}

#[test]
fn check_does_not_change_the_target() {
    let target = http("site", "http://127.0.0.1:8080/", None);
    let before = target.clone();
    let _ = target.check(&response(404, "x"));
    let _ = target.check(&Reply::Connected);
    assert_eq!(target, before);
    assert_eq!(target.res, None);
}
