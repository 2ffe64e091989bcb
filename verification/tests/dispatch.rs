use http_dragonfly::config::headers::{HeaderTransform, HeaderTransformActon, Headers};
use http_dragonfly::config::response::{
    HttpResponse, OverrideConfig, ResponseConfig, ResponseKind, ResponsesMap,
};
use http_dragonfly::config::strategy::ResponseStrategy;
use http_dragonfly::context::{Context, ContextMap};
use http_dragonfly::config::listener::{ListenerConfig, ListenOn};
use http_dragonfly::config::target::{TargetConfig, TargetOnErrorAction, TlsConfig};
use http_dragonfly::handler::{finish_request, select_final_response, ResponseResult, UpstreamErrorKind};

const DEFAULT_FAILED_REGEX: &str = "4\\d{2}|5\\d{2}";

fn root_ctx() -> Context {
    Context::root_from_environment(&ContextMap::new())
}

fn default_response_config() -> ResponseConfig {
    ResponseConfig::new(None, DEFAULT_FAILED_REGEX.to_string(), 500, None)
}

fn response(status: u16) -> HttpResponse {
    HttpResponse { status, headers: Headers::new(), body: Vec::new() }
}

fn two_target_map(first: (&str, Option<u16>), second: (&str, Option<u16>)) -> ResponsesMap {
    let ctx = root_ctx();
    let mut map = ResponsesMap::new();
    map.push(first.0.to_string(), first.1.map(response), ctx.with(ContextMap::new()));
    map.push(second.0.to_string(), second.1.map(response), ctx.with(ContextMap::new()));
    map
}

#[test]
fn find_first_honors_declaration_order() {
    // A is declared first and is ok; B is failed.  Whatever order the
    // upstream calls completed in, the map is keyed in declaration order
    // and A is the first ok, B the first failed.
    let cfg = default_response_config();
    let map = two_target_map(("A", Some(200)), ("B", Some(502)));
    assert_eq!(cfg.find_first_response(&map, ResponseKind::Success), Some("A".to_string()));
    assert_eq!(cfg.find_first_response(&map, ResponseKind::Failed), Some("B".to_string()));

    let map = two_target_map(("B", Some(502)), ("A", Some(200)));
    assert_eq!(cfg.find_first_response(&map, ResponseKind::Success), Some("A".to_string()));
    assert_eq!(cfg.find_first_response(&map, ResponseKind::Failed), Some("B".to_string()));
}

#[test]
fn failed_then_ok_picks_first_failed() {
    let cfg = default_response_config();
    let ctx = root_ctx();
    let map = two_target_map(("WRONG", Some(502)), ("GOOD", Some(200)));
    let resp = select_final_response(&ResponseStrategy::FailedThenOk, &cfg, map, None, &ctx);
    assert_eq!(resp.status, 502);
}

#[test]
fn failed_then_ok_without_failure_picks_ok() {
    let cfg = default_response_config();
    let ctx = root_ctx();
    let map = two_target_map(("GOOD", Some(200)), ("OTHER", Some(201)));
    let resp = select_final_response(&ResponseStrategy::FailedThenOk, &cfg, map, None, &ctx);
    assert_eq!(resp.status, 200);
}

#[test]
fn ok_then_failed_prefers_ok() {
    let cfg = default_response_config();
    let ctx = root_ctx();
    let map = two_target_map(("TIMEOUT", Some(504)), ("GOOD", Some(200)));
    let resp = select_final_response(&ResponseStrategy::OkThenFailed, &cfg, map, None, &ctx);
    assert_eq!(resp.status, 200);
}

#[test]
fn dropped_target_acts_like_never_selected() {
    // `on_error=drop` stores no response under the target's id; picking
    // that id then takes the no-target path, exactly as if the target had
    // never been selected.
    let cfg = ResponseConfig::new(
        Some("DROPPED".to_string()),
        DEFAULT_FAILED_REGEX.to_string(),
        500,
        None,
    );
    let ctx = root_ctx();
    let map = two_target_map(("DROPPED", None), ("GOOD", Some(200)));
    let resp = select_final_response(&ResponseStrategy::AlwaysTargetId, &cfg, map, None, &ctx);
    assert_eq!(resp.status, 500);

    let mut absent = ResponsesMap::new();
    absent.push("GOOD".to_string(), Some(response(200)), root_ctx());
    let resp2 = select_final_response(&ResponseStrategy::AlwaysTargetId, &cfg, absent, None, &ctx);
    assert_eq!(resp2.status, 500);
}

#[test]
fn no_selected_target_yields_no_targets_status() {
    let ctx = root_ctx();
    let cfg = ResponseConfig::new(None, DEFAULT_FAILED_REGEX.to_string(), 555, None);
    let map = ResponsesMap::new();
    let resp = select_final_response(&ResponseStrategy::OkThenFailed, &cfg, map, None, &ctx);
    assert_eq!(resp.status, 555);

    let map = ResponsesMap::new();
    let resp = select_final_response(&ResponseStrategy::ConditionalRouting, &cfg, map, None, &ctx);
    assert_eq!(resp.status, 555);
}

#[test]
fn always_override_sets_status_and_unset_variable_empties() {
    // the override runs at the request scope, where CTX_TARGET_ID is
    // unbound: the added header's value is the empty string
    let over = OverrideConfig::new(
        Some(222),
        None,
        Some(vec![HeaderTransform::from_parts(
            Some(HeaderTransformActon::Add("x-target-id".to_string())),
            Some("${CTX_TARGET_ID}".to_string()),
        )
        .unwrap()]),
    );
    let cfg = ResponseConfig::new(None, DEFAULT_FAILED_REGEX.to_string(), 500, Some(over));
    let ctx = root_ctx();
    let map = two_target_map(("A", Some(200)), ("B", Some(502)));
    let resp = select_final_response(&ResponseStrategy::AlwaysOverride, &cfg, map, None, &ctx);
    assert_eq!(resp.status, 222);
    assert_eq!(resp.headers.get("x-target-id"), Some(&"".to_string()));
}

#[test]
fn override_body_removes_content_length() {
    let over = OverrideConfig::new(None, Some("new body".to_string()), None);
    let cfg = ResponseConfig::new(None, DEFAULT_FAILED_REGEX.to_string(), 500, Some(over));
    let ctx = root_ctx();
    let mut headers = Headers::new();
    headers.insert("Content-Length".to_string(), "17".to_string());
    headers.insert("X-Kept".to_string(), "yes".to_string());
    let resp = HttpResponse { status: 200, headers, body: b"old body of 17 b.".to_vec() };
    let shaped = cfg.override_response(resp, &ctx);
    assert_eq!(shaped.status, 200);
    assert!(!shaped.headers.contains_name("Content-Length"));
    assert_eq!(shaped.headers.get("X-Kept"), Some(&"yes".to_string()));
    assert_eq!(shaped.body, b"new body".to_vec());
}

#[test]
fn error_outcomes_map_to_gateway_statuses() {
    let cfg = default_response_config();
    let connect = cfg.error_response(ResponseResult::HyperError(UpstreamErrorKind::Connect), &None);
    assert_eq!(connect.status, 502);
    let closed = cfg.error_response(ResponseResult::HyperError(UpstreamErrorKind::Closed), &None);
    assert_eq!(closed.status, 502);
    let timeout = cfg.error_response(ResponseResult::Timeout, &None);
    assert_eq!(timeout.status, 504);
    let other = cfg.error_response(ResponseResult::HyperError(UpstreamErrorKind::Other), &None);
    assert_eq!(other.status, 500);
    let overridden = cfg.error_response(ResponseResult::Timeout, &Some(599));
    assert_eq!(overridden.status, 599);
}

fn listener_with(
    strategy: ResponseStrategy,
    selector: Option<&str>,
    targets: Vec<TargetConfig>,
) -> ListenerConfig {
    ListenerConfig::new(
        Some("L".to_string()),
        ListenOn::default(),
        10_000,
        strategy,
        None,
        None,
        targets,
        ResponseConfig::new(
            selector.map(|s| s.to_string()),
            DEFAULT_FAILED_REGEX.to_string(),
            500,
            None,
        ),
        TlsConfig::default(),
    )
}

fn target(id: &str, on_error: TargetOnErrorAction, error_status: Option<u16>) -> TargetConfig {
    TargetConfig::new(
        Some(id.to_string()),
        format!("http://{id}/"),
        None,
        None,
        1_000,
        on_error,
        error_status,
        None,
        None,
    )
}

#[test]
fn failed_then_target_id_scenario() {
    // GOOD answers 200, WRONG fails to connect with `propagate`: the
    // first failed response (WRONG's 502) wins under
    // `failed_then_target_id` with the selector on WRONG.
    let listener = listener_with(
        ResponseStrategy::FailedThenTargetId,
        Some("WRONG"),
        vec![
            target("GOOD", TargetOnErrorAction::Propagate, None),
            target("WRONG", TargetOnErrorAction::Propagate, None),
        ],
    );
    let ctx = root_ctx();
    let outcomes = vec![
        ResponseResult::Success(response(200)),
        ResponseResult::HyperError(UpstreamErrorKind::Connect),
    ];
    let resp = finish_request(&listener, &vec![0, 1], outcomes, None, &ctx);
    assert_eq!(resp.status, 502);
}

#[test]
fn timeout_with_status_policy_scenario() {
    // TIMEOUT's deadline elapsed and its policy replaces the status
    let listener = listener_with(
        ResponseStrategy::FailedThenOk,
        None,
        vec![
            target("TIMEOUT", TargetOnErrorAction::Status, Some(598)),
            target("GOOD", TargetOnErrorAction::Propagate, None),
        ],
    );
    let ctx = root_ctx();
    let outcomes = vec![ResponseResult::Timeout, ResponseResult::Success(response(200))];
    let resp = finish_request(&listener, &vec![0, 1], outcomes, None, &ctx);
    assert_eq!(resp.status, 598);
}

#[test]
fn dropped_outcome_leaves_ok_to_win() {
    // WRONG's error is dropped; the only stored response wins
    let listener = listener_with(
        ResponseStrategy::FailedThenOk,
        None,
        vec![
            target("WRONG", TargetOnErrorAction::Drop, None),
            target("GOOD", TargetOnErrorAction::Propagate, None),
        ],
    );
    let ctx = root_ctx();
    let outcomes = vec![
        ResponseResult::HyperError(UpstreamErrorKind::Connect),
        ResponseResult::Success(response(204)),
    ];
    let resp = finish_request(&listener, &vec![0, 1], outcomes, None, &ctx);
    assert_eq!(resp.status, 204);
}
