use http_dragonfly::config::strategy::ResponseStrategy;
use http_dragonfly::config::target::{
    condition_input_text, ConditionFilter, TargetConditionConfig, TargetConfig,
    TargetOnErrorAction,
};
use http_dragonfly::context::{Context, ContextMap};
use http_dragonfly::handler::{select_targets, InboundRequest, TargetSelection};

fn root_ctx() -> Context {
    Context::root_from_environment(&ContextMap::new())
}

fn request_with_header(name: &str, value: &str) -> InboundRequest {
    InboundRequest {
        method: "GET".to_string(),
        path: "/p".to_string(),
        host: Some("h".to_string()),
        query: None,
        uri_full: "http://h/p".to_string(),
        headers: vec![(name.to_string(), value.to_string())],
        body: Vec::new(),
    }
}

fn filter_target(id: &str, expr: &str) -> TargetConfig {
    TargetConfig::new(
        Some(id.to_string()),
        "http://upstream/".to_string(),
        None,
        None,
        60_000,
        TargetOnErrorAction::Propagate,
        None,
        Some(TargetConditionConfig::from_str(expr).unwrap()),
        None,
    )
}

fn default_target(id: &str) -> TargetConfig {
    TargetConfig::new(
        Some(id.to_string()),
        "http://upstream/".to_string(),
        None,
        None,
        60_000,
        TargetOnErrorAction::Propagate,
        None,
        Some(TargetConditionConfig::from_str("default").unwrap()),
        None,
    )
}

#[test]
fn filter_runs_on_synthesized_view() {
    let ctx = root_ctx();
    let target = filter_target("t1", ".request.headers[\"x-pick\"]==\"1\"");
    assert!(target.check_condition(&ctx, &request_with_header("x-pick", "1")));
    assert!(!target.check_condition(&ctx, &request_with_header("x-pick", "2")));
}

#[test]
fn filter_reads_env_and_body() {
    let ctx = root_ctx();
    let env_target = filter_target("t-env", ".env.CTX_APP_NAME==\"http_dragonfly\"");
    assert!(env_target.check_condition(&ctx, &request_with_header("x", "y")));

    let body_target = filter_target("t-body", ".body.kind==\"demo\"");
    let mut req = request_with_header("x", "y");
    req.body = b"{\"kind\":\"demo\"}".to_vec();
    assert!(body_target.check_condition(&ctx, &req));
    req.body = b"not json at all".to_vec();
    assert!(!body_target.check_condition(&ctx, &req));
}

#[test]
fn condition_parse_errors_abort() {
    assert!(ConditionFilter::from_str(".request.uri.path==").is_err());
    assert!(TargetConditionConfig::from_str("default").is_ok());
    assert!(TargetConditionConfig::from_str(".x==1").is_ok());
}

#[test]
fn synthesized_view_is_exact() {
    let ctx = root_ctx();
    let req = request_with_header("a", "b");
    let text = condition_input_text(&ctx, &req);
    let expected = "{\"body\":{},\"env\":{\"CTX_APP_NAME\":\"http_dragonfly\",\"CTX_APP_VERSION\":\"0.1.0\"},\"request\":{\"headers\":{\"a\":\"b\"},\"uri\":{\"full\":\"http://h/p\",\"host\":\"h\",\"path\":\"/p\",\"query\":null}}}";
    assert_eq!(text, expected.to_string());
}

#[test]
fn conditional_routing_selects_single_true_filter() {
    let strategy = ResponseStrategy::ConditionalRouting;
    let targets = vec![filter_target("t1", ".x==1"), filter_target("t2", ".x==2"), default_target("tD")];

    // the second filter is satisfied
    match select_targets(&strategy, &targets, &vec![false, true, false]) {
        TargetSelection::Selected(v) => assert_eq!(v, vec![1]),
        TargetSelection::Ambiguous => panic!("unexpected ambiguity"),
    }

    // no filter satisfied: the default is chosen
    match select_targets(&strategy, &targets, &vec![false, false, false]) {
        TargetSelection::Selected(v) => assert_eq!(v, vec![2]),
        TargetSelection::Ambiguous => panic!("unexpected ambiguity"),
    }

    // both filters satisfied: ambiguous, nothing to dispatch
    match select_targets(&strategy, &targets, &vec![true, true, false]) {
        TargetSelection::Selected(_) => panic!("ambiguity expected"),
        TargetSelection::Ambiguous => {}
    }
}

#[test]
fn conditional_routing_without_default_may_select_none() {
    let strategy = ResponseStrategy::ConditionalRouting;
    let targets = vec![filter_target("t1", ".x==1"), filter_target("t2", ".x==2")];
    match select_targets(&strategy, &targets, &vec![false, false]) {
        TargetSelection::Selected(v) => assert!(v.is_empty()),
        TargetSelection::Ambiguous => panic!("unexpected ambiguity"),
    }
}

#[test]
fn ordinary_strategies_select_all_matching() {
    let strategy = ResponseStrategy::FailedThenOk;
    let unconditional = TargetConfig::new(
        Some("plain".to_string()),
        "http://upstream/".to_string(),
        None,
        None,
        60_000,
        TargetOnErrorAction::Propagate,
        None,
        None,
        None,
    );
    let targets = vec![unconditional, filter_target("t1", ".x==1"), default_target("tD")];
    match select_targets(&strategy, &targets, &vec![false, false, false]) {
        TargetSelection::Selected(v) => assert_eq!(v, vec![0, 2]),
        TargetSelection::Ambiguous => panic!("unexpected ambiguity"),
    }
    match select_targets(&strategy, &targets, &vec![false, true, false]) {
        TargetSelection::Selected(v) => assert_eq!(v, vec![0, 1, 2]),
        TargetSelection::Ambiguous => panic!("unexpected ambiguity"),
    }
}
