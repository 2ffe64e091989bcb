use http_dragonfly::config::headers::{HeaderTransform, HeaderTransformActon, Headers};
use http_dragonfly::config::target::{TargetConfig, TargetOnErrorAction};
use http_dragonfly::context::{Context, ContextMap};
use http_dragonfly::handler::{build_target_request, InboundRequest};

fn root_ctx() -> Context {
    let mut env = ContextMap::new();
    env.insert("HTTP_ENV_SUFFIX".to_string(), "v1".to_string());
    Context::root_from_environment(&env)
}

fn inbound() -> InboundRequest {
    InboundRequest {
        method: "POST".to_string(),
        path: "/in".to_string(),
        host: Some("edge".to_string()),
        query: None,
        uri_full: "http://edge/in".to_string(),
        headers: vec![("x-keep".to_string(), "1".to_string())],
        body: b"inbound body".to_vec(),
    }
}

#[test]
fn target_request_substitutes_at_target_scope() {
    // URL, header values and the body template all pass through `${VAR}`
    // substitution with the innermost scope: here the target scope, where
    // CTX_TARGET_ID is bound.
    let target = TargetConfig::new(
        Some("T1".to_string()),
        "http://upstream/${HTTP_ENV_SUFFIX}".to_string(),
        Some(vec![HeaderTransform::from_parts(
            Some(HeaderTransformActon::Add("x-from".to_string())),
            Some("${CTX_TARGET_ID}".to_string()),
        )
        .unwrap()]),
        Some("sent by ${CTX_TARGET_ID}".to_string()),
        60_000,
        TargetOnErrorAction::Propagate,
        None,
        None,
        None,
    );
    let ctx = root_ctx();
    let tctx = ctx.with_target(&target);
    let base = Headers::new();
    let prepared = build_target_request(&target, &base, &inbound(), &tctx).unwrap();
    assert_eq!(prepared.method, "POST".to_string());
    assert_eq!(prepared.url, "http://upstream/v1".to_string());
    assert_eq!(prepared.headers.get("x-from"), Some(&"T1".to_string()));
    // `Host` was absent and is derived from the substituted URL
    assert_eq!(prepared.headers.get("Host"), Some(&"upstream".to_string()));
    assert_eq!(prepared.body, b"sent by T1".to_vec());
}

#[test]
fn target_request_reuses_inbound_body_and_host() {
    let target = TargetConfig::new(
        Some("T2".to_string()),
        "http://upstream/".to_string(),
        None,
        None,
        60_000,
        TargetOnErrorAction::Propagate,
        None,
        None,
        None,
    );
    let ctx = root_ctx();
    let tctx = ctx.with_target(&target);
    let mut base = Headers::new();
    base.insert("Host".to_string(), "pinned".to_string());
    let prepared = build_target_request(&target, &base, &inbound(), &tctx).unwrap();
    assert_eq!(prepared.body, b"inbound body".to_vec());
    // a present `Host` is kept
    assert_eq!(prepared.headers.get("Host"), Some(&"pinned".to_string()));
}

#[test]
fn target_request_fails_on_bad_substituted_url() {
    let target = TargetConfig::new(
        Some("T3".to_string()),
        "http://bad host/".to_string(),
        None,
        None,
        60_000,
        TargetOnErrorAction::Propagate,
        None,
        None,
        None,
    );
    let ctx = root_ctx();
    let tctx = ctx.with_target(&target);
    let base = Headers::new();
    assert!(build_target_request(&target, &base, &inbound(), &tctx).is_none());
}
