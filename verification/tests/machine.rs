use http_dragonfly::cache::{ClientCache, ClientKey};
use http_dragonfly::config::listener::{HttpMethod, ListenerConfig, ListenOn};
use http_dragonfly::config::response::ResponseConfig;
use http_dragonfly::config::strategy::ResponseStrategy;
use http_dragonfly::config::target::{
    TargetConditionConfig, TargetConfig, TargetOnErrorAction, TlsConfig, TlsVerifyConfig,
};
use http_dragonfly::config::AppConfig;
use http_dragonfly::context::{Context, ContextMap};
use http_dragonfly::listener::{Listener, ListenerAction, ListenerEvent};
use http_dragonfly::template::substitute;
use http_dragonfly::text::parse_duration_ms;

fn plain_target(id: &str, url: &str) -> TargetConfig {
    TargetConfig::new(
        Some(id.to_string()),
        url.to_string(),
        None,
        None,
        60_000,
        TargetOnErrorAction::Propagate,
        None,
        None,
        None,
    )
}

fn default_response() -> ResponseConfig {
    ResponseConfig::new(None, "4\\d{2}|5\\d{2}".to_string(), 500, None)
}

#[test]
fn client_cache_yields_identical_handles_for_identical_keys() {
    let mut cache: ClientCache<u32> = ClientCache::new();
    let key_a = ClientKey { timeout_ms: 1000, tls: TlsConfig::new(TlsVerifyConfig::Yes, None) };
    let key_a2 = ClientKey { timeout_ms: 1000, tls: TlsConfig::new(TlsVerifyConfig::Yes, None) };
    let key_b = ClientKey {
        timeout_ms: 1000,
        tls: TlsConfig::new(TlsVerifyConfig::Yes, Some("/etc/ca.pem".to_string())),
    };

    assert!(cache.lookup(&key_a).is_none());
    let slot_a = cache.insert(key_a, 11);
    let slot_b = cache.insert(key_b, 22);
    assert_ne!(slot_a, slot_b);

    // an identical key finds the same slot and the same handle
    let found = cache.lookup(&key_a2).unwrap();
    assert_eq!(found, slot_a);
    assert_eq!(*cache.get(found), 11);
    assert_eq!(cache.len(), 2);
}

#[test]
fn accept_loop_stops_for_good_after_shutdown() {
    let mut listener = Listener::new();
    assert!(listener.is_accepting());
    assert_eq!(listener.on_event(ListenerEvent::ConnectionAccepted), ListenerAction::Serve);
    assert_eq!(listener.on_event(ListenerEvent::AcceptFailed), ListenerAction::Ignore);
    assert_eq!(listener.on_event(ListenerEvent::ShutdownSignal), ListenerAction::DrainAndStop);
    assert!(!listener.is_accepting());
    // no event serves a connection once stopped
    assert_eq!(listener.on_event(ListenerEvent::ConnectionAccepted), ListenerAction::Ignore);
    assert_eq!(listener.on_event(ListenerEvent::ShutdownSignal), ListenerAction::Ignore);
    assert!(!listener.is_accepting());
}

#[test]
fn substitution_cases() {
    let mut env = ContextMap::new();
    env.insert("NAME".to_string(), "value".to_string());
    let ctx = Context::root_from_environment(&env);

    assert_eq!(substitute("pre-${NAME}-post", &ctx), "pre-value-post".to_string());
    assert_eq!(substitute("${UNDEFINED}", &ctx), "".to_string());
    assert_eq!(substitute("${NAME}${NAME}", &ctx), "valuevalue".to_string());
    assert_eq!(substitute("a$b{c}", &ctx), "a$b{c}".to_string());
    assert_eq!(substitute("tail ${UNCLOSED", &ctx), "tail ${UNCLOSED".to_string());
    assert_eq!(substitute("", &ctx), "".to_string());
}

#[test]
fn inner_scope_wins_substitution() {
    let mut env = ContextMap::new();
    env.insert("NAME".to_string(), "outer".to_string());
    let root = Context::root_from_environment(&env);
    let mut inner = ContextMap::new();
    inner.insert("NAME".to_string(), "inner".to_string());
    let child = root.with(inner);
    assert_eq!(substitute("${NAME}", &child), "inner".to_string());
    assert_eq!(substitute("${NAME}", &root), "outer".to_string());
}

#[test]
fn target_validation() {
    let bad_url = plain_target("t", "http://exa mple.com/");
    assert!(bad_url.validate().is_err());

    let status_without_policy = TargetConfig::new(
        Some("t".to_string()),
        "http://example.com/".to_string(),
        None,
        None,
        60_000,
        TargetOnErrorAction::Propagate,
        Some(599),
        None,
        None,
    );
    assert!(status_without_policy.validate().is_err());

    let policy_without_status = TargetConfig::new(
        Some("t".to_string()),
        "http://example.com/".to_string(),
        None,
        None,
        60_000,
        TargetOnErrorAction::Status,
        None,
        None,
        None,
    );
    assert!(policy_without_status.validate().is_err());

    let good = TargetConfig::new(
        Some("t".to_string()),
        "http://example.com/".to_string(),
        None,
        None,
        60_000,
        TargetOnErrorAction::Status,
        Some(599),
        None,
        None,
    );
    assert!(good.validate().is_ok());
    assert_eq!(good.host(), "example.com".to_string());
}

#[test]
fn default_target_id_derives_from_url() {
    let target = TargetConfig::new(
        None,
        "http://example.com/x".to_string(),
        None,
        None,
        60_000,
        TargetOnErrorAction::Propagate,
        None,
        None,
        None,
    );
    assert_eq!(target.id(), "TARGET-http://example.com/x".to_string());
}

#[test]
fn strategy_validation() {
    let targets = vec![plain_target("a", "http://a/"), plain_target("b", "http://b/")];

    // conditional routing demands conditions on every target
    assert!(ResponseStrategy::ConditionalRouting.validate(&targets, &None).is_err());

    let conditioned = vec![
        TargetConfig::new(
            Some("a".to_string()),
            "http://a/".to_string(),
            None,
            None,
            60_000,
            TargetOnErrorAction::Propagate,
            None,
            Some(TargetConditionConfig::from_str("default").unwrap()),
            None,
        ),
        TargetConfig::new(
            Some("b".to_string()),
            "http://b/".to_string(),
            None,
            None,
            60_000,
            TargetOnErrorAction::Propagate,
            None,
            Some(TargetConditionConfig::from_str(".x==1").unwrap()),
            None,
        ),
    ];
    assert!(ResponseStrategy::ConditionalRouting.validate(&conditioned, &None).is_ok());

    // a selector strategy demands a selector naming an existing target
    assert!(ResponseStrategy::AlwaysTargetId.validate(&targets, &None).is_err());
    assert!(ResponseStrategy::AlwaysTargetId
        .validate(&targets, &Some("missing".to_string()))
        .is_err());
    assert!(ResponseStrategy::AlwaysTargetId.validate(&targets, &Some("b".to_string())).is_ok());
}

#[test]
fn listener_and_app_validation() {
    let listener = ListenerConfig::new(
        Some("L1".to_string()),
        ListenOn::default(),
        10_000,
        ResponseStrategy::FailedThenOk,
        None,
        Some(vec![HttpMethod::Get, HttpMethod::Post]),
        vec![plain_target("a", "http://a/"), plain_target("b", "http://b/")],
        default_response(),
        TlsConfig::default(),
    );
    assert!(listener.validate().is_ok());
    assert!(listener.is_method_allowed("GET"));
    assert!(listener.is_method_allowed("post"));
    assert!(!listener.is_method_allowed("DELETE"));
    assert!(!listener.is_method_allowed("nonsense"));
    assert_eq!(listener.name(), "L1".to_string());

    let unnamed = ListenerConfig::new(
        None,
        ListenOn::default(),
        10_000,
        ResponseStrategy::FailedThenOk,
        None,
        None,
        vec![plain_target("a", "http://a/")],
        default_response(),
        TlsConfig::default(),
    );
    assert_eq!(unnamed.name(), "LISTENER-0.0.0.0:8080".to_string());
    assert!(unnamed.is_method_allowed("DELETE"));

    let empty = AppConfig::new(Vec::new());
    assert!(empty.validate().is_err());

    let duplicate_ids = ListenerConfig::new(
        None,
        ListenOn::default(),
        10_000,
        ResponseStrategy::FailedThenOk,
        None,
        None,
        vec![plain_target("a", "http://a/"), plain_target("a", "http://b/")],
        default_response(),
        TlsConfig::default(),
    );
    assert!(duplicate_ids.validate().is_err());

    let good = AppConfig::new(vec![unnamed]);
    assert!(good.validate().is_ok());
}

#[test]
fn duration_grammar() {
    assert_eq!(parse_duration_ms("10s"), Some(10_000));
    assert_eq!(parse_duration_ms("300ms"), Some(300));
    assert_eq!(parse_duration_ms("5m"), Some(300_000));
    assert_eq!(parse_duration_ms("2h"), Some(7_200_000));
    assert_eq!(parse_duration_ms("7"), Some(7_000));
    assert_eq!(parse_duration_ms("x"), None);
    assert_eq!(parse_duration_ms("10x"), None);
    assert_eq!(parse_duration_ms(""), None);
}
