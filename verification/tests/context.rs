use http_dragonfly::config::target::{TargetConfig, TargetOnErrorAction};
use http_dragonfly::context::{Context, ContextMap, RootEnvironment, RootOsEnvironment};

const TEST_ENV_KEY: &str = "TEST_ENV_KEY";
const TEST_ENV_VALUE: &str = "TEST_ENV_VALUE";
const TEST_ENV_HEADER_NAME: &str = "TEST_ENV_HEADER_TO_ADD";
const TEST_ENV_HEADER_VALUE: &str = "TEST_ENV_HEADER_VALUE";

pub struct TestEnvironment {
    map: ContextMap,
}

impl TestEnvironment {
    pub fn test_env() -> Self {
        let mut map = ContextMap::new();
        map.insert(TEST_ENV_KEY.to_string(), TEST_ENV_VALUE.to_string());
        map.insert(TEST_ENV_HEADER_NAME.to_string(), TEST_ENV_HEADER_VALUE.to_string());
        Self { map }
    }
}

impl RootEnvironment for TestEnvironment {
    fn get_environment(&self) -> ContextMap {
        self.map.duplicate()
    }
}

pub fn get_test_ctx() -> Context {
    Context::root(TestEnvironment::test_env())
}

fn lookup(ctx: &Context, key: &str) -> Option<String> {
    ctx.get(&key.to_string()).cloned()
}

#[test]
fn context_with_test_environment() {
    let ctx = get_test_ctx();

    assert_eq!(ctx.iter().count(), 4);
    assert_eq!(lookup(&ctx, "CTX_APP_NAME"), Some("http_dragonfly".to_string()));
    assert_eq!(lookup(&ctx, "CTX_APP_VERSION"), Some("0.1.0".to_string()));
    assert_eq!(lookup(&ctx, TEST_ENV_KEY), Some(TEST_ENV_VALUE.to_string()));
}

#[test]
fn context_with() {
    let parent = get_test_ctx();
    let mut own = ContextMap::new();

    own.insert("TEST_ENV_KEY_2".to_string(), "TEST_ENV_VALUE_2".to_string());
    let ctx_with = parent.with(own);

    assert_eq!(ctx_with.iter().count(), 5);
    assert_eq!(lookup(&ctx_with, "TEST_ENV_KEY_2"), Some("TEST_ENV_VALUE_2".to_string()));
    assert_eq!(lookup(&parent, "TEST_ENV_KEY_2"), None);
}

#[test]
fn request_context() {
    let parent = get_test_ctx();
    let headers = vec![("X-Some-Header".to_string(), "some header value".to_string())];
    let request_ctx = parent.with_request(
        "TEST-LISTENER-1.2.3.4:1234".to_string(),
        "4.3.2.1".to_string(),
        "POST".to_string(),
        "/test-path".to_string(),
        Some("www.google.com".to_string()),
        Some("query=some-query".to_string()),
        &headers,
    );

    assert_eq!(
        lookup(&request_ctx, "CTX_LISTENER_NAME"),
        Some("TEST-LISTENER-1.2.3.4:1234".to_string())
    );
    assert_eq!(lookup(&request_ctx, "CTX_REQUEST_SOURCE_IP"), Some("4.3.2.1".to_string()));
    assert_eq!(lookup(&request_ctx, "CTX_REQUEST_METHOD"), Some("POST".to_string()));
    assert_eq!(lookup(&request_ctx, "CTX_REQUEST_PATH"), Some("/test-path".to_string()));
    assert_eq!(lookup(&request_ctx, "CTX_REQUEST_HOST"), Some("www.google.com".to_string()));
    assert_eq!(lookup(&request_ctx, "CTX_REQUEST_QUERY"), Some("query=some-query".to_string()));
    assert_eq!(
        lookup(&request_ctx, "CTX_REQUEST_HEADERS_X_SOME_HEADER"),
        Some("some header value".to_string())
    );
    assert_eq!(lookup(&request_ctx, TEST_ENV_KEY), Some(TEST_ENV_VALUE.to_string()));
}

pub fn get_test_target() -> TargetConfig {
    TargetConfig::new(
        Some("TEST-TARGET-ID".to_string()),
        "https://www.google.com/test-path?query=some-query".to_string(),
        None,
        None,
        60_000,
        TargetOnErrorAction::Propagate,
        None,
        None,
        None,
    )
}

#[test]
fn target_context() {
    let parent = get_test_ctx();
    let target = get_test_target();
    let target_ctx = parent.with_target(&target);

    assert_eq!(lookup(&target_ctx, "CTX_TARGET_ID"), Some("TEST-TARGET-ID".to_string()));
    assert_eq!(lookup(&target_ctx, "CTX_TARGET_HOST"), Some("www.google.com".to_string()));
    assert_eq!(lookup(&target_ctx, TEST_ENV_KEY), Some(TEST_ENV_VALUE.to_string()));
}

#[test]
fn response_context() {
    let parent = get_test_ctx();
    let headers = vec![("X-Some-Header".to_string(), "some header value".to_string())];
    let response_ctx = parent.with_response_values(200, &headers);

    assert_eq!(lookup(&response_ctx, "CTX_RESPONSE_STATUS"), Some("200".to_string()));
    assert_eq!(
        lookup(&response_ctx, "CTX_RESPONSE_HEADERS_X_SOME_HEADER"),
        Some("some header value".to_string())
    );
}

#[test]
fn environment_filtering() {
    let env = RootOsEnvironment::new("^KEEP_.+$");
    let vars = vec![
        ("KEEP_ONE".to_string(), "1".to_string()),
        ("DROP_TWO".to_string(), "2".to_string()),
        ("KEEP_THREE".to_string(), "3".to_string()),
    ];
    let frame = env.filter_environment(&vars);
    assert_eq!(frame.len(), 2);
    assert_eq!(frame.get("KEEP_ONE"), Some(&"1".to_string()));
    assert_eq!(frame.get("KEEP_THREE"), Some(&"3".to_string()));
    assert_eq!(frame.get("DROP_TWO"), None);
}

#[test]
fn context_iterator_yields_all_entries() {
    let ctx = get_test_ctx();
    let mut own = ContextMap::new();
    own.insert("INNER".to_string(), "first".to_string());
    let child = ctx.with(own);

    let mut iter = child.iter();
    // the innermost frame comes first
    let (k, v) = iter.next().unwrap();
    assert_eq!((k, v), ("INNER".to_string(), "first".to_string()));
    let mut seen = 1;
    while iter.next().is_some() {
        seen += 1;
    }
    assert_eq!(seen, 5);
    assert!(iter.next().is_none());
}
