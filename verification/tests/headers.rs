use http_dragonfly::config::headers::{
    transform, HeaderTransform, HeaderTransformActon, Headers,
};
use http_dragonfly::context::{Context, ContextMap, RootEnvironment};

const TEST_ENV_HEADER_NAME: &str = "TEST_ENV_HEADER_TO_ADD";
const TEST_ENV_HEADER_VALUE: &str = "TEST_ENV_HEADER_VALUE";

struct TestEnvironment;

impl RootEnvironment for TestEnvironment {
    fn get_environment(&self) -> ContextMap {
        let mut map = ContextMap::new();
        map.insert("TEST_ENV_KEY".to_string(), "TEST_ENV_VALUE".to_string());
        map.insert(TEST_ENV_HEADER_NAME.to_string(), TEST_ENV_HEADER_VALUE.to_string());
        map
    }
}

fn add(name: &str, value: &str) -> HeaderTransform {
    HeaderTransform::from_parts(
        Some(HeaderTransformActon::Add(name.to_string())),
        Some(value.to_string()),
    )
    .unwrap()
}

fn update(name: &str, value: &str) -> HeaderTransform {
    HeaderTransform::from_parts(
        Some(HeaderTransformActon::Update(name.to_string())),
        Some(value.to_string()),
    )
    .unwrap()
}

fn drop_header(name: &str) -> HeaderTransform {
    HeaderTransform::from_parts(Some(HeaderTransformActon::Drop(name.to_string())), None).unwrap()
}

fn value_of(h: &Headers, name: &str) -> Option<String> {
    h.get(name).cloned()
}

#[test]
fn transforms() {
    let ctx = Context::root(TestEnvironment);

    let transforms = vec![
        add("X-Some-New-Header", "good"),
        update("X-Existing-Header", "good"),
        drop_header("X-Header-To-Drop"),
        add("X-Existing-Header", "wrong"),
        update("X-Non-Exiting-Header", "wrong"),
        add("X-Env-Header", "${TEST_ENV_HEADER_TO_ADD}"),
        update("X-Env-Header-2", "${TEST_ENV_HEADER_TO_ADD}"),
    ];

    let mut headers = Headers::new();
    headers.insert("X-Header-To-Drop".to_string(), "wrong".to_string());
    headers.insert("X-Existing-Header".to_string(), "wrong".to_string());
    headers.insert("X-Header-Without-Changes".to_string(), "good".to_string());
    headers.insert("X-Env-Header-2".to_string(), "wrong".to_string());
    assert_eq!(headers.len(), 4);

    transform(&mut headers, &transforms, &ctx);

    assert_eq!(headers.len(), 5);
    assert_eq!(value_of(&headers, "X-Some-New-Header"), Some("good".to_string()));
    assert_eq!(value_of(&headers, "X-Existing-Header"), Some("good".to_string()));
    assert_eq!(value_of(&headers, "X-Header-To-Drop"), None);
    assert_eq!(value_of(&headers, "X-Non-Exiting-Header"), None);
    assert_eq!(value_of(&headers, "X-Header-Without-Changes"), Some("good".to_string()));
    assert_eq!(value_of(&headers, "X-Env-Header"), Some(TEST_ENV_HEADER_VALUE.to_string()));
    assert_eq!(value_of(&headers, "X-Env-Header-2"), Some(TEST_ENV_HEADER_VALUE.to_string()));
}

#[test]
fn transform_parts_accepted() {
    assert!(HeaderTransform::from_parts(
        Some(HeaderTransformActon::Add("new_header".to_string())),
        Some("new_value".to_string())
    )
    .is_ok());
    assert!(HeaderTransform::from_parts(
        Some(HeaderTransformActon::Update("new_header".to_string())),
        Some("new_value".to_string())
    )
    .is_ok());
    assert!(HeaderTransform::from_parts(
        Some(HeaderTransformActon::Drop("old_header".to_string())),
        None
    )
    .is_ok());
}

#[test]
fn transform_parts_rejected() {
    // an action is demanded
    assert!(HeaderTransform::from_parts(None, Some("new_value".to_string())).is_err());
    assert!(HeaderTransform::from_parts(None, None).is_err());
    // add and update demand a value
    assert!(HeaderTransform::from_parts(
        Some(HeaderTransformActon::Add("new_header".to_string())),
        None
    )
    .is_err());
    assert!(HeaderTransform::from_parts(
        Some(HeaderTransformActon::Update("new_header".to_string())),
        None
    )
    .is_err());
    // drop forbids a value
    assert!(HeaderTransform::from_parts(
        Some(HeaderTransformActon::Drop("old_header".to_string())),
        Some("old_value".to_string())
    )
    .is_err());
}

#[test]
fn drop_all_then_add_keeps_only_added() {
    let ctx = Context::root(TestEnvironment);
    let transforms = vec![drop_header("*"), add("X-Only", "kept")];

    let mut headers = Headers::new();
    headers.insert("X-One".to_string(), "1".to_string());
    headers.insert("X-Two".to_string(), "2".to_string());
    headers.insert("X-Three".to_string(), "3".to_string());

    transform(&mut headers, &transforms, &ctx);

    assert_eq!(headers.len(), 1);
    assert_eq!(value_of(&headers, "X-Only"), Some("kept".to_string()));
}

#[test]
fn header_names_compare_without_case() {
    let mut headers = Headers::new();
    headers.insert("Content-Length".to_string(), "17".to_string());
    assert!(headers.contains_name("content-length"));
    assert_eq!(value_of(&headers, "CONTENT-LENGTH"), Some("17".to_string()));
    headers.remove("content-LENGTH");
    assert_eq!(headers.len(), 0);
}
