use http_dragonfly::config::ConfigError;
use http_dragonfly::errors::HttpDragonflyError;

#[test]
fn errors_errors() {
    assert_eq!(
        HttpDragonflyError::LoadConfig { cause: "snapshot test cause".to_string() }.message(),
        "unable to load config: snapshot test cause".to_string()
    );
    assert_eq!(
        HttpDragonflyError::ValidateConfig { cause: "snapshot test cause".to_string() }.message(),
        "invalid config: snapshot test cause".to_string()
    );
}

#[test]
fn config_errors() {
    assert_eq!(
        ConfigError::LoadConfig { cause: "snapshot test cause".to_string() }.message(),
        "unable to load config: snapshot test cause".to_string()
    );
    assert_eq!(
        ConfigError::ParseConfigFile { cause: "snapshot test cause".to_string() }.message(),
        "unable to parse config: snapshot test cause".to_string()
    );
}
