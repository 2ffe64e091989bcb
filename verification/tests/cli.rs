use http_dragonfly::cli::CliConfig;

const DEFAULT_ENV_REGEX: &str = "^HTTP_ENV_[a-zA-Z0-9_]+$";

#[test]
fn parse_correct_env_mask() {
    assert_eq!(
        CliConfig::parse_env_mask(DEFAULT_ENV_REGEX),
        Ok(DEFAULT_ENV_REGEX.to_string())
    );
    assert_eq!(CliConfig::parse_env_mask(".*"), Ok(".*".to_string()));
    assert_eq!(CliConfig::parse_env_mask(" .* "), Ok(".*".to_string()));
    assert_eq!(
        CliConfig::parse_env_mask("^something_[0-9]{1,32}-.+$"),
        Ok("^something_[0-9]{1,32}-.+$".to_string())
    );
}

#[test]
fn parse_empty_env_mask() {
    assert_eq!(CliConfig::parse_env_mask(""), Ok(".+".to_string()));
    assert_eq!(CliConfig::parse_env_mask("   "), Ok(".+".to_string()));
}

#[test]
fn parse_asterisk_env_mask() {
    assert_eq!(CliConfig::parse_env_mask("*"), Ok(".+".to_string()));
    assert_eq!(CliConfig::parse_env_mask(" * "), Ok(".+".to_string()));
}

#[test]
fn parse_incorrect_env_mask() {
    assert_eq!(
        CliConfig::parse_env_mask("\\1"),
        Err("invalid environment filter regex".to_string())
    );
    assert_eq!(
        CliConfig::parse_env_mask("  \\1   "),
        Err("invalid environment filter regex".to_string())
    );
    assert_eq!(
        CliConfig::parse_env_mask("[1"),
        Err("invalid environment filter regex".to_string())
    );
    assert_eq!(
        CliConfig::parse_env_mask("**"),
        Err("invalid environment filter regex".to_string())
    );
}

#[test]
fn parse_good_health_check_port() {
    assert_eq!(CliConfig::parse_health_check_port("123"), Ok(123));
    assert_eq!(CliConfig::parse_health_check_port("65535"), Ok(65535));
}

#[test]
fn parse_wrong_health_check_port() {
    assert_eq!(
        CliConfig::parse_health_check_port("0"),
        Err("health check port number should be in range 1..65535".into())
    );
    assert_eq!(
        CliConfig::parse_health_check_port("65536"),
        Err("unable to parse `65536`: number too large to fit in target type, it should be number in range 1..65535".into())
    );
    assert_eq!(
        CliConfig::parse_health_check_port("qwerty"),
        Err("unable to parse `qwerty`: invalid digit found in string, it should be number in range 1..65535".into())
    );
}

#[test]
fn from_config_path_keeps_defaults() {
    let cli = CliConfig::from_config_path("gateway.yaml".to_string());
    assert_eq!(cli.config_path(), "gateway.yaml".to_string());
    assert_eq!(cli.env_mask(), DEFAULT_ENV_REGEX);
    assert_eq!(cli.health_check_port, None);
    assert!(!cli.debug());
    assert!(!cli.verbose());
    assert!(!cli.json_log());
}
