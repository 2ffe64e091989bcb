//! The command-line configuration: the flags, the config path, the
//! environment mask and the optional health-check port, with the
//! validation each value passes through.

use vstd::prelude::*;

use crate::regexes::{regex_pattern_valid, regex_valid};
use crate::text::{int_parse_error_message, parse_u16, parse_u16_spec, trim, trim_spec};

verus! {

/// What validating an environment mask yields: a trimmed empty mask and
/// `*` admit everything (`.+`); an invalid expression is refused; any
/// other mask stands trimmed.
pub open spec fn parse_env_mask_spec(mask: Seq<char>) -> Result<Seq<char>, Seq<char>> {
    let t = trim_spec(mask);
    if t.len() == 0 || t == "*"@ {
        Ok(".+"@)
    } else if !regex_valid(t) {
        Err("invalid environment filter regex"@)
    } else {
        Ok(t)
    }
}

/// What validating a health-check port yields: a decimal port in
/// `1..65535`; zero is out of range, and an unreadable text carries the
/// parse diagnostic.
pub open spec fn parse_health_check_port_spec(port: Seq<char>) -> Result<u16, Seq<char>> {
    match parse_u16_spec(port) {
        Ok(p) => if p > 0 {
            Ok(p)
        } else {
            Err("health check port number should be in range 1..65535"@)
        },
        Err(e) => Err(
            "unable to parse `"@ + port + "`: "@ + int_parse_error_message(e)
                + ", it should be number in range 1..65535"@,
        ),
    }
}

/// The command-line configuration.
pub struct CliConfig {
    debug: bool,
    verbose: bool,
    json_log: bool,
    config: String,
    env_mask: String,
    pub health_check_port: Option<u16>,
}

/// The specification-level form of the command-line configuration.
pub struct CliView {
    pub debug: bool,
    pub verbose: bool,
    pub json_log: bool,
    pub config: Seq<char>,
    pub env_mask: Seq<char>,
    pub health_check_port: Option<u16>,
}

impl View for CliConfig {
    type V = CliView;

    closed spec fn view(&self) -> CliView {
        CliView {
            debug: self.debug,
            verbose: self.verbose,
            json_log: self.json_log,
            config: self.config@,
            env_mask: self.env_mask@,
            health_check_port: self.health_check_port,
        }
    }
}

impl CliConfig {
    /// A configuration differing from the default only in the config
    /// path.
    pub fn from_config_path(config: String) -> (r: CliConfig)
        ensures
            r@.config == config@,
            !r@.debug,
            !r@.verbose,
            !r@.json_log,
            r@.env_mask == "^HTTP_ENV_[a-zA-Z0-9_]+$"@,
            r@.health_check_port is None,
    {
        CliConfig {
            debug: false,
            verbose: false,
            json_log: false,
            config,
            env_mask: String::from_str("^HTTP_ENV_[a-zA-Z0-9_]+$"),
            health_check_port: None,
        }
    }

    /// A configuration assembled from parsed flag values.
    pub fn from_parts(
        debug: bool,
        verbose: bool,
        json_log: bool,
        config: String,
        env_mask: String,
        health_check_port: Option<u16>,
    ) -> (r: CliConfig)
        ensures
            r@.debug == debug,
            r@.verbose == verbose,
            r@.json_log == json_log,
            r@.config == config@,
            r@.env_mask == env_mask@,
            r@.health_check_port == health_check_port,
    {
        CliConfig { debug, verbose, json_log, config, env_mask, health_check_port }
    }

    /// Validates a mask (regex) for admitting environment variables.
    pub fn parse_env_mask(mask: &str) -> (r: Result<String, String>)
        ensures
            (match r {
                Ok(ref m) => Ok::<Seq<char>, Seq<char>>(m@),
                Err(ref e) => Err(e@),
            }) == parse_env_mask_spec(mask@),
    {
        let trimmed = trim(mask);
        if trimmed.as_str().unicode_len() == 0 || crate::text::str_eq(trimmed.as_str(), "*") {
            Ok(String::from_str(".+"))
        } else if !regex_pattern_valid(trimmed.as_str()) {
            Err(String::from_str("invalid environment filter regex"))
        } else {
            Ok(trimmed)
        }
    }

    /// Parses a port number and checks its range.
    pub fn parse_health_check_port(port: &str) -> (r: Result<u16, String>)
        ensures
            (match r {
                Ok(p) => Ok::<u16, Seq<char>>(p),
                Err(ref e) => Err(e@),
            }) == parse_health_check_port_spec(port@),
    {
        match parse_u16(port) {
            Ok(p) => {
                if p > 0 {
                    Ok(p)
                } else {
                    Err(String::from_str("health check port number should be in range 1..65535"))
                }
            },
            Err(e) => {
                let mut msg = String::from_str("unable to parse `");
                msg.append(port);
                msg.append("`: ");
                msg.append(e.message().as_str());
                msg.append(", it should be number in range 1..65535");
                Err(msg)
            },
        }
    }

    /// The config file path.
    pub fn config_path(&self) -> (r: String)
        ensures
            r@ == self@.config,
    {
        self.config.clone()
    }

    /// The environment variable mask.
    pub fn env_mask(&self) -> (r: &str)
        ensures
            r@ == self@.env_mask,
    {
        self.env_mask.as_str()
    }

    pub fn debug(&self) -> (r: bool)
        ensures
            r == self@.debug,
    {
        self.debug
    }

    pub fn verbose(&self) -> (r: bool)
        ensures
            r == self@.verbose,
    {
        self.verbose
    }

    pub fn json_log(&self) -> (r: bool)
        ensures
            r == self@.json_log,
    {
        self.json_log
    }
}

impl Default for CliConfig {
    /// All flags off, no config path, the default environment mask, no
    /// health-check responder.
    fn default() -> (r: CliConfig)
        ensures
            r@.config == Seq::<char>::empty(),
            !r@.debug,
            !r@.verbose,
            !r@.json_log,
            r@.env_mask == "^HTTP_ENV_[a-zA-Z0-9_]+$"@,
            r@.health_check_port is None,
    {
        CliConfig {
            debug: false,
            verbose: false,
            json_log: false,
            config: String::new(),
            env_mask: String::from_str("^HTTP_ENV_[a-zA-Z0-9_]+$"),
            health_check_port: None,
        }
    }
}

} // verus!
