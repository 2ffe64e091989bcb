//! The library's error type: configuration loading, parsing and validation
//! failures, each carrying a diagnostic text.

use vstd::prelude::*;

verus! {

#[derive(Debug)]
pub enum HttpDragonflyError {
    LoadConfig { cause: String },
    ParseConfigFile { cause: String },
    ValidateConfig { cause: String },
}

/// The diagnostic text of an error, as spec-level characters.
pub open spec fn error_message(e: &HttpDragonflyError) -> Seq<char> {
    match e {
        HttpDragonflyError::LoadConfig { cause } => "unable to load config: "@ + cause@,
        HttpDragonflyError::ParseConfigFile { cause } => "unable to parse config: "@ + cause@,
        HttpDragonflyError::ValidateConfig { cause } => "invalid config: "@ + cause@,
    }
}

impl HttpDragonflyError {
    /// The diagnostic text of this error.
    pub fn message(&self) -> (r: String)
        ensures
            r@ == error_message(self),
    {
        match self {
            HttpDragonflyError::LoadConfig { cause } => {
                let mut s = String::from_str("unable to load config: ");
                s.append(cause.as_str());
                s
            },
            HttpDragonflyError::ParseConfigFile { cause } => {
                let mut s = String::from_str("unable to parse config: ");
                s.append(cause.as_str());
                s
            },
            HttpDragonflyError::ValidateConfig { cause } => {
                let mut s = String::from_str("invalid config: ");
                s.append(cause.as_str());
                s
            },
        }
    }
}

} // verus!
