//! The configuration model: listeners, targets, responses, strategies and
//! header transforms, with the validation rules that hold of a loaded
//! configuration.

pub mod headers;
pub mod listener;
pub mod response;
pub mod strategy;
pub mod target;

use vstd::prelude::*;

use crate::config::listener::{listener_valid, ListenerConfig, ListenerView};
use crate::errors::HttpDragonflyError;

verus! {

/// The error a configuration fails with.
pub type ConfigError = HttpDragonflyError;

/// A configuration part that can check itself.
pub trait ConfigValidator {
    fn validate(&self) -> Result<(), ConfigError>;
}

/// The whole application configuration: its listeners.
pub struct AppConfig {
    listeners: Vec<ListenerConfig>,
}

/// The views of a list of listeners.
pub open spec fn listeners_view(ls: Seq<ListenerConfig>) -> Seq<ListenerView> {
    Seq::new(ls.len(), |i: int| ls[i]@)
}

impl View for AppConfig {
    type V = Seq<ListenerView>;

    closed spec fn view(&self) -> Seq<ListenerView> {
        listeners_view(self.listeners@)
    }
}

/// Whether every listener of the configuration is valid, checked from
/// the end of the list.
pub open spec fn all_listeners_valid(ls: Seq<ListenerView>) -> bool
    decreases ls.len(),
{
    ls.len() == 0 || (listener_valid(ls.last()) && all_listeners_valid(ls.drop_last()))
}

/// A valid configuration: at least one listener, each of them valid.
pub open spec fn app_config_valid(ls: Seq<ListenerView>) -> bool {
    ls.len() > 0 && all_listeners_valid(ls)
}

impl AppConfig {
    pub fn new(listeners: Vec<ListenerConfig>) -> (r: AppConfig)
        ensures
            r@ == listeners_view(listeners@),
    {
        AppConfig { listeners }
    }

    pub fn listeners(&self) -> (r: &Vec<ListenerConfig>)
        ensures
            listeners_view(r@) == self@,
    {
        &self.listeners
    }

    /// A valid configuration: at least one listener, each valid.
    pub fn validate(&self) -> (r: Result<(), ConfigError>)
        ensures
            r is Ok <==> app_config_valid(self@),
            r matches Err(e) ==> e is ValidateConfig,
    {
        let n = self.listeners.len();
        if n == 0 {
            return Err(
                HttpDragonflyError::ValidateConfig {
                    cause: String::from_str("at least one listener must be configured"),
                },
            );
        }
        let mut i: usize = 0;
        proof {
            assert(all_listeners_valid(self@.take(0)));
        }
        while i < n
            invariant
                n == self@.len(),
                self@.len() == self.listeners@.len(),
                i <= n,
                all_listeners_valid(self@.take(i as int)),
            decreases n - i,
        {
            proof {
                assert(self@.take(i + 1).drop_last() =~= self@.take(i as int));
                assert(self@.take(i + 1).last() == self@[i as int]);
            }
            match self.listeners[i].validate() {
                Err(e) => {
                    proof {
                        lemma_invalid_listener(self@, i as int);
                    }
                    return Err(e);
                },
                Ok(()) => {},
            }
            i = i + 1;
        }
        proof {
            assert(self@.take(n as int) =~= self@);
        }
        Ok(())
    }
}

impl ConfigValidator for AppConfig {
    fn validate(&self) -> Result<(), ConfigError> {
        AppConfig::validate(self)
    }
}

proof fn lemma_invalid_listener(ls: Seq<ListenerView>, i: int)
    requires
        0 <= i < ls.len(),
        !listener_valid(ls[i]),
    ensures
        !all_listeners_valid(ls),
    decreases ls.len(),
{
    if i < ls.len() - 1 {
        lemma_invalid_listener(ls.drop_last(), i);
    }
}

} // verus!
