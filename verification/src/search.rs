//! The search engine selector: which engines to present to a user.

use vstd::prelude::*;

verus! {

/// Why the selector could not answer.
#[derive(Clone, Copy, Debug, PartialEq, Eq, Structural)]
pub enum SearchError {
    /// The selector does not do this yet.
    NotImplemented,
}

/// The update channel of the application.
#[derive(Clone, Copy, Debug, PartialEq, Eq, Structural)]
pub enum SearchUpdateChannel {
    Default,
    Nightly,
    Aurora,
    Beta,
    Release,
    Esr,
}

/// The application that asks.
#[derive(Clone, Copy, Debug, PartialEq, Eq, Structural)]
pub enum SearchApplicationName {
    Firefox,
    FirefoxAndroid,
    FirefoxIos,
    FocusAndroid,
    FocusIos,
}

/// What is known of the user for whom engines are selected.
#[derive(Clone, Debug)]
pub struct SearchUserEnvironment {
    pub locale: String,
    pub region: String,
    pub update_channel: SearchUpdateChannel,
    pub distribution_id: String,
    pub experiment: String,
    pub app_name: SearchApplicationName,
    pub version: String,
}

/// The engines and defaults to present to a user.
#[derive(Clone, Debug)]
pub struct RefinedSearchConfig {
    pub engines: Vec<String>,
    pub app_default_engine_id: String,
    pub app_default_private_engine_id: Option<String>,
}

/// Selects the search engines that apply to a user's region and locale.
/// It keeps no configuration yet.
#[derive(Clone, Copy, Debug, PartialEq, Eq, Structural)]
pub struct SearchEngineSelector {}

impl Default for SearchEngineSelector {
    fn default() -> (r: SearchEngineSelector)
        ensures
            r == (SearchEngineSelector {  }),
    {
        SearchEngineSelector {  }
    }
}

impl SearchEngineSelector {
    pub fn new() -> (r: SearchEngineSelector)
        ensures
            r == (SearchEngineSelector {  }),
    {
        SearchEngineSelector {  }
    }

    /// Sets the search configuration from the given text. The selector
    /// does not do this yet: every call is refused.
    pub fn set_search_config(&self, _configuration: String) -> (r: Result<(), SearchError>)
        ensures
            r == Err::<(), SearchError>(SearchError::NotImplemented),
    {
        Err(SearchError::NotImplemented)
    }

    /// Clears the search configuration from memory. The selector keeps
    /// none, so nothing changes.
    pub fn clear_search_config(&self) {
    }

    /// Filters the search configuration by the user's environment. The
    /// selector does not do this yet: every call is refused.
    pub fn filter_engine_configuration(&self, _user_environment: SearchUserEnvironment) -> (r:
        Result<RefinedSearchConfig, SearchError>)
        ensures
            r is Err,
            r->Err_0 == SearchError::NotImplemented,
    {
        Err(SearchError::NotImplemented)
    }
}

} // verus!
