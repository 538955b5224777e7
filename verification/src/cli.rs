use vstd::prelude::*;

use crate::config::{parse_close_key_spec, CloseKey};
use crate::error::ConfigError;

verus! {

/// Command line options.
#[derive(Debug, Clone)]
pub struct Cli {
    pub map_close: Option<String>,
    pub output: Option<String>,
    pub zoom_in: Option<String>,
    pub invert_scroll: bool,
    pub spotlight: bool,
    pub screenshot_dir: Option<String>,
    pub no_indicator: bool,
}

impl Cli {
    /// The close key chosen with `--map-close`, if any.
    pub fn close_key(&self) -> (key: Result<Option<CloseKey>, ConfigError>)
        ensures
            self.map_close is None ==> key == Ok::<Option<CloseKey>, ConfigError>(None),
            self.map_close matches Some(raw) ==> match parse_close_key_spec(raw@) {
                Some(k) => key == Ok::<Option<CloseKey>, ConfigError>(Some(k)),
                None => key matches Err(ConfigError::InvalidCloseKey { value }) && value@ == raw@,
            },
    {
        match &self.map_close {
            None => Ok(None),
            Some(raw) => match CloseKey::parse(raw.as_str()) {
                Ok(k) => Ok(Some(k)),
                Err(e) => Err(e),
            },
        }
    }

    /// Whether the indicator badge is shown.
    pub fn show_indicator(&self) -> (show: bool)
        ensures
            show == !self.no_indicator,
    {
        !self.no_indicator
    }
}

} // verus!
