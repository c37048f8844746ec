//! The settings of a project.
use vstd::prelude::*;

use crate::model::opt_view;
use crate::text::{number, parse_number, same};

verus! {

/// The settings of a project; each of them may be missing.
pub struct ProjectConfig {
    pub provider: Option<String>,
    pub model: Option<String>,
    pub ollama_base_url: Option<String>,
    pub openai_compat_base_url: Option<String>,
    pub request_timeout_secs: Option<u64>,
    /// The context window in tokens.
    pub num_ctx: Option<u32>,
    /// Whether the provider and the model are shown while a turn runs.
    pub show_status_bar: Option<bool>,
}

impl Default for ProjectConfig {
    /// No settings.
    fn default() -> (r: ProjectConfig)
        ensures
            r.provider is None,
            r.model is None,
            r.ollama_base_url is None,
            r.openai_compat_base_url is None,
            r.request_timeout_secs is None,
            r.num_ctx is None,
            r.show_status_bar is None,
    {
        ProjectConfig {
            provider: None,
            model: None,
            ollama_base_url: None,
            openai_compat_base_url: None,
            request_timeout_secs: None,
            num_ctx: None,
            show_status_bar: None,
        }
    }
}

/// Why the settings could not be loaded: the path of their file and the
/// reason.
pub enum ConfigError {
    Io(String, String),
    Parse(String, String),
}

/// The message of an error.
pub open spec fn config_error_text(e: ConfigError) -> Seq<char> {
    match e {
        ConfigError::Io(path, reason) => "failed to read "@ + path@ + ": "@ + reason@,
        ConfigError::Parse(path, reason) => "failed to parse "@ + path@ + ": "@ + reason@,
    }
}

impl ConfigError {
    /// The message of the error.
    pub fn message(&self) -> (r: String)
        ensures
            r@ == config_error_text(*self),
    {
        match self {
            ConfigError::Io(path, reason) => {
                let mut r = "failed to read ".to_owned();
                r.append(path.as_str());
                r.append(": ");
                r.append(reason.as_str());
                r
            },
            ConfigError::Parse(path, reason) => {
                let mut r = "failed to parse ".to_owned();
                r.append(path.as_str());
                r.append(": ");
                r.append(reason.as_str());
                r
            },
        }
    }
}

/// The first of two texts that is there.
pub open spec fn first_text(a: Option<Seq<char>>, b: Option<Seq<char>>) -> Option<Seq<char>> {
    match a {
        Some(_) => a,
        None => b,
    }
}

/// The first of two texts that is there: the environment comes before the file.
pub fn text_setting(env: &Option<String>, file: &Option<String>) -> (r: Option<String>)
    ensures
        opt_view(r) == first_text(opt_view(*env), opt_view(*file)),
{
    match env {
        Some(s) => Some(s.clone()),
        None => match file {
            Some(s) => Some(s.clone()),
            None => None,
        },
    }
}

/// A number from the environment, if it is one; else that of the file.
pub open spec fn number_setting_of(env: Option<Seq<char>>, file: Option<u64>, max: u64) -> Option<
    u64,
> {
    match env {
        Some(s) => match number(s, max as nat) {
            Some(n) => Some(n as u64),
            None => file,
        },
        None => file,
    }
}

/// A number from the environment, if it is one; else that of the file.
pub fn number_setting(env: &Option<String>, file: Option<u64>, max: u64) -> (r: Option<u64>)
    ensures
        r == number_setting_of(opt_view(*env), file, max),
{
    if let Some(s) = env {
        if let Some(n) = parse_number(s.as_str(), max) {
            return Some(n);
        }
    }
    file
}

/// A yes or no that is written out.
pub open spec fn flag(s: Seq<char>) -> Option<bool> {
    if s == "true"@ {
        Some(true)
    } else if s == "false"@ {
        Some(false)
    } else {
        None
    }
}

/// Whether the status is shown: as the environment says, else as the file says,
/// else it is.
pub open spec fn status_shown(env: Option<Seq<char>>, file: Option<bool>) -> bool {
    let set = match env {
        Some(s) => flag(s),
        None => None,
    };
    match set {
        Some(b) => b,
        None => match file {
            Some(b) => b,
            None => true,
        },
    }
}

/// Whether the status is shown.
pub fn show_status(env: &Option<String>, cfg: &ProjectConfig) -> (r: bool)
    ensures
        r == status_shown(opt_view(*env), cfg.show_status_bar),
{
    if let Some(s) = env {
        if same(s.as_str(), "true") {
            return true;
        }
        if same(s.as_str(), "false") {
            return false;
        }
    }
    match cfg.show_status_bar {
        Some(b) => b,
        None => true,
    }
}

} // verus!
