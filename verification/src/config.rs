//! Persisted settings and where they come from.
//!
//! First match wins: flags, the environment, the project file `.vericto.toml` (defaults
//! for behaviour, never credentials), the user's config file.
use vstd::prelude::*;
use crate::text::{copy_text, opt_view};

verus! {

/// The default backend.
pub const DEFAULT_API_URL: &'static str = "https://api.vericto.com";

/// The audience of identity tokens when none is configured.
pub const DEFAULT_OIDC_AUDIENCE: &'static str = "vericto";

/// The user's config file.
#[derive(Debug)]
pub struct Config {
    pub api_url: Option<String>,
    pub api_key: Option<String>,
    pub default_dialect: Option<String>,
    /// Workspace for workload-identity login; not a secret.
    pub workspace_id: Option<String>,
    /// Audience of the identity token.
    pub oidc_audience: Option<String>,
}

/// What a config file holds.
pub struct ConfigView {
    pub api_url: Option<Seq<char>>,
    pub api_key: Option<Seq<char>>,
    pub default_dialect: Option<Seq<char>>,
    pub workspace_id: Option<Seq<char>>,
    pub oidc_audience: Option<Seq<char>>,
}

impl View for Config {
    type V = ConfigView;

    open spec fn view(&self) -> ConfigView {
        ConfigView {
            api_url: opt_view(self.api_url),
            api_key: opt_view(self.api_key),
            default_dialect: opt_view(self.default_dialect),
            workspace_id: opt_view(self.workspace_id),
            oidc_audience: opt_view(self.oidc_audience),
        }
    }
}

impl Default for Config {
    fn default() -> (r: Config)
        ensures
            r == empty_config(),
    {
        Config {
            api_url: None,
            api_key: None,
            default_dialect: None,
            workspace_id: None,
            oidc_audience: None,
        }
    }
}

pub open spec fn empty_config() -> Config {
    Config {
        api_url: None,
        api_key: None,
        default_dialect: None,
        workspace_id: None,
        oidc_audience: None,
    }
}

/// The project file. It is committed and reviewed, so it holds defaults for behaviour.
#[derive(Debug)]
pub struct ProjectConfig {
    pub default_dialect: Option<String>,
    pub fail_on: Option<String>,
    pub baseline: Option<String>,
    pub workspace_id: Option<String>,
    pub oidc_audience: Option<String>,
    /// Name of the variable that holds a pre-minted identity token.
    pub oidc_token_env: Option<String>,
    /// Present only to be refused: a secret does not belong in a committed file.
    pub api_key: Option<String>,
    /// Present only to be refused: a bypass is decided per run.
    pub allow_degraded: Option<String>,
}

pub open spec fn empty_project() -> ProjectConfig {
    ProjectConfig {
        default_dialect: None,
        fail_on: None,
        baseline: None,
        workspace_id: None,
        oidc_audience: None,
        oidc_token_env: None,
        api_key: None,
        allow_degraded: None,
    }
}

impl Default for ProjectConfig {
    fn default() -> (r: ProjectConfig)
        ensures
            r == empty_project(),
    {
        ProjectConfig {
            default_dialect: None,
            fail_on: None,
            baseline: None,
            workspace_id: None,
            oidc_audience: None,
            oidc_token_env: None,
            api_key: None,
            allow_degraded: None,
        }
    }
}

/// What came of reading a settings file.
#[derive(Debug)]
pub enum FileRead<T> {
    Missing,
    Unreadable(String),
    Malformed(String),
    Parsed(T),
}

/// Where the config directory is found.
#[derive(Clone, Copy, Debug, PartialEq, Eq, Structural)]
pub enum ConfigBase {
    /// `$XDG_CONFIG_HOME`
    Xdg,
    /// `.config` in the home directory
    DotConfig,
    /// The platform's own place
    Platform,
}

/// The place that follows from the XDG variable and the platform.
pub open spec fn base_of(xdg: Option<bool>, unix: bool) -> ConfigBase {
    match xdg {
        Some(nonempty) => if nonempty {
            ConfigBase::Xdg
        } else {
            ConfigBase::DotConfig
        },
        None => if unix {
            ConfigBase::DotConfig
        } else {
            ConfigBase::Platform
        },
    }
}

/// Where the config directory is found: the XDG variable where it is set (an empty one
/// means the home directory), else the home directory on Unix.
pub fn config_base(xdg: Option<bool>, unix: bool) -> (r: ConfigBase)
    ensures
        r == base_of(xdg, unix),
{
    match xdg {
        Some(nonempty) => if nonempty {
            ConfigBase::Xdg
        } else {
            ConfigBase::DotConfig
        },
        None => if unix {
            ConfigBase::DotConfig
        } else {
            ConfigBase::Platform
        },
    }
}

/// Whether `r` is the user's settings and the warning that goes with them.
pub open spec fn is_user_config(
    r: (Config, Option<String>),
    read: FileRead<Config>,
    path: Seq<char>,
) -> bool {
    match read {
        FileRead::Parsed(c) => r.0 == c && r.1 is None,
        FileRead::Missing => r.0 == empty_config() && r.1 is None,
        FileRead::Unreadable(e) => r.0 == empty_config() && opt_view(r.1) == Some(
            "warning: "@ + e@,
        ),
        FileRead::Malformed(e) => r.0 == empty_config() && opt_view(r.1) == Some(
            "warning: invalid config at "@ + path + ": "@ + e@,
        ),
    }
}

/// The user's settings and, where the file could not be used, a warning. A missing file
/// is no fault.
pub fn user_config(read: FileRead<Config>, path: &str) -> (r: (Config, Option<String>))
    ensures
        is_user_config(r, read, path@),
{
    match read {
        FileRead::Parsed(c) => (c, None),
        FileRead::Missing => (Config::default(), None),
        FileRead::Unreadable(e) => (
            Config::default(),
            Some("warning: ".to_owned().concat(e.as_str())),
        ),
        FileRead::Malformed(e) => {
            let mut message = "warning: invalid config at ".to_owned();
            message.append(path);
            message.append(": ");
            message.append(e.as_str());
            (Config::default(), Some(message))
        },
    }
}

pub open spec fn project_result(r: Result<ProjectConfig, String>) -> Result<
    ProjectConfig,
    Seq<char>,
> {
    match r {
        Ok(p) => Ok(p),
        Err(e) => Err(e@),
    }
}

/// The project's settings. A file that carries a secret or a bypass is refused.
pub open spec fn checked_project(read: FileRead<ProjectConfig>) -> Result<ProjectConfig, Seq<char>> {
    match read {
        FileRead::Missing => Ok(empty_project()),
        FileRead::Unreadable(e) => Err(e@),
        FileRead::Malformed(e) => Err("invalid .vericto.toml: "@ + e@),
        FileRead::Parsed(p) => if p.api_key is Some {
            Err(
                ".vericto.toml must not contain api_key — use `vericto login`, VERICTO_API_KEY, or --api-key."@,
            )
        } else if p.allow_degraded is Some {
            Err(
                ".vericto.toml must not set allow_degraded — pass --allow-degraded per run so the bypass is visible in the pipeline."@,
            )
        } else {
            Ok(p)
        },
    }
}

/// Accepts or refuses what the project file holds. A missing file is an empty one.
pub fn load_project(read: FileRead<ProjectConfig>) -> (r: Result<ProjectConfig, String>)
    ensures
        project_result(r) == checked_project(read),
{
    match read {
        FileRead::Missing => Ok(ProjectConfig::default()),
        FileRead::Unreadable(e) => Err(e),
        FileRead::Malformed(e) => Err("invalid .vericto.toml: ".to_owned().concat(e.as_str())),
        FileRead::Parsed(p) => {
            if p.api_key.is_some() {
                return Err(
                    ".vericto.toml must not contain api_key — use `vericto login`, VERICTO_API_KEY, or --api-key.".to_owned(),
                );
            }
            if p.allow_degraded.is_some() {
                return Err(
                    ".vericto.toml must not set allow_degraded — pass --allow-degraded per run so the bypass is visible in the pipeline.".to_owned(),
                );
            }
            Ok(p)
        },
    }
}

/// No credential and no bypass ever comes from the project file.
pub proof fn law_project_file_holds_no_secret(read: FileRead<ProjectConfig>)
    ensures
        checked_project(read) matches Ok(p) ==> p.api_key is None && p.allow_degraded is None,
{
}

/// The settings that a command runs with, and where the key came from.
#[derive(Debug)]
pub struct Resolved {
    pub api_url: String,
    pub api_key: Option<String>,
    pub key_source: KeySource,
}

/// Where the API key came from.
#[derive(Clone, Copy, Debug, PartialEq, Eq, Structural)]
pub enum KeySource {
    Flag,
    Env,
    ConfigFile,
    Absent,
}

pub open spec fn key_source_label(k: KeySource) -> Seq<char> {
    match k {
        KeySource::Flag => "--api-key flag"@,
        KeySource::Env => "VETRO_API_KEY env"@,
        KeySource::ConfigFile => "config file"@,
        KeySource::Absent => "none"@,
    }
}

impl KeySource {
    pub fn label(self) -> (r: &'static str)
        ensures
            r@ == key_source_label(self),
    {
        match self {
            KeySource::Flag => "--api-key flag",
            KeySource::Env => "VETRO_API_KEY env",
            KeySource::ConfigFile => "config file",
            KeySource::Absent => "none",
        }
    }
}

/// Whether `r` is the address and key that follow from what was given and from the file.
pub open spec fn is_resolved(
    r: Resolved,
    flag_api_url: Seq<char>,
    flag_api_url_is_default: bool,
    flag_api_key: Option<&str>,
    env_key_set: bool,
    file: Config,
) -> bool {
    &&& r.api_url@ == (match file.api_url {
        Some(u) => if flag_api_url_is_default {
            u@
        } else {
            flag_api_url
        },
        None => flag_api_url,
    })
    &&& match flag_api_key {
        Some(k) => opt_view(r.api_key) == Some(k@) && r.key_source == (if env_key_set {
            KeySource::Env
        } else {
            KeySource::Flag
        }),
        None => opt_view(r.api_key) == opt_view(file.api_key) && r.key_source == (
        if file.api_key is Some {
            KeySource::ConfigFile
        } else {
            KeySource::Absent
        }),
    }
}

/// Resolves address and key. An address given on the command line or in the environment
/// beats the file, which beats the default; a given key beats the file. `env_key_set`
/// says whether the key's environment variable is set, which tells where a given key
/// came from.
pub fn resolve(
    flag_api_url: &str,
    flag_api_url_is_default: bool,
    flag_api_key: Option<&str>,
    env_key_set: bool,
    file: &Config,
) -> (r: Resolved)
    ensures
        is_resolved(
            r,
            flag_api_url@,
            flag_api_url_is_default,
            flag_api_key,
            env_key_set,
            *file,
        ),
{
    let api_url = match &file.api_url {
        Some(u) => if flag_api_url_is_default {
            u.clone()
        } else {
            flag_api_url.to_owned()
        },
        None => flag_api_url.to_owned(),
    };
    match flag_api_key {
        Some(k) => Resolved {
            api_url,
            api_key: Some(k.to_owned()),
            key_source: if env_key_set {
                KeySource::Env
            } else {
                KeySource::Flag
            },
        },
        None => Resolved {
            api_url,
            api_key: copy_text(&file.api_key),
            key_source: if file.api_key.is_some() {
                KeySource::ConfigFile
            } else {
                KeySource::Absent
            },
        },
    }
}

} // verus!
