//! Configuration: the typed schema, the bundled defaults, and the
//! directories the configuration and caches live in.

pub mod schema;

use vstd::prelude::*;

verus! {

/// The configuration written on first run, and the fallback for a broken one.
pub const DEFAULT_CONFIG: &'static str = "# Chromia configuration.
# Every key is optional: a missing one takes the value shown here.

first-run = true

[theme]
# dynamic: colors from the album art; catppuccin: the static palette below;
# custom: the colors under [theme.custom].
mode = \"dynamic\"
transition-ms = 300
blur-background = true
blur-strength = 20

[theme.catppuccin]
flavor = \"mocha\"
accent = \"mauve\"

[theme.custom]
background = \"#1e1e2e\"
surface = \"#313244\"
overlay = \"#45475a\"
accent = \"#cba6f7\"
text = \"#cdd6f4\"
subtext = \"#a6adc8\"

[sources]
enabled = [\"local\", \"youtube\", \"soundcloud\"]
default = \"local\"

[sources.local]
paths = [\"~/Music\"]
watch = true

[sources.youtube]
quality = \"best\"
cache-dir = \"~/.cache/chromia/youtube\"

[audio]
volume = 0.8
crossfade-ms = 0
replaygain = false

[integrations]
mpris = true
discord = true

[paths]
cache-dir = \"~/.cache/chromia\"
";

/// What `std::path::Path::join` gives for `base` and `part`: `part` itself
/// when it is absolute, otherwise `base` and `part` with one separator
/// between them.
pub uninterp spec fn path_joined(base: Seq<char>, part: Seq<char>) -> Seq<char>;

/// What `std::path::Path::strip_prefix("~")` gives for a path: the rest of
/// the path when its first component is `~`, `None` otherwise.
pub uninterp spec fn tilde_stripped(path: Seq<char>) -> Option<Seq<char>>;

/// Joins `part` onto `base` with `std::path::Path::join`; both come in as
/// UTF-8, so the joined path converts back without loss. As `PathBuf::push`
/// documents, an absolute `part` (on Unix, one that starts at the root `/`)
/// replaces `base`.
#[verifier::external_body]
pub(crate) fn join_path(base: &str, part: &str) -> (r: String)
    ensures
        r@ == path_joined(base@, part@),
        part@.len() > 0 && part@[0] == '/' ==> r@ == part@,
{
    std::path::Path::new(base).join(part).to_string_lossy().into_owned()
}

/// Strips a leading `~` component with `std::path::Path::strip_prefix`.
#[verifier::external_body]
fn strip_tilde(path: &str) -> (r: Option<String>)
    ensures
        match r {
            Some(rest) => tilde_stripped(path@) == Some(rest@),
            None => tilde_stripped(path@) is None,
        },
{
    std::path::Path::new(path).strip_prefix("~").ok().map(|p| p.to_string_lossy().into_owned())
}

/// The user's home directory from `dirs::home_dir`, if it can be found. It
/// depends on the environment; a path that is not UTF-8 is converted lossily.
#[verifier::external_body]
fn home_dir() -> (r: Option<String>) {
    dirs::home_dir().map(|p| p.to_string_lossy().into_owned())
}

/// The XDG config directory from `dirs::config_dir`, if it can be found. It
/// depends on the environment; a path that is not UTF-8 is converted lossily.
#[verifier::external_body]
fn xdg_config_dir() -> (r: Option<String>) {
    dirs::config_dir().map(|p| p.to_string_lossy().into_owned())
}

/// The XDG cache directory from `dirs::cache_dir`, if it can be found. It
/// depends on the environment; a path that is not UTF-8 is converted lossily.
#[verifier::external_body]
fn xdg_cache_dir() -> (r: Option<String>) {
    dirs::cache_dir().map(|p| p.to_string_lossy().into_owned())
}

/// A directory the environment does not provide.
#[derive(Debug, Clone, Copy, PartialEq, Eq, Structural)]
pub enum DirError {
    /// No XDG config directory.
    ConfigDir,
    /// No XDG cache directory.
    CacheDir,
}

impl DirError {
    /// The error message.
    pub fn message(self) -> (s: &'static str)
        ensures
            s@ == match self {
                DirError::ConfigDir => "could not resolve the XDG config directory"@,
                DirError::CacheDir => "could not resolve the XDG cache directory"@,
            },
    {
        match self {
            DirError::ConfigDir => "could not resolve the XDG config directory",
            DirError::CacheDir => "could not resolve the XDG cache directory",
        }
    }
}

/// The application's directory under a base directory: `base/chromia`, or
/// `error` when there is no base.
pub fn app_dir_in(base: Option<String>, error: DirError) -> (r: Result<String, DirError>)
    ensures
        match base {
            Some(b) => r matches Ok(d) && d@ == path_joined(b@, "chromia"@),
            None => r == Err::<String, DirError>(error),
        },
{
    match base {
        Some(b) => Ok(join_path(b.as_str(), "chromia")),
        None => Err(error),
    }
}

/// Returns the config directory (`~/.config/chromia`).
pub fn config_dir() -> (r: Result<String, DirError>)
    ensures
        r matches Err(e) ==> e == DirError::ConfigDir,
        r matches Ok(d) ==> exists|base: Seq<char>| d@ == #[trigger] path_joined(base, "chromia"@),
{
    app_dir_in(xdg_config_dir(), DirError::ConfigDir)
}

/// Returns the cache directory (`~/.cache/chromia`).
pub fn cache_dir() -> (r: Result<String, DirError>)
    ensures
        r matches Err(e) ==> e == DirError::CacheDir,
        r matches Ok(d) ==> exists|base: Seq<char>| d@ == #[trigger] path_joined(base, "chromia"@),
{
    app_dir_in(xdg_cache_dir(), DirError::CacheDir)
}

/// `path` with a leading `~` component replaced by `home`; unchanged without
/// such a component or without a home directory.
pub open spec fn expanded(path: Seq<char>, home: Option<Seq<char>>) -> Seq<char> {
    match tilde_stripped(path) {
        Some(rest) => match home {
            Some(h) => path_joined(h, rest),
            None => path,
        },
        None => path,
    }
}

/// Expands a leading `~` in `path` against the given home directory.
pub fn expand_path_with(path: &str, home: Option<&str>) -> (r: String)
    ensures
        r@ == expanded(
            path@,
            match home {
                Some(h) => Some(h@),
                None => None,
            },
        ),
{
    match strip_tilde(path) {
        Some(rest) => match home {
            Some(h) => join_path(h, rest.as_str()),
            None => path.to_string(),
        },
        None => path.to_string(),
    }
}

/// Expands a leading `~` in a path against `$HOME`.
pub fn expand_path(path: &str) -> (r: String)
    ensures
        match tilde_stripped(path@) {
            None => r@ == path@,
            Some(rest) => r@ == path@ || exists|home: Seq<char>| r@ == #[trigger] path_joined(home, rest),
        },
{
    match strip_tilde(path) {
        Some(_) => match home_dir() {
            Some(h) => expand_path_with(path, Some(h.as_str())),
            None => path.to_string(),
        },
        None => path.to_string(),
    }
}

} // verus!
