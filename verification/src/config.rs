//! Per-user configuration for the bridge.

use vstd::prelude::*;

verus! {

/// Bridge configuration, read from `config.toml`.
#[derive(Debug, Clone)]
pub struct Config {
    /// Absolute path to the vendor PKCS#11 module (.dylib / .dll / .so).
    pub pkcs11_module: Option<String>,
    /// If true, prompt for the token PIN via the OS-native dialog.
    pub prompt_pin: bool,
    /// Where the host writes its log file. Defaults to the per-user data dir.
    pub log_dir: Option<String>,
    /// Seconds to wait for the PKCS#11 module to initialise.
    pub pkcs11_init_timeout_secs: u64,
}

/// Default of `Config::pkcs11_init_timeout_secs`.
pub const DEFAULT_PKCS11_INIT_TIMEOUT_SECS: u64 = 10;

/// `prompt_pin` defaults to on when the file leaves it out.
pub fn default_true() -> (r: bool)
    ensures
        r,
{
    true
}

impl Default for Config {
    fn default() -> (c: Self)
        ensures
            c.pkcs11_module is None,
            c.prompt_pin,
            c.log_dir is None,
            c.pkcs11_init_timeout_secs == DEFAULT_PKCS11_INIT_TIMEOUT_SECS,
    {
        Config {
            pkcs11_module: None,
            prompt_pin: true,
            log_dir: None,
            pkcs11_init_timeout_secs: DEFAULT_PKCS11_INIT_TIMEOUT_SECS,
        }
    }
}

/// The effective PKCS#11 initialisation timeout: the configured seconds, at
/// least one.
pub fn pkcs11_init_timeout_secs(cfg: &Config) -> (s: u64)
    ensures
        s == if cfg.pkcs11_init_timeout_secs >= 1 { cfg.pkcs11_init_timeout_secs } else { 1 },
{
    if cfg.pkcs11_init_timeout_secs >= 1 {
        cfg.pkcs11_init_timeout_secs
    } else {
        1
    }
}

/// The per-user directories of the application.
pub struct ProjectPaths {
    pub config_dir: String,
    pub data_local_dir: String,
}

/// `directories::ProjectDirs::from`: the per-user config and local data
/// directories, or `None` when no home directory can be found. They depend on
/// the environment and the platform, so nothing is stated of them.
#[verifier::external_body]
fn project_paths(qualifier: &str, organization: &str, application: &str) -> (r: Option<ProjectPaths>) {
    directories::ProjectDirs::from(qualifier, organization, application).map(|d| ProjectPaths {
        config_dir: d.config_dir().to_string_lossy().into_owned(),
        data_local_dir: d.data_local_dir().to_string_lossy().into_owned(),
    })
}

/// A single relative path component: not empty, not `.` or `..`, and with no
/// separator or drive colon.
pub open spec fn is_plain_component(leaf: Seq<char>) -> bool {
    &&& leaf.len() > 0
    &&& leaf != seq!['.']
    &&& leaf != seq!['.', '.']
    &&& forall|i: int| 0 <= i < leaf.len() ==> #[trigger] leaf[i] != '/' && leaf[i] != '\\' && leaf[i] != ':'
}

/// A Windows verbatim path (`\\?\...`), which `Path::join` re-renders from its
/// components.
pub open spec fn is_verbatim(base: Seq<char>) -> bool {
    base.len() >= 4 && base.subrange(0, 4) == seq!['\\', '\\', '?', '\\']
}

/// `p` ends with `leaf`.
pub open spec fn ends_with(p: Seq<char>, leaf: Seq<char>) -> bool {
    p.len() >= leaf.len() && p.subrange(p.len() - leaf.len(), p.len() as int) == leaf
}

/// `p` is `leaf` placed under `base`: it ends with `leaf`, and unless `base` is
/// verbatim it is `base`, then at most one separator, then `leaf`.
pub open spec fn is_joined(p: Seq<char>, base: Seq<char>, leaf: Seq<char>) -> bool {
    &&& ends_with(p, leaf)
    &&& !is_verbatim(base) ==> {
        ||| p == base + leaf
        ||| p == base + seq!['/'] + leaf
        ||| p == base + seq!['\\'] + leaf
    }
}

/// `std::path::Path::join` (that is, `PathBuf::push`) of a single plain
/// component `leaf` onto `base`: the result ends with `leaf` (the pushed
/// component); unless `base` is a verbatim path, whose components are rendered
/// anew, it is `base` followed by `leaf`, with a `/` or `\` between them when
/// `base` needs a separator. Which of these, which depends on `base` and on the
/// platform's separator, is not stated.
#[verifier::external_body]
fn join_path(base: &str, leaf: &str) -> (r: String)
    requires
        is_plain_component(leaf@),
    ensures
        is_joined(r@, base@, leaf@),
{
    std::path::Path::new(base).join(leaf).to_string_lossy().into_owned()
}

/// The message when no per-user directories can be found.
pub open spec fn no_project_dirs_message() -> Seq<char> {
    "failed to resolve OS-specific project directories"@
}

/// The application's per-user directories.
pub fn project_dirs() -> (r: Result<ProjectPaths, String>)
    ensures
        r matches Err(m) ==> m@ == no_project_dirs_message(),
{
    match project_paths("com", "AutoDCR", "bridge") {
        Some(p) => Ok(p),
        None => Err(String::from_str("failed to resolve OS-specific project directories")),
    }
}

/// `config.toml` in the config directory of `dirs`, or the error that
/// resolving the directories gave.
pub fn config_path_in(dirs: Result<ProjectPaths, String>) -> (r: Result<String, String>)
    ensures
        dirs matches Err(m) ==> r == Err::<String, String>(m),
        dirs matches Ok(d) ==> (r matches Ok(p) && is_joined(p@, d.config_dir@, "config.toml"@)),
{
    let dirs = dirs?;
    proof {
        reveal_strlit("config.toml");
    }
    Ok(join_path(dirs.config_dir.as_str(), "config.toml"))
}

/// `config.toml` in the per-user config directory.
pub fn config_path() -> (r: Result<String, String>)
    ensures
        r matches Err(m) ==> m@ == no_project_dirs_message(),
        r matches Ok(p) ==> ends_with(p@, "config.toml"@),
{
    config_path_in(project_dirs())
}

/// Where the log file goes: the configured directory, else `logs` in the local
/// data directory of `dirs` (whose error is passed on).
pub fn log_dir_in(cfg: &Config, dirs: Result<ProjectPaths, String>) -> (r: Result<String, String>)
    ensures
        cfg.log_dir matches Some(d) ==> r == Ok::<String, String>(d),
        cfg.log_dir is None ==> (dirs matches Err(m) ==> r == Err::<String, String>(m)),
        cfg.log_dir is None ==> (dirs matches Ok(d) ==> (r matches Ok(p) && is_joined(
            p@,
            d.data_local_dir@,
            "logs"@,
        ))),
{
    if let Some(dir) = &cfg.log_dir {
        return Ok(dir.clone());
    }
    let dirs = dirs?;
    proof {
        reveal_strlit("logs");
    }
    Ok(join_path(dirs.data_local_dir.as_str(), "logs"))
}

/// Where the log file goes: the configured directory, else `logs` in the
/// per-user local data directory.
pub fn log_dir(cfg: &Config) -> (r: Result<String, String>)
    ensures
        cfg.log_dir matches Some(d) ==> r == Ok::<String, String>(d),
        cfg.log_dir is None ==> (r matches Err(m) ==> m@ == no_project_dirs_message()),
        cfg.log_dir is None ==> (r matches Ok(p) ==> ends_with(p@, "logs"@)),
{
    if let Some(dir) = &cfg.log_dir {
        return Ok(dir.clone());
    }
    log_dir_in(cfg, project_dirs())
}

/// The operating system the bridge runs on, as far as module discovery
/// distinguishes it.
#[derive(Debug, Clone, Copy, PartialEq, Eq, Structural)]
pub enum HostOs {
    MacOs,
    Windows,
    Other,
}

/// Well-known macOS vendor PKCS#11 module paths, in the order they are tried.
pub const MACOS_MODULE_CANDIDATES: [&'static str; 24] = [
    // Hypersecu / HYP2003
    "/usr/local/lib/libcastle_v2.1.0.0.dylib",
    "/usr/local/lib/libcastle.dylib",
    "/usr/lib/libcastle_v2.1.0.0.dylib",
    "/usr/lib/libcastle.dylib",
    "/opt/hypersecu/lib/libcastle.dylib",
    "/Library/Frameworks/HyperSecu.framework/libcastle.dylib",
    "/Volumes/HyperPKI_230404/libcastle.dylib",
    "/Volumes/HyperPKI_230404/libcastle_v2.1.0.0.dylib",
    "/usr/local/lib/libhypersecu_pkcs11.dylib",
    "/usr/lib/libhypersecu_pkcs11.dylib",
    "/opt/hypersecu/lib/libhypersecu_pkcs11.dylib",
    "/Library/Frameworks/HyperSecu.framework/libhypersecu_pkcs11.dylib",
    // eMudhra / eToken / Capricorn
    "/opt/eMudhra/eToken/lib/libeTPkcs11.dylib",
    "/usr/local/lib/libeTPkcs11.dylib",
    "/usr/lib/libeTPkcs11.dylib",
    "/usr/local/lib/libaetpkss.dylib",
    "/usr/lib/libaetpkss.dylib",
    "/Library/Frameworks/eToken.framework/Versions/Current/libeTPkcs11.dylib",
    "/Library/Frameworks/eToken.framework/Versions/A/libeToken.dylib",
    "/usr/local/lib/libeps2003csp11.dylib",
    "/usr/local/lib/libProxKeyTokenEngine_3_5.dylib",
    "/Library/eMudhraSecureSign/libeMudhraSecureSign.dylib",
    // Generic fallback
    "/usr/local/lib/pkcs11/libpkcs11.dylib",
    "/opt/homebrew/lib/libpkcs11.dylib",
];

/// Well-known Windows vendor PKCS#11 module paths, in the order they are tried.
pub const WINDOWS_MODULE_CANDIDATES: [&'static str; 9] = [
    // Hypersecu / HYP2003
    "C:\\Windows\\System32\\hypersecu_pkcs11.dll",
    "C:\\Program Files\\Hypersecu\\lib\\hypersecu_pkcs11.dll",
    // eMudhra / eToken / Capricorn
    "C:\\Windows\\System32\\eps2003csp11.dll",
    "C:\\Windows\\System32\\eTPKCS11.dll",
    "C:\\Windows\\System32\\aetpkss.dll",
    "C:\\Windows\\System32\\SignatureP11.dll",
    "C:\\Windows\\System32\\WDPKCS.dll",
    "C:\\Program Files\\eMudhra\\eToken\\lib\\eTPKCS11.dll",
    "C:\\Program Files (x86)\\eMudhra\\eToken\\lib\\eTPKCS11.dll",
];

/// Well-known Linux (and other) vendor PKCS#11 module paths, in the order they are tried.
pub const OTHER_MODULE_CANDIDATES: [&'static str; 12] = [
    // Hypersecu / HYP2003
    "/usr/local/lib/libhypersecu_pkcs11.so",
    "/usr/lib/libhypersecu_pkcs11.so",
    // eMudhra / eToken / Capricorn
    "/opt/eMudhra/eToken/lib/libeTPkcs11.so",
    "/usr/lib/libaetpkss.so",
    "/usr/lib/x86_64-linux-gnu/libeps2003csp11.so",
    "/usr/lib/libeToken.so",
    "/usr/lib/libProxKeyTokenEngine_3_5.so",
    "/usr/lib/x86_64-linux-gnu/libeMudhraSecureSign.so",
    // Generic fallback
    "/usr/lib/pkcs11/libpkcs11.so",
    "/usr/lib/x86_64-linux-gnu/pkcs11/libpkcs11.so",
    "/usr/local/lib/pkcs11/libpkcs11.so",
    "/usr/lib/x86_64-linux-gnu/libpkcs11.so",
];

/// The candidate module paths for `os`.
pub open spec fn spec_module_candidates(os: HostOs) -> Seq<&'static str> {
    match os {
        HostOs::MacOs => MACOS_MODULE_CANDIDATES@,
        HostOs::Windows => WINDOWS_MODULE_CANDIDATES@,
        HostOs::Other => OTHER_MODULE_CANDIDATES@,
    }
}

/// Well-known vendor PKCS#11 module paths for `os`, in the order they are tried.
pub fn default_module_candidates(os: HostOs) -> (r: &'static [&'static str])
    ensures
        r@ == spec_module_candidates(os),
{
    match os {
        HostOs::MacOs => &MACOS_MODULE_CANDIDATES,
        HostOs::Windows => &WINDOWS_MODULE_CANDIDATES,
        HostOs::Other => &OTHER_MODULE_CANDIDATES,
    }
}

/// `std::path::Path::exists`: whether something is at `path` now. It depends
/// on the file system, so nothing is stated of it.
#[verifier::external_body]
fn path_exists(path: &str) -> bool {
    std::path::Path::new(path).exists()
}

/// The first candidate for which `exists` holds.
pub fn first_existing(candidates: &[&'static str], exists: &Vec<bool>) -> (r: Option<&'static str>)
    requires
        exists@.len() == candidates@.len(),
    ensures
        r matches Some(p) ==> exists|i: int|
            0 <= i < candidates@.len() && exists@[i] && candidates@[i] == p && forall|j: int|
                0 <= j < i ==> !#[trigger] exists@[j],
        r is None ==> forall|j: int| 0 <= j < exists@.len() ==> !#[trigger] exists@[j],
{
    let mut i: usize = 0;
    while i < candidates.len()
        invariant
            i <= candidates@.len(),
            exists@.len() == candidates@.len(),
            forall|j: int| 0 <= j < i ==> !#[trigger] exists@[j],
        decreases candidates@.len() - i,
    {
        if exists[i] {
            return Some(candidates[i]);
        }
        i = i + 1;
    }
    None
}

/// Tries the well-known vendor paths for `os` in order and returns the first
/// that exists on disk, if any.
pub fn discover_default_module(os: HostOs) -> (r: Option<String>)
    ensures
        r matches Some(p) ==> exists|i: int|
            0 <= i < spec_module_candidates(os).len() && (#[trigger] spec_module_candidates(os)[i])@ == p@,
{
    let candidates = default_module_candidates(os);
    let mut exists: Vec<bool> = Vec::new();
    let mut i: usize = 0;
    while i < candidates.len()
        invariant
            i <= candidates@.len(),
            exists@.len() == i,
        decreases candidates@.len() - i,
    {
        exists.push(path_exists(candidates[i]));
        i = i + 1;
    }
    match first_existing(candidates, &exists) {
        Some(p) => Some(String::from_str(p)),
        None => None,
    }
}

} // verus!
