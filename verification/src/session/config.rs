//! The configuration of a repository with sessions.

use crate::path::{join, joined_path};
use vstd::prelude::*;

verus! {

/// What a repository says of its cells.
pub struct CellaConfig {
    pub memory: String,
    pub vcpu: u32,
    /// The seconds from the last session to the stop of the cell.
    pub shell_timeout: u64,
    pub ports: Vec<u16>,
    /// What is run after a push.
    pub post_push: Option<String>,
    pub session: SessionConfig,
    pub proxy: Vec<ProxyRule>,
    pub nucleus: NucleusConfig,
    pub secrets: SecretsConfig,
    /// An older place for what is run after a push.
    pub hooks: HooksConfig,
}

/// What a session runs.
pub struct SessionConfig {
    pub command: Option<String>,
    pub on_exit: Option<String>,
    pub hooks: Vec<String>,
}

/// What is run after a push.
pub struct HooksConfig {
    pub post_push: Option<String>,
}

/// Where secrets come from.
pub struct SecretsConfig {
    pub command: Option<String>,
}

/// What looks at commits before they are made.
pub struct NucleusConfig {
    pub command: Option<String>,
    pub proxy_port: Option<u16>,
    pub allowed_domains: Vec<String>,
}

/// How a domain is reached.
pub struct ProxyRule {
    pub domain: String,
    pub mode: ProxyMode,
    pub secret: Option<String>,
    pub prefix: Option<String>,
}

/// Whether a domain is reached, recorded or replayed.
#[derive(Clone, Copy, Debug, PartialEq, Eq, Structural)]
pub enum ProxyMode {
    Live,
    Record,
    Replay,
}

/// The memory of a cell whose repository does not say.
pub fn default_memory() -> (r: String)
    ensures
        r@ == "2G"@,
{
    "2G".to_string()
}

/// The processors of a cell whose repository does not say.
pub fn default_vcpu() -> (r: u32)
    ensures
        r == 2,
{
    2
}

/// The seconds to the stop of a cell whose repository does not say.
pub fn default_timeout() -> (r: u64)
    ensures
        r == 300,
{
    300
}

impl Default for SessionConfig {
    /// A shell without hooks.
    fn default() -> (r: Self)
        ensures
            r.command is None,
            r.on_exit is None,
            r.hooks@.len() == 0,
    {
        SessionConfig { command: None, on_exit: None, hooks: Vec::new() }
    }
}

impl Default for HooksConfig {
    /// Nothing.
    fn default() -> (r: Self)
        ensures
            r.post_push is None,
    {
        HooksConfig { post_push: None }
    }
}

impl Default for SecretsConfig {
    /// Nothing.
    fn default() -> (r: Self)
        ensures
            r.command is None,
    {
        SecretsConfig { command: None }
    }
}

impl Default for NucleusConfig {
    /// Nothing.
    fn default() -> (r: Self)
        ensures
            r.command is None,
            r.proxy_port is None,
            r.allowed_domains@.len() == 0,
    {
        NucleusConfig { command: None, proxy_port: None, allowed_domains: Vec::new() }
    }
}

/// What a repository that says nothing says.
pub open spec fn is_default(c: CellaConfig) -> bool {
    &&& c.memory@ == "2G"@
    &&& c.vcpu == 2
    &&& c.shell_timeout == 300
    &&& c.ports@.len() == 0
    &&& c.post_push is None
    &&& c.session.command is None && c.session.on_exit is None && c.session.hooks@.len() == 0
    &&& c.proxy@.len() == 0
    &&& c.nucleus.command is None && c.nucleus.proxy_port is None
        && c.nucleus.allowed_domains@.len() == 0
    &&& c.secrets.command is None
    &&& c.hooks.post_push is None
}

impl Default for CellaConfig {
    /// What a repository that says nothing says.
    fn default() -> (r: Self)
        ensures
            is_default(r),
    {
        CellaConfig {
            memory: default_memory(),
            vcpu: default_vcpu(),
            shell_timeout: default_timeout(),
            ports: Vec::new(),
            post_push: None,
            session: SessionConfig { command: None, on_exit: None, hooks: Vec::new() },
            proxy: Vec::new(),
            nucleus: NucleusConfig {
                command: None,
                proxy_port: None,
                allowed_domains: Vec::new(),
            },
            secrets: SecretsConfig { command: None },
            hooks: HooksConfig { post_push: None },
        }
    }
}

impl CellaConfig {
    /// What is run after a push; the older place counts where the newer says
    /// nothing.
    pub fn post_push(&self) -> (r: Option<&str>)
        ensures
            r.deep_view() == (match self.post_push {
                Some(p) => Some(p@),
                None => self.hooks.post_push.deep_view(),
            }),
    {
        match &self.post_push {
            Some(p) => Some(p.as_str()),
            None => match &self.hooks.post_push {
                Some(p) => Some(p.as_str()),
                None => None,
            },
        }
    }
}

/// The file with the configuration of a repository: the newer place where it
/// is there, and else the older.
pub open spec fn config_file(repo_root: Seq<char>, newer: bool) -> Seq<char> {
    if newer {
        joined_path(repo_root, ".cella/config.toml"@)
    } else {
        joined_path(repo_root, "cella.toml"@)
    }
}

/// The file that the configuration is loaded from, where it is there; `newer`
/// says whether the newer one is.
pub fn load(repo_root: &str, newer: bool) -> (r: String)
    ensures
        r@ == config_file(repo_root@, newer),
{
    if newer {
        join(repo_root, ".cella/config.toml")
    } else {
        join(repo_root, "cella.toml")
    }
}

/// The newer place of the configuration counts where it is there, and the
/// older one only where it is not.
pub proof fn law_newer_place_first(repo_root: Seq<char>)
    ensures
        config_file(repo_root, true) == joined_path(repo_root, ".cella/config.toml"@),
        config_file(repo_root, false) == joined_path(repo_root, "cella.toml"@),
{
}

/// A repository that says nothing gets a small machine, without ports, hooks,
/// commands or secrets.
pub proof fn law_default_is_small(c: CellaConfig)
    requires
        is_default(c),
    ensures
        c.memory@ == "2G"@,
        c.vcpu == 2,
        c.shell_timeout == 5 * 60,
        c.ports@.len() == 0 && c.proxy@.len() == 0,
        c.post_push is None && c.hooks.post_push is None,
        c.session.command is None && c.session.on_exit is None && c.session.hooks@.len() == 0,
        c.nucleus.command is None && c.nucleus.allowed_domains@.len() == 0,
        c.secrets.command is None,
{
}

} // verus!
