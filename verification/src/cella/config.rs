//! The configuration of a repository, `.cella/config.toml`.

use crate::path::{join, joined_path};
use vstd::prelude::*;

verus! {

/// What a repository says of its cells.
pub struct CellaConfig {
    pub memory: String,
    pub vcpu: u32,
    pub ports: Vec<u16>,
    /// The server that its cells run on.
    pub server: Option<String>,
    /// What is run after a push.
    pub post_push: Option<String>,
    pub proxy: Vec<ProxyRule>,
    pub secrets: SecretsConfig,
    pub egress: CellEgressConfig,
    /// An older place for what is run after a push.
    pub hooks: HooksConfig,
}

/// What is run after a push.
pub struct HooksConfig {
    pub post_push: Option<String>,
}

/// Where secrets come from and who may read them.
pub struct SecretsConfig {
    pub command: Option<String>,
    pub recipient: Option<String>,
}

/// What the cells of a repository may reach.
pub struct CellEgressConfig {
    pub writes: Option<CellEgressRules>,
    pub reads: Option<CellEgressRules>,
    pub credentials: Vec<CredentialConfig>,
}

/// Which hosts may and may not be reached.
pub struct CellEgressRules {
    pub allowed: Option<Vec<String>>,
    pub denied: Option<Vec<String>>,
}

/// A credential that is put into requests to a host.
pub struct CredentialConfig {
    pub host: String,
    pub header: String,
    pub env_var: String,
}

/// How a domain is reached.
pub struct ProxyRule {
    pub domain: String,
    pub mode: ProxyMode,
    pub secret: Option<String>,
    pub prefix: Option<String>,
}

/// Whether a domain is reached, recorded or replayed.
#[derive(Clone, Copy, Debug, PartialEq, Eq, Structural)]
pub enum ProxyMode {
    Live,
    Record,
    Replay,
}

/// The memory of a cell whose repository does not say.
pub fn default_memory() -> (r: String)
    ensures
        r@ == "2G"@,
{
    "2G".to_string()
}

/// The processors of a cell whose repository does not say.
pub fn default_vcpu() -> (r: u32)
    ensures
        r == 2,
{
    2
}

impl Default for HooksConfig {
    /// Nothing.
    fn default() -> (r: Self)
        ensures
            r.post_push is None,
    {
        HooksConfig { post_push: None }
    }
}

impl Default for SecretsConfig {
    /// Nothing.
    fn default() -> (r: Self)
        ensures
            r.command is None,
            r.recipient is None,
    {
        SecretsConfig { command: None, recipient: None }
    }
}

impl Default for CellEgressConfig {
    /// Nothing beyond what the server says.
    fn default() -> (r: Self)
        ensures
            r.writes is None,
            r.reads is None,
            r.credentials@.len() == 0,
    {
        CellEgressConfig { writes: None, reads: None, credentials: Vec::new() }
    }
}

impl Default for CellEgressRules {
    /// Nothing.
    fn default() -> (r: Self)
        ensures
            r.allowed is None,
            r.denied is None,
    {
        CellEgressRules { allowed: None, denied: None }
    }
}

/// What a repository that says nothing says.
pub open spec fn is_default(c: CellaConfig) -> bool {
    &&& c.memory@ == "2G"@
    &&& c.vcpu == 2
    &&& c.ports@.len() == 0
    &&& c.server is None
    &&& c.post_push is None
    &&& c.proxy@.len() == 0
    &&& c.secrets.command is None && c.secrets.recipient is None
    &&& c.egress.writes is None && c.egress.reads is None && c.egress.credentials@.len() == 0
    &&& c.hooks.post_push is None
}

impl Default for CellaConfig {
    /// What a repository that says nothing says.
    fn default() -> (r: Self)
        ensures
            is_default(r),
    {
        CellaConfig {
            memory: default_memory(),
            vcpu: default_vcpu(),
            ports: Vec::new(),
            server: None,
            post_push: None,
            proxy: Vec::new(),
            secrets: SecretsConfig { command: None, recipient: None },
            egress: CellEgressConfig { writes: None, reads: None, credentials: Vec::new() },
            hooks: HooksConfig { post_push: None },
        }
    }
}

/// The file with the configuration of a repository: the newer place where it
/// is there, and else the older.
pub open spec fn config_file(repo_root: Seq<char>, newer: bool) -> Seq<char> {
    if newer {
        joined_path(repo_root, ".cella/config.toml"@)
    } else {
        joined_path(repo_root, "cella.toml"@)
    }
}

/// The file that the configuration is loaded from, where it is there; `newer`
/// says whether the newer one is.
pub fn load(repo_root: &str, newer: bool) -> (r: String)
    ensures
        r@ == config_file(repo_root@, newer),
{
    if newer {
        join(repo_root, ".cella/config.toml")
    } else {
        join(repo_root, "cella.toml")
    }
}

/// The newer place of the configuration counts where it is there, and the
/// older one only where it is not.
pub proof fn law_newer_place_first(repo_root: Seq<char>)
    ensures
        config_file(repo_root, true) == joined_path(repo_root, ".cella/config.toml"@),
        config_file(repo_root, false) == joined_path(repo_root, "cella.toml"@),
{
}

/// A repository that says nothing gets a small machine, without ports, hooks,
/// commands or secrets.
pub proof fn law_default_is_small(c: CellaConfig)
    requires
        is_default(c),
    ensures
        c.memory@ == "2G"@,
        c.vcpu == 2,
        c.ports@.len() == 0 && c.proxy@.len() == 0,
        c.server is None,
        c.post_push is None && c.hooks.post_push is None,
        c.secrets.command is None && c.secrets.recipient is None,
        c.egress.reads is None && c.egress.writes is None && c.egress.credentials@.len() == 0,
{
}

} // verus!
