//! Servers: the registry of those there are, and the one in use.

use crate::names::NameMap;
use crate::path::{join, joined_path};
use crate::text::basic::{after_prefix, is_space, same, strip_prefix, trim, trimmed};
use crate::text::number::{hex16, hex16_text};
use crate::text::order::{lemma_same_multiset, ordered, sort};
use std::collections::hash_map::DefaultHasher;
use std::hash::{Hash, Hasher};
use vstd::prelude::*;

verus! {

pub const REGISTRY_FILE: &'static str = ".config/cella/servers.toml";

pub const CLIENT_CONFIG: &'static str = ".config/cella/config.toml";

pub const ACTIVE_DIR: &'static str = ".config/cella/active";

/// What a user says of all repositories.
pub struct ClientConfig {
    /// The files that go to every cell.
    pub sync: Vec<String>,
}

impl Default for ClientConfig {
    /// Nothing.
    fn default() -> (r: Self)
        ensures
            r.sync@.len() == 0,
    {
        ClientConfig { sync: Vec::new() }
    }
}

/// The server in use.
pub enum ActiveServer {
    Localhost,
    Remote { name: String },
}

/// The server in use.
pub enum ServerView {
    Localhost,
    Remote { name: Seq<char> },
}

impl View for ActiveServer {
    type V = ServerView;

    open spec fn view(&self) -> ServerView {
        match self {
            ActiveServer::Localhost => ServerView::Localhost,
            ActiveServer::Remote { name } => ServerView::Remote { name: name@ },
        }
    }
}

/// A server of the registry.
pub struct ServerEntry {
    /// Whom to connect to.
    pub target: String,
}

impl DeepView for ServerEntry {
    type V = Seq<char>;

    /// Whom to connect to.
    open spec fn deep_view(&self) -> Seq<char> {
        self.target@
    }
}

/// The registry: whom to connect to for each server.
pub type Registry = Map<Seq<char>, Seq<char>>;

/// A server that the registry does not have.
pub enum ServerError {
    Unknown(String),
    /// As before, with the advice to add it.
    NotRegistered(String),
}

impl ServerError {
    /// The error in words.
    pub open spec fn words(self) -> Seq<char> {
        match self {
            ServerError::Unknown(n) => "server '"@ + n@ + "' not in registry"@,
            ServerError::NotRegistered(n) => "server '"@ + n@
                + "' not in registry. Add it with: cella server add "@ + n@ + " <target>"@,
        }
    }

    /// The error in words.
    pub fn message(&self) -> (r: String)
        ensures
            r@ == self.words(),
    {
        match self {
            ServerError::Unknown(n) => {
                let mut r = "server '".to_string();
                r.append(n);
                r.append("' not in registry");
                r
            },
            ServerError::NotRegistered(n) => {
                let mut r = "server '".to_string();
                r.append(n);
                r.append("' not in registry. Add it with: cella server add ");
                r.append(n);
                r.append(" <target>");
                r
            },
        }
    }
}

/// Whom to connect to for the server in use.
pub open spec fn target_in(server: ServerView, registry: Registry) -> Result<
    Option<Seq<char>>,
    Seq<char>,
> {
    match server {
        ServerView::Localhost => Ok(None),
        ServerView::Remote { name } => if registry.dom().contains(name) {
            Ok(Some(registry[name]))
        } else {
            Err(name)
        },
    }
}

impl ActiveServer {
    /// Whom to connect to: nobody for this host.
    pub fn target(&self, registry: &NameMap<ServerEntry>) -> (r: Result<
        Option<String>,
        ServerError,
    >)
        ensures
            match target_in(self@, registry.deep_view()) {
                Ok(t) => r matches Ok(o) && o.deep_view() == t,
                Err(n) => r matches Err(ServerError::Unknown(name)) && name@ == n,
            },
    {
        match self {
            ActiveServer::Localhost => Ok(None),
            ActiveServer::Remote { name } => match registry.get(name) {
                Some(entry) => Ok(Some(entry.target.clone())),
                None => Err(ServerError::Unknown(name.clone())),
            },
        }
    }

    /// Whether the server is another host.
    pub fn is_server(&self) -> (r: bool)
        ensures
            r == (self@ is Remote),
    {
        match self {
            ActiveServer::Localhost => false,
            ActiveServer::Remote { .. } => true,
        }
    }

    /// The address that `git` pushes to.
    pub fn remote_url(&self, registry: &NameMap<ServerEntry>) -> (r: Result<String, ServerError>)
        ensures
            match target_in(self@, registry.deep_view()) {
                Ok(Some(t)) => r matches Ok(u) && u@ == "cella://"@ + t,
                Ok(None) => r matches Ok(u) && u@ == "cella://localhost"@,
                Err(n) => r matches Err(ServerError::Unknown(name)) && name@ == n,
            },
    {
        match self.target(registry) {
            Err(e) => Err(e),
            Ok(Some(t)) => {
                let mut u = "cella://".to_string();
                u.append(&t);
                Ok(u)
            },
            Ok(None) => Ok("cella://localhost".to_string()),
        }
    }
}

// The registry

/// The home of the user.
pub fn home_dir(home: Option<&str>) -> (r: String)
    ensures
        r@ == (match home {
            Some(h) => h@,
            None => "/root"@,
        }),
{
    match home {
        Some(h) => h.to_string(),
        None => "/root".to_string(),
    }
}

/// The file of the registry.
pub fn registry_path(home: &str) -> (r: String)
    ensures
        r@ == joined_path(home@, REGISTRY_FILE@),
{
    join(home, REGISTRY_FILE)
}

/// The file that the registry is loaded from, where it is there.
pub fn load_registry(home: &str) -> (r: String)
    ensures
        r@ == joined_path(home@, REGISTRY_FILE@),
{
    registry_path(home)
}

/// The file that the configuration of the user is loaded from, where it is
/// there.
pub fn load_client_config(home: &str) -> (r: String)
    ensures
        r@ == joined_path(home@, CLIENT_CONFIG@),
{
    join(home, CLIENT_CONFIG)
}

/// Enters a server in the registry.
pub fn add(registry: &mut NameMap<ServerEntry>, name: &str, target: &str)
    ensures
        final(registry).deep_view() == old(registry).deep_view().insert(name@, target@),
{
    let ghost before = registry.deep_view();
    registry.insert(name.to_string(), ServerEntry { target: target.to_string() });
    assert(registry.deep_view() == before.insert(name@, target@));
}

/// Takes a server out of the registry.
pub fn remove(registry: &mut NameMap<ServerEntry>, name: &str) -> (r: Result<(), ServerError>)
    ensures
        if old(registry).deep_view().dom().contains(name@) {
            r is Ok && final(registry).deep_view() == old(registry).deep_view().remove(name@)
        } else {
            r matches Err(ServerError::Unknown(n)) && n@ == name@ && final(registry).deep_view()
                == old(registry).deep_view()
        },
{
    let ghost before = registry.deep_view();
    if registry.remove(name) {
        assert(registry.deep_view() == before.remove(name@));
        Ok(())
    } else {
        assert(registry.deep_view() == before);
        Err(ServerError::Unknown(name.to_string()))
    }
}

/// `list` gives the servers of the registry, each once and by name.
pub open spec fn lists(list: Seq<(Seq<char>, Seq<char>)>, registry: Registry) -> bool {
    let names = list.map_values(|e: (Seq<char>, Seq<char>)| e.0);
    &&& ordered(names)
    &&& names.no_duplicates()
    &&& forall|n: Seq<char>| #[trigger] names.contains(n) <==> registry.dom().contains(n)
    &&& forall|i: int| 0 <= i < list.len() ==> registry[(#[trigger] list[i]).0] == list[i].1
}

/// The servers of the registry and whom to connect to, by name.
pub fn list(registry: &NameMap<ServerEntry>) -> (r: Vec<(String, String)>)
    ensures
        lists(r.deep_view(), registry.deep_view()),
{
    let unsorted = registry.names();
    let ghost found = unsorted.deep_view();
    let names = sort(unsorted);
    let ghost all = names.deep_view();
    proof {
        lemma_same_multiset(found, all);
    }
    let mut r: Vec<(String, String)> = Vec::new();
    let mut i: usize = 0;
    while i < names.len()
        invariant
            i <= names.len(),
            all == names.deep_view(),
            forall|n: Seq<char>| #[trigger] all.contains(n) <==> registry@.dom().contains(n),
            r.len() == i,
            forall|j: int|
                0 <= j < i ==> (#[trigger] r.deep_view()[j]).0 == all[j] && r.deep_view()[j].1
                    == registry.deep_view()[all[j]],
        decreases names.len() - i,
    {
        assert(all.contains(all[i as int]));
        let ghost before = r.deep_view();
        if let Some(entry) = registry.get(&names[i]) {
            r.push((names[i].clone(), entry.target.clone()));
            assert(r.deep_view() == before.push((names[i as int]@, entry.target@)));
        }
        i += 1;
    }
    assert(r.deep_view().map_values(|e: (Seq<char>, Seq<char>)| e.0) =~= all);
    r
}

/// A server that was added can be used, and whom to connect to for it is what
/// was entered, until it is removed.
pub proof fn law_added_server_found(registry: Registry, name: Seq<char>, target: Seq<char>)
    ensures
        target_in(ServerView::Remote { name }, registry.insert(name, target)) == Ok::<
            Option<Seq<char>>,
            Seq<char>,
        >(Some(target)),
        target_in(ServerView::Remote { name }, registry.insert(name, target).remove(name)) == Err::<
            Option<Seq<char>>,
            Seq<char>,
        >(name),
{
}

// The server in use, for each repository

/// `Hash::hash` of a `std::path::Path` feeds the path to the hasher. What it
/// feeds is not claimed: it differs between platforms and between compilers.
#[verifier::external_body]
fn feed_path(hasher: &mut DefaultHasher, root: &str) {
    std::path::Path::new(root).hash(hasher);
}

/// The name of a hash: sixteen hexadecimal digits.
pub fn hash_name(hash: u64) -> (r: String)
    ensures
        r@ == hex16(hash as nat),
{
    hex16_text(hash)
}

/// What a hasher gives that was fed with `fed`.
pub open spec fn hash_of(fed: Seq<Seq<u8>>) -> u64 {
    <DefaultHasher as vstd::std_specs::hash::DefaultHasherAdditionalSpecFns>::spec_finish(fed)
}

/// The hash of a repository: that of what its path feeds to a new hasher. What
/// that is the machine decides.
pub fn repo_hash(repo_root: &str) -> (r: String)
    ensures
        exists|fed: Seq<Seq<u8>>| r@ == hex16(#[trigger] hash_of(fed) as nat),
{
    let mut hasher = DefaultHasher::new();
    feed_path(&mut hasher, repo_root);
    let r = hash_name(hasher.finish());
    assert(r@ == hex16(hash_of(hasher@) as nat));
    r
}

/// The file with the server in use for the repository with the hash `hash`.
pub fn active_file(home: &str, hash: &str) -> (r: String)
    ensures
        r@ == joined_path(joined_path(home@, ACTIVE_DIR@), hash@),
{
    join(&join(home, ACTIVE_DIR), hash)
}

/// The server that the content of the file names. Without a file it is this
/// host. An older form has `system:` or `repo:` before the name.
pub open spec fn active_in(content: Option<Seq<char>>) -> ServerView {
    match content {
        None => ServerView::Localhost,
        Some(c) => {
            let t = trimmed(c);
            if t.len() == 0 || t == "localhost"@ {
                ServerView::Localhost
            } else if let Some(n) = after_prefix(t, "system:"@) {
                ServerView::Remote { name: n }
            } else if let Some(n) = after_prefix(t, "repo:"@) {
                ServerView::Remote { name: n }
            } else {
                ServerView::Remote { name: t }
            }
        },
    }
}

/// The server in use, from the content of the file with it.
pub fn active(content: Option<&str>) -> (r: ActiveServer)
    ensures
        r@ == active_in(content.deep_view()),
{
    match content {
        None => ActiveServer::Localhost,
        Some(c) => {
            let t = trim(c);
            if t.as_str().is_empty() || same(&t, "localhost") {
                ActiveServer::Localhost
            } else if let Some(name) = strip_prefix(&t, "system:") {
                ActiveServer::Remote { name }
            } else if let Some(name) = strip_prefix(&t, "repo:") {
                ActiveServer::Remote { name }
            } else {
                ActiveServer::Remote { name: t }
            }
        },
    }
}

/// What the file says of the server in use.
pub open spec fn written_server(server: ServerView) -> Seq<char> {
    (match server {
        ServerView::Localhost => "localhost"@,
        ServerView::Remote { name } => name,
    }) + "\n"@
}

/// What the file is to hold.
pub fn write_active(server: &ActiveServer) -> (r: String)
    ensures
        r@ == written_server(server@),
{
    let mut r = match server {
        ActiveServer::Localhost => "localhost".to_string(),
        ActiveServer::Remote { name } => name.clone(),
    };
    r.append("\n");
    r
}

/// The name of a server that a file can hold: it is not empty, not the name of
/// this host, does not begin as the older form does, and has no white space at
/// its ends.
pub open spec fn plain_name(name: Seq<char>) -> bool {
    &&& name.len() > 0
    &&& name != "localhost"@
    &&& !"system:"@.is_prefix_of(name)
    &&& !"repo:"@.is_prefix_of(name)
    &&& !is_space(name[0])
    &&& !is_space(name.last())
}

/// The server in use is the one that was written.
pub proof fn law_active_reads_back(server: ServerView)
    requires
        server matches ServerView::Remote { name } ==> plain_name(name),
    ensures
        active_in(Some(written_server(server))) == server,
{
    reveal_strlit("\n");
    reveal_strlit("localhost");
    let name = match server {
        ServerView::Localhost => "localhost"@,
        ServerView::Remote { name } => name,
    };
    let t = written_server(server);
    assert(t == name.push('\n'));
    assert(t[0] == name[0]);
    assert(crate::text::basic::trimmed_start(t) == t);
    assert(t.drop_last() == name);
    assert(crate::text::basic::trimmed_end(t) == crate::text::basic::trimmed_end(name));
    assert(trimmed(t) == name);
}

/// The server called `name`.
pub open spec fn resolved_server(name: Seq<char>, registry: Registry) -> Option<ServerView> {
    if name == "localhost"@ {
        Some(ServerView::Localhost)
    } else if registry.dom().contains(name) {
        Some(ServerView::Remote { name })
    } else {
        None
    }
}

/// The server called `name`, which is this host or one of the registry.
pub fn resolve(registry: &NameMap<ServerEntry>, name: &str) -> (r: Result<ActiveServer, ServerError>)
    ensures
        match resolved_server(name@, registry.deep_view()) {
            Some(s) => r matches Ok(a) && a@ == s,
            None => r matches Err(ServerError::NotRegistered(n)) && n@ == name@,
        },
{
    if same(name, "localhost") {
        return Ok(ActiveServer::Localhost);
    }
    if registry.contains_key(name) {
        Ok(ActiveServer::Remote { name: name.to_string() })
    } else {
        Err(ServerError::NotRegistered(name.to_string()))
    }
}

/// A server that can be resolved can be connected to.
pub proof fn law_resolved_server_has_target(registry: Registry, name: Seq<char>)
    requires
        resolved_server(name, registry) is Some,
    ensures
        target_in(resolved_server(name, registry)->0, registry) is Ok,
{
}

/// A name stands for this host, for a server of the registry, or for none.
pub proof fn law_names_of_servers(registry: Registry, name: Seq<char>)
    ensures
        resolved_server("localhost"@, registry) == Some(ServerView::Localhost),
        name != "localhost"@ && registry.dom().contains(name) ==> resolved_server(name, registry)
            == Some(ServerView::Remote { name }),
        name != "localhost"@ && !registry.dom().contains(name) ==> resolved_server(name, registry)
            is None,
        target_in(ServerView::Localhost, registry) == Ok::<Option<Seq<char>>, Seq<char>>(None),
        written_server(ServerView::Localhost) == "localhost"@ + "\n"@,
        written_server(ServerView::Remote { name }) == name + "\n"@,
{
}

/// Where no file names a server, or an empty one does, this host is in use. A
/// file of the older form names the server behind the colon.
pub proof fn law_older_form_read(name: Seq<char>)
    requires
        name.len() > 0,
        !is_space(name.last()),
    ensures
        active_in(None) == ServerView::Localhost,
        active_in(Some(Seq::<char>::empty())) == ServerView::Localhost,
        active_in(Some("localhost"@)) == ServerView::Localhost,
        active_in(Some("system:"@ + name)) == (ServerView::Remote { name }),
        active_in(Some("repo:"@ + name)) == (ServerView::Remote { name }),
{
    reveal_strlit("system:");
    reveal_strlit("repo:");
    reveal_strlit("localhost");
    let s = "system:"@ + name;
    let r = "repo:"@ + name;
    let l = "localhost"@;
    assert(s[0] == 's' && r[0] == 'r' && l[0] == 'l' && l[8] == 't');
    assert(s.last() == name.last() && r.last() == name.last());
    crate::text::basic::lemma_trimmed_stays(s);
    crate::text::basic::lemma_trimmed_stays(r);
    crate::text::basic::lemma_trimmed_stays(l);
    crate::text::basic::lemma_trimmed_stays(Seq::<char>::empty());
    crate::text::basic::law_affix_and_rest(name, "system:"@);
    crate::text::basic::law_affix_and_rest(name, "repo:"@);
    if "system:"@.is_prefix_of(r) {
        assert(r.subrange(0, 7)[0] == "system:"@[0]);
    }
}

/// A list of the servers has every server of the registry with its own target,
/// and nothing else; it goes by name.
pub proof fn law_all_servers_listed(
    list: Seq<(Seq<char>, Seq<char>)>,
    registry: Registry,
    name: Seq<char>,
    target: Seq<char>,
)
    requires
        lists(list, registry),
    ensures
        list.contains((name, target)) <==> registry.dom().contains(name) && registry[name]
            == target,
        forall|i: int, j: int|
            0 <= i < list.len() && 0 <= j < list.len() && i != j ==> (#[trigger] list[i]).0 != (
            #[trigger] list[j]).0,
        ordered(list.map_values(|e: (Seq<char>, Seq<char>)| e.0)),
{
    let names = list.map_values(|e: (Seq<char>, Seq<char>)| e.0);
    if list.contains((name, target)) {
        let i = list.index_of((name, target));
        assert(names[i] == name);
        assert(names.contains(name));
        assert(registry[list[i].0] == list[i].1);
    }
    if registry.dom().contains(name) && registry[name] == target {
        assert(names.contains(name));
        let i = names.index_of(name);
        assert(registry[list[i].0] == list[i].1);
        assert(list[i] == (name, target));
    }
    assert forall|i: int, j: int|
        0 <= i < list.len() && 0 <= j < list.len() && i != j implies (#[trigger] list[i]).0 != (
    #[trigger] list[j]).0 by {
        assert(names[i] == list[i].0 && names[j] == list[j].0);
    }
}

/// A server that is not in the registry is named, with the advice to add it
/// where it was asked for by name.
pub proof fn law_server_errors_said(n: String)
    ensures
        ServerError::Unknown(n).words() == "server '"@ + n@ + "' not in registry"@,
        ServerError::NotRegistered(n).words() == "server '"@ + n@
            + "' not in registry. Add it with: cella server add "@ + n@ + " <target>"@,
{
}

} // verus!
