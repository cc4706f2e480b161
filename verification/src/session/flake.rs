//! The flake that a cell is built from.

use crate::json;
use crate::json::{
    as_text, get, json_read, lemma_member_found, lemma_member_missing, members_of, object, parse,
    text_under, tree_of, under, Json, Tree,
};
use crate::path::{join, joined_path};
use crate::session::cell::{cell_dir, cell_repo_dir, dir_of};
use crate::text::basic::{
    chars_of, lemma_begins, lemma_ends, lemma_field, lemma_occurs_longer, occurs, same, trim, trimmed,
};
use crate::text::split::{joined, join as join_texts};
use vstd::prelude::*;

verus! {

/// The configuration of the machines that comes with the server.
pub const SERVER_VM_CONFIG: &'static str = "/var/lib/cella/vm-config";

/// The configuration of the host.
pub const HOST_CONFIG: &'static str = "/etc/cella/host-config.json";

/// The public key of the host.
pub const HOST_PUBKEY: &'static str = "/var/lib/cella/ssh/id_ed25519.pub";

/// The flake whose presence shows that there is a configuration of the server.
pub fn has_server_config() -> (r: String)
    ensures
        r@ == joined_path(SERVER_VM_CONFIG@, "flake.nix"@),
{
    join(SERVER_VM_CONFIG, "flake.nix")
}

/// The flake whose presence shows that the repository of the cell `name` has a
/// configuration.
pub fn has_repo_config(name: &str) -> (r: String)
    ensures
        r@ == joined_path(joined_path(dir_of(name@), "repo"@), ".cella/flake.nix"@),
{
    join(&cell_repo_dir(name), ".cella/flake.nix")
}

// Nix

/// `s` with a backslash before every backslash and every double quote.
pub open spec fn nix_escaped(s: Seq<char>) -> Seq<char>
    decreases s.len(),
{
    if s.len() == 0 {
        Seq::<char>::empty()
    } else if s.last() == '\\' || s.last() == '"' {
        nix_escaped(s.drop_last()).push('\\').push(s.last())
    } else {
        nix_escaped(s.drop_last()).push(s.last())
    }
}

/// The Nix string of a text.
pub open spec fn nix_text(s: Seq<char>) -> Seq<char> {
    "\""@ + nix_escaped(s) + "\""@
}

/// The Nix expression of a JSON value.
pub open spec fn nix_of(t: Tree) -> Seq<char>
    decreases t, 1int,
{
    match t {
        Tree::Null => "null"@,
        Tree::Bool(b) => if b {
            "true"@
        } else {
            "false"@
        },
        Tree::Number { text, .. } => text,
        Tree::Text(s) => nix_text(s),
        Tree::List(_) => "[ "@ + joined(nix_parts(t), " "@) + " ]"@,
        Tree::Object(_) => "{ "@ + joined(nix_parts(t), " "@) + " }"@,
    }
}

/// The Nix expressions of the items of a list, or of the members of an object.
pub open spec fn nix_parts(t: Tree) -> Seq<Seq<char>>
    decreases t, 0int,
{
    match t {
        Tree::List(items) => Seq::new(
            items.len(),
            |i: int|
                if 0 <= i < items.len() {
                    nix_of(items[i])
                } else {
                    Seq::<char>::empty()
                },
        ),
        Tree::Object(members) => Seq::new(
            members.len(),
            |i: int|
                if 0 <= i < members.len() {
                    members[i].0 + " = "@ + nix_of(members[i].1) + ";"@
                } else {
                    Seq::<char>::empty()
                },
        ),
        _ => Seq::<Seq<char>>::empty(),
    }
}

fn nix_string(s: &str) -> (r: String)
    ensures
        r@ == nix_text(s@),
{
    let v = chars_of(s);
    let mut r = "\"".to_string();
    let mut i: usize = 0;
    assert(r@ == "\""@ + nix_escaped(s@.take(0)));
    while i < v.len()
        invariant
            v@ == s@,
            i <= v.len(),
            r@ == "\""@ + nix_escaped(s@.take(i as int)),
        decreases v.len() - i,
    {
        assert(s@.take(i + 1).drop_last() == s@.take(i as int));
        let ghost before = nix_escaped(s@.take(i as int));
        if v[i] == '\\' || v[i] == '"' {
            r.push('\\');
            assert(r@ == "\""@ + before.push('\\'));
        }
        r.push(v[i]);
        i += 1;
        assert(r@ == "\""@ + nix_escaped(s@.take(i as int)));
    }
    assert(s@.take(s@.len() as int) == s@);
    r.append("\"");
    r
}

/// The Nix expression of a JSON value.
pub fn json_to_nix(j: &Json) -> (r: String)
    ensures
        r@ == nix_of(j.deep_view()),
    decreases j,
{
    match j {
        Json::Null => "null".to_string(),
        Json::Bool(b) => if *b {
            "true".to_string()
        } else {
            "false".to_string()
        },
        Json::Number(n) => n.text.clone(),
        Json::Text(s) => nix_string(s),
        Json::List(items) => {
            let mut parts: Vec<String> = Vec::new();
            let mut i: usize = 0;
            while i < items.len()
                invariant
                    *j == Json::List(*items),
                    i <= items.len(),
                    parts.len() == i,
                    forall|k: int| 0 <= k < i ==> #[trigger] parts[k]@ == nix_of(tree_of(items[k])),
                decreases items.len() - i,
            {
                assert(decreases_to!(*j => j->List_0));
                assert(decreases_to!(*items => items@));
                assert(decreases_to!(items@ => items@[i as int]));
                parts.push(json_to_nix(&items[i]));
                i += 1;
            }
            assert(parts.deep_view() =~= nix_parts(j.deep_view()));
            let mut r = "[ ".to_string();
            r.append(&join_texts(&parts, " "));
            r.append(" ]");
            r
        },
        Json::Object(members) => {
            let mut parts: Vec<String> = Vec::new();
            let mut i: usize = 0;
            while i < members.len()
                invariant
                    *j == Json::Object(*members),
                    i <= members.len(),
                    parts.len() == i,
                    forall|k: int|
                        0 <= k < i ==> #[trigger] parts[k]@ == members[k].0@ + " = "@ + nix_of(
                            tree_of(members[k].1),
                        ) + ";"@,
                decreases members.len() - i,
            {
                assert(decreases_to!(*j => j->Object_0));
                assert(decreases_to!(*members => members@));
                assert(decreases_to!(members@ => members@[i as int]));
                assert(decreases_to!(members@[i as int] => members@[i as int].1));
                let mut p = members[i].0.clone();
                p.append(" = ");
                p.append(&json_to_nix(&members[i].1));
                p.append(";");
                parts.push(p);
                i += 1;
            }
            assert(parts.deep_view() =~= nix_parts(j.deep_view()));
            let mut r = "{ ".to_string();
            r.append(&join_texts(&parts, " "));
            r.append(" }");
            r
        },
    }
}

/// What Nix has read of a string between double quotes.
pub struct NixReading {
    pub text: Seq<char>,
    /// A backslash has just been read.
    pub escape: bool,
    /// The closing quote has been read.
    pub closed: bool,
    /// Nothing but what a string may hold has been read.
    pub sound: bool,
}

/// One character more. Behind a backslash only a backslash and a quote are
/// taken for what they are.
pub open spec fn nix_read_char(r: NixReading, c: char) -> NixReading {
    if r.closed {
        NixReading { sound: false, ..r }
    } else if r.escape {
        NixReading {
            text: r.text.push(c),
            escape: false,
            sound: r.sound && (c == '\\' || c == '"'),
            ..r
        }
    } else if c == '\\' {
        NixReading { escape: true, ..r }
    } else if c == '"' {
        NixReading { closed: true, ..r }
    } else {
        NixReading { text: r.text.push(c), ..r }
    }
}

/// What Nix has read after the characters of `s` behind the opening quote.
pub open spec fn nix_read(s: Seq<char>) -> NixReading
    decreases s.len(),
{
    if s.len() == 0 {
        NixReading { text: Seq::<char>::empty(), escape: false, closed: false, sound: true }
    } else {
        nix_read_char(nix_read(s.drop_last()), s.last())
    }
}

proof fn lemma_nix_push(s: Seq<char>, c: char)
    ensures
        nix_read(s.push(c)) == nix_read_char(nix_read(s), c),
{
    assert(s.push(c).drop_last() == s);
}

proof fn lemma_nix_read(s: Seq<char>)
    ensures
        nix_read(nix_escaped(s)) == (NixReading {
            text: s,
            escape: false,
            closed: false,
            sound: true,
        }),
    decreases s.len(),
{
    if s.len() > 0 {
        let front = nix_escaped(s.drop_last());
        lemma_nix_read(s.drop_last());
        assert(s.drop_last().push(s.last()) == s);
        if s.last() == '\\' || s.last() == '"' {
            lemma_nix_push(front, '\\');
            lemma_nix_push(front.push('\\'), s.last());
        } else {
            lemma_nix_push(front, s.last());
        }
    } else {
        assert(s == Seq::<char>::empty());
    }
}

/// The Nix string of a text is one string, closed by its last character, and
/// holds that text. (Interpolation is left aside: a dollar sign with a brace
/// behind it stands as it is.)
pub proof fn law_nix_text_reads_back(s: Seq<char>)
    ensures
        nix_text(s)[0] == '"',
        nix_read(nix_text(s).drop_first()) == (NixReading {
            text: s,
            escape: false,
            closed: true,
            sound: true,
        }),
{
    reveal_strlit("\"");
    lemma_nix_read(s);
    assert(nix_text(s).drop_first() == nix_escaped(s).push('"'));
    lemma_nix_push(nix_escaped(s), '"');
}

// The configuration of the host

/// The position of the first member called `name`.
pub open spec fn member_at(members: Seq<(Seq<char>, Tree)>, name: Seq<char>, i: int) -> Option<int>
    decreases members.len() - i,
{
    if i >= members.len() {
        None
    } else if members[i].0 == name {
        Some(i)
    } else {
        member_at(members, name, i + 1)
    }
}

/// The keys with one more, where it is not among them.
pub open spec fn keys_with(keys: Tree, key: Seq<char>) -> Tree {
    match keys {
        Tree::List(items) => if items.contains(Tree::Text(key)) {
            keys
        } else {
            Tree::List(items.push(Tree::Text(key)))
        },
        _ => keys,
    }
}

/// The user with one more authorized key.
pub open spec fn user_with(user: Tree, key: Seq<char>) -> Tree {
    match user {
        Tree::Object(members) => match member_at(members, "authorizedKeys"@, 0) {
            Some(i) => Tree::Object(
                members.update(i, (members[i].0, keys_with(members[i].1, key))),
            ),
            None => user,
        },
        _ => user,
    }
}

/// The configuration of the host with one more authorized key of its user,
/// where it lists such keys.
pub open spec fn config_with(config: Tree, key: Seq<char>) -> Tree {
    match config {
        Tree::Object(members) => match member_at(members, "user"@, 0) {
            Some(i) => Tree::Object(
                members.update(i, (members[i].0, user_with(members[i].1, key))),
            ),
            None => config,
        },
        _ => config,
    }
}

fn position(members: &Vec<(String, Json)>, name: &str) -> (r: Option<usize>)
    ensures
        match r {
            Some(i) => i < members.len() && member_at(members_of(members@), name@, 0) == Some(
                i as int,
            ),
            None => member_at(members_of(members@), name@, 0) is None,
        },
{
    let mut i: usize = 0;
    while i < members.len()
        invariant
            i <= members.len(),
            member_at(members_of(members@), name@, 0) == member_at(
                members_of(members@),
                name@,
                i as int,
            ),
        decreases members.len() - i,
    {
        if same(&members[i].0, name) {
            return Some(i);
        }
        i += 1;
    }
    None
}

fn add_key(keys: Json, key: &str) -> (r: Json)
    ensures
        r.deep_view() == keys_with(keys.deep_view(), key@),
{
    match keys {
        Json::List(items) => {
            let mut items = items;
            let ghost trees = tree_of(Json::List(items))->List_0;
            assert(trees =~= json::items_of(items@));
            let mut i: usize = 0;
            while i < items.len()
                invariant
                    i <= items.len(),
                    trees == json::items_of(items@),
                    keys.deep_view() == Tree::List(trees),
                    forall|j: int| 0 <= j < i ==> #[trigger] trees[j] != Tree::Text(key@),
                decreases items.len() - i,
            {
                if let Json::Text(s) = &items[i] {
                    if same(s, key) {
                        assert(trees[i as int] == Tree::Text(key@));
                        return json::list(items);
                    }
                    assert(trees[i as int] == Tree::Text(s@));
                }
                assert(trees[i as int] == tree_of(items[i as int]));
                i += 1;
            }
            assert(!trees.contains(Tree::Text(key@)));
            items.push(Json::Text(key.to_string()));
            assert(json::items_of(items@) =~= trees.push(Tree::Text(key@)));
            json::list(items)
        },
        other => other,
    }
}

fn with_member(
    members: Vec<(String, Json)>,
    i: usize,
    value: Json,
    name: String,
) -> (r: Json)
    requires
        i <= members.len(),
    ensures
        r.deep_view() == Tree::Object(
            members_of(members@).insert(i as int, (name@, value.deep_view())),
        ),
{
    let mut members = members;
    let ghost before = members_of(members@);
    members.insert(i, (name, value));
    assert(members_of(members@) =~= before.insert(i as int, (name@, value.deep_view())));
    object(members)
}

fn add_user_key(user: Json, key: &str) -> (r: Json)
    ensures
        r.deep_view() == user_with(user.deep_view(), key@),
{
    match user {
        Json::Object(members) => {
            let mut members = members;
            let ghost before = members_of(members@);
            assert(tree_of(user)->Object_0 =~= before);
            match position(&members, "authorizedKeys") {
                Some(i) => {
                    let (name, keys) = members.remove(i);
                    assert(members_of(members@) =~= before.remove(i as int));
                    let r = with_member(members, i, add_key(keys, key), name);
                    assert(before.remove(i as int).insert(
                        i as int,
                        (name@, keys_with(keys.deep_view(), key@)),
                    ) =~= before.update(i as int, (name@, keys_with(keys.deep_view(), key@))));
                    r
                },
                None => object(members),
            }
        },
        other => other,
    }
}

/// The configuration of the host with one more authorized key of its user.
pub fn add_host_key(config: Json, key: &str) -> (r: Json)
    ensures
        r.deep_view() == config_with(config.deep_view(), key@),
{
    match config {
        Json::Object(members) => {
            let mut members = members;
            let ghost before = members_of(members@);
            assert(tree_of(config)->Object_0 =~= before);
            match position(&members, "user") {
                Some(i) => {
                    let (name, user) = members.remove(i);
                    assert(members_of(members@) =~= before.remove(i as int));
                    let r = with_member(members, i, add_user_key(user, key), name);
                    assert(before.remove(i as int).insert(
                        i as int,
                        (name@, user_with(user.deep_view(), key@)),
                    ) =~= before.update(i as int, (name@, user_with(user.deep_view(), key@))));
                    r
                },
                None => object(members),
            }
        },
        other => other,
    }
}

/// A key that was added is not added again.
pub proof fn law_host_key_added_once(config: Tree, key: Seq<char>)
    ensures
        config_with(config_with(config, key), key) == config_with(config, key),
{
    if let Tree::Object(members) = config {
        lemma_member_at(members, "user"@, 0);
        if let Some(i) = member_at(members, "user"@, 0) {
            let user = members[i].1;
            lemma_user_key_once(user, key);
            let after = members.update(i, (members[i].0, user_with(user, key)));
            lemma_member_at_update(members, "user"@, 0, i, user_with(user, key));
            assert(after.update(i, (after[i].0, user_with(after[i].1, key))) =~= after);
        }
    }
}

proof fn lemma_user_key_once(user: Tree, key: Seq<char>)
    ensures
        user_with(user_with(user, key), key) == user_with(user, key),
{
    if let Tree::Object(members) = user {
        lemma_member_at(members, "authorizedKeys"@, 0);
        if let Some(i) = member_at(members, "authorizedKeys"@, 0) {
            let keys = members[i].1;
            let after = members.update(i, (members[i].0, keys_with(keys, key)));
            lemma_member_at_update(members, "authorizedKeys"@, 0, i, keys_with(keys, key));
            if let Tree::List(items) = keys {
                let more = items.push(Tree::Text(key));
                assert(more[items.len() as int] == Tree::Text(key));
                assert(more.contains(Tree::Text(key)));
            }
            assert(keys_with(keys_with(keys, key), key) == keys_with(keys, key));
            assert(after.update(i, (after[i].0, keys_with(after[i].1, key))) =~= after);
        }
    }
}

proof fn lemma_member_at(members: Seq<(Seq<char>, Tree)>, name: Seq<char>, from: int)
    requires
        0 <= from,
    ensures
        member_at(members, name, from) matches Some(i) ==> from <= i < members.len(),
    decreases members.len() - from,
{
    if from < members.len() && members[from].0 != name {
        lemma_member_at(members, name, from + 1);
    }
}

proof fn lemma_member_at_update(
    members: Seq<(Seq<char>, Tree)>,
    name: Seq<char>,
    from: int,
    i: int,
    value: Tree,
)
    requires
        0 <= from,
        0 <= i < members.len(),
    ensures
        member_at(members.update(i, (members[i].0, value)), name, from) == member_at(
            members,
            name,
            from,
        ),
    decreases members.len() - from,
{
    if from < members.len() {
        lemma_member_at_update(members, name, from + 1, i, value);
    }
}

/// The user that the configuration of the host names.
pub open spec fn host_user(config: Tree) -> Option<Seq<char>> {
    as_text(under(under(config, "user"@), "name"@))
}

/// The user that a configuration of the host names.
pub fn config_user(config: &Json) -> (r: Option<String>)
    ensures
        r.deep_view() == host_user(config.deep_view()),
{
    match get(config, "user") {
        Some(user) => text_under(user, "name"),
        None => None,
    }
}

/// The user that the text of the configuration of the host names.
pub fn read_host_config_user(text: &str) -> (r: Option<String>)
    ensures
        r.deep_view() == (match json_read(text@) {
            Ok(config) => host_user(config),
            Err(_) => None,
        }),
{
    match parse(text) {
        Ok(config) => config_user(&config),
        Err(_) => None,
    }
}

/// The Nix expression of the configuration of the host, with the public key of
/// the host among the keys of its user.
pub open spec fn host_nix(config: Tree, pubkey: Option<Seq<char>>) -> Seq<char> {
    nix_of(
        match pubkey {
            Some(k) => config_with(config, trimmed(k)),
            None => config,
        },
    )
}

/// The Nix expression of the configuration of the host.
pub fn host_config_nix(config: Json, pubkey: Option<&str>) -> (r: String)
    ensures
        r@ == host_nix(config.deep_view(), pubkey.deep_view()),
{
    match pubkey {
        Some(k) => json_to_nix(&add_host_key(config, &trim(k))),
        None => json_to_nix(&config),
    }
}

// The flake

/// What a flake is made from.
pub struct FlakeParts {
    pub name: String,
    pub ip: String,
    pub repo: String,
    /// There is a configuration of the server.
    pub has_server: bool,
    /// There is a configuration of the repository.
    pub has_repo: bool,
}

pub const FLAKE_HEAD: &'static str = r#"{
  inputs = {
    nixpkgs.url = "github:NixOS/nixpkgs/nixpkgs-unstable";
    cella.url = "github:ixxie/cella";
    microvm = {
      url = "github:microvm-nix/microvm.nix";
      inputs.nixpkgs.follows = "nixpkgs";
    };
"#;

pub const FLAKE_OUTPUTS: &'static str = r#"  };

  outputs = { nixpkgs, cella, microvm, ... } @ inputs:
    cella.lib.mkCell { inherit cella nixpkgs microvm; } {
      name = ""#;

pub const FLAKE_IP: &'static str = "\";\n      ip = \"";

pub const FLAKE_DIR: &'static str = "\";\n      cellDir = \"";

pub const FLAKE_REPO: &'static str = "\";\n      repo = \"";

pub const FLAKE_HOST: &'static str = "\";\n      hostConfig = ";

pub const FLAKE_END: &'static str = "\n    };\n}\n";

/// The inputs of a flake besides those that every flake has.
pub open spec fn extra_inputs(parts: FlakeParts) -> Seq<char> {
    (if parts.has_server {
        "    serverConfig.url = \"path:/var/lib/cella/vm-config\";\n"@
    } else {
        Seq::<char>::empty()
    }) + (if parts.has_repo {
        "    repoConfig.url = \"path:"@ + joined_path(
            joined_path(dir_of(parts.name@), "repo"@),
            ".cella"@,
        ) + "\";\n"@
    } else {
        Seq::<char>::empty()
    })
}

/// The line with the modules of a flake.
pub open spec fn modules_line(parts: FlakeParts) -> Seq<char> {
    if parts.has_server && parts.has_repo {
        "      modules = [ inputs.serverConfig.nixosModule inputs.repoConfig.nixosModule ];"@
    } else if parts.has_server {
        "      modules = [ inputs.serverConfig.nixosModule ];"@
    } else if parts.has_repo {
        "      modules = [ inputs.repoConfig.nixosModule ];"@
    } else {
        Seq::<char>::empty()
    }
}

/// The flake of a cell; `host` is the Nix expression of the configuration of
/// the host.
pub open spec fn flake_of(parts: FlakeParts, host: Seq<char>) -> Seq<char> {
    FLAKE_HEAD@ + extra_inputs(parts) + FLAKE_OUTPUTS@ + parts.name@ + FLAKE_IP@ + parts.ip@
        + FLAKE_DIR@ + dir_of(parts.name@) + FLAKE_REPO@ + parts.repo@ + FLAKE_HOST@ + host
        + ";\n"@ + modules_line(parts) + FLAKE_END@
}

/// The flake of a cell; `host` is the Nix expression of the configuration of
/// the host.
pub fn flake_text(parts: &FlakeParts, host: &str) -> (r: String)
    ensures
        r@ == flake_of(*parts, host@),
{
    let mut extra = String::new();
    if parts.has_server {
        extra.append("    serverConfig.url = \"path:/var/lib/cella/vm-config\";\n");
    }
    if parts.has_repo {
        let mut line = "    repoConfig.url = \"path:".to_string();
        line.append(&join(&cell_repo_dir(&parts.name), ".cella"));
        line.append("\";\n");
        extra.append(&line);
    }
    assert(extra@ == extra_inputs(*parts));
    let mut r = FLAKE_HEAD.to_string();
    r.append(&extra);
    r.append(FLAKE_OUTPUTS);
    r.append(&parts.name);
    r.append(FLAKE_IP);
    r.append(&parts.ip);
    r.append(FLAKE_DIR);
    r.append(&cell_dir(&parts.name));
    r.append(FLAKE_REPO);
    r.append(&parts.repo);
    r.append(FLAKE_HOST);
    r.append(host);
    r.append(";\n");
    if parts.has_server && parts.has_repo {
        r.append(
            "      modules = [ inputs.serverConfig.nixosModule inputs.repoConfig.nixosModule ];",
        );
    } else if parts.has_server {
        r.append("      modules = [ inputs.serverConfig.nixosModule ];");
    } else if parts.has_repo {
        r.append("      modules = [ inputs.repoConfig.nixosModule ];");
    } else {
        assert(r@ + modules_line(*parts) == r@);
    }
    r.append(FLAKE_END);
    r
}

/// The configuration of the host cannot be read.
pub struct FlakeError {
    pub cause: String,
}

impl FlakeError {
    /// The error in words.
    pub fn message(&self) -> (r: String)
        ensures
            r@ == "parsing host-config.json"@,
    {
        "parsing host-config.json".to_string()
    }
}

/// The flake of a cell, from the text of the configuration of the host and the
/// public key of the host, where there are such.
pub fn generate_flake(
    parts: &FlakeParts,
    host_config: Option<&str>,
    pubkey: Option<&str>,
) -> (r: Result<String, FlakeError>)
    ensures
        match host_config {
            None => r matches Ok(t) && t@ == flake_of(*parts, "{}"@),
            Some(text) => match json_read(text@) {
                Ok(config) => r matches Ok(t) && t@ == flake_of(
                    *parts,
                    host_nix(config, pubkey.deep_view()),
                ),
                Err(m) => r matches Err(e) && e.cause@ == m,
            },
        },
{
    match host_config {
        None => Ok(flake_text(parts, "{}")),
        Some(text) => match parse(text) {
            Ok(config) => Ok(flake_text(parts, &host_config_nix(config, pubkey))),
            Err(cause) => Err(FlakeError { cause }),
        },
    }
}

/// A JSON value keeps its shape in Nix: a text becomes a string, a list the
/// list of its items, and an object the set of its members, each under its own
/// name and in its order.
pub proof fn law_nix_keeps_shape(
    whole: Option<u64>,
    text: Seq<char>,
    items: Seq<Tree>,
    members: Seq<(Seq<char>, Tree)>,
)
    ensures
        nix_of(Tree::Null) == "null"@,
        nix_of(Tree::Bool(true)) == "true"@,
        nix_of(Tree::Bool(false)) == "false"@,
        nix_of(Tree::Number { whole, text }) == text,
        nix_of(Tree::Text(text)) == nix_text(text),
        nix_of(Tree::List(items)) == "[ "@ + joined(items.map_values(|t: Tree| nix_of(t)), " "@)
            + " ]"@,
        nix_of(Tree::Object(members)) == "{ "@ + joined(
            members.map_values(|m: (Seq<char>, Tree)| m.0 + " = "@ + nix_of(m.1) + ";"@),
            " "@,
        ) + " }"@,
{
    assert(nix_parts(Tree::List(items)) =~= items.map_values(|t: Tree| nix_of(t)));
    assert(nix_parts(Tree::Object(members)) =~= members.map_values(
        |m: (Seq<char>, Tree)| m.0 + " = "@ + nix_of(m.1) + ";"@,
    ));
}

proof fn lemma_first_member(members: Seq<(Seq<char>, Tree)>, name: Seq<char>, from: int)
    requires
        0 <= from <= members.len(),
        forall|k: int| 0 <= k < from ==> (#[trigger] members[k]).0 != name,
    ensures
        match member_at(members, name, from) {
            Some(i) => 0 <= i < members.len() && members[i].0 == name && under(
                Tree::Object(members),
                name,
            ) == members[i].1,
            None => under(Tree::Object(members), name) == Tree::Null,
        },
    decreases members.len() - from,
{
    if from == members.len() {
        lemma_member_missing(members, name);
    } else if members[from].0 == name {
        lemma_member_found(members, from);
    } else {
        lemma_first_member(members, name, from + 1);
    }
}

proof fn lemma_updated_member(
    members: Seq<(Seq<char>, Tree)>,
    name: Seq<char>,
    value: Tree,
    other: Seq<char>,
)
    requires
        member_at(members, name, 0) is Some,
    ensures
        ({
            let i = member_at(members, name, 0)->0;
            let after = Tree::Object(members.update(i, (members[i].0, value)));
            &&& under(after, name) == value
            &&& other != name ==> under(after, other) == under(Tree::Object(members), other)
        }),
{
    lemma_first_member(members, name, 0);
    let i = member_at(members, name, 0)->0;
    let after = members.update(i, (members[i].0, value));
    lemma_member_at_update(members, name, 0, i, value);
    lemma_first_member(after, name, 0);
    lemma_member_at_update(members, other, 0, i, value);
    lemma_first_member(members, other, 0);
    lemma_first_member(after, other, 0);
}

/// Where the configuration of the host lists keys of its user, the public key
/// of the host is among them in the flake and no key is lost; whatever else
/// the configuration says stays as it is.
pub proof fn law_host_key_among_keys(
    config: Tree,
    key: Seq<char>,
    keys: Seq<Tree>,
    other: Seq<char>,
)
    requires
        under(under(config, "user"@), "authorizedKeys"@) == Tree::List(keys),
    ensures
        ({
            let after = under(under(config_with(config, key), "user"@), "authorizedKeys"@);
            &&& after is List
            &&& after->List_0.contains(Tree::Text(key))
            &&& keys.is_prefix_of(after->List_0)
            &&& after->List_0.len() <= keys.len() + 1
        }),
        other != "user"@ ==> under(config_with(config, key), other) == under(config, other),
        other != "authorizedKeys"@ ==> under(under(config_with(config, key), "user"@), other)
            == under(under(config, "user"@), other),
{
    let members = config->Object_0;
    lemma_first_member(members, "user"@, 0);
    let user = under(config, "user"@);
    let inner = user->Object_0;
    lemma_first_member(inner, "authorizedKeys"@, 0);
    lemma_updated_member(members, "user"@, user_with(user, key), other);
    let more = keys_with(Tree::List(keys), key);
    lemma_updated_member(inner, "authorizedKeys"@, more, other);
    if keys.contains(Tree::Text(key)) {
        assert(keys.subrange(0, keys.len() as int) == keys);
    } else {
        let pushed = keys.push(Tree::Text(key));
        assert(pushed[keys.len() as int] == Tree::Text(key));
        assert(pushed.subrange(0, keys.len() as int) == keys);
    }
}

/// A configuration that does not list keys of its user stays as it is.
pub proof fn law_config_without_keys_stays(config: Tree, key: Seq<char>)
    requires
        !(under(under(config, "user"@), "authorizedKeys"@) is List),
    ensures
        config_with(config, key) == config,
        host_nix(config, Some(key)) == nix_of(config),
        host_nix(config, None) == nix_of(config),
{
    let k = trimmed(key);
    lemma_without_keys(config, key);
    lemma_without_keys(config, k);
}

proof fn lemma_without_keys(config: Tree, key: Seq<char>)
    requires
        !(under(under(config, "user"@), "authorizedKeys"@) is List),
    ensures
        config_with(config, key) == config,
{
    if let Tree::Object(members) = config {
        lemma_first_member(members, "user"@, 0);
        if let Some(i) = member_at(members, "user"@, 0) {
            if let Tree::Object(inner) = members[i].1 {
                lemma_first_member(inner, "authorizedKeys"@, 0);
                if let Some(j) = member_at(inner, "authorizedKeys"@, 0) {
                    assert(inner.update(j, (inner[j].0, inner[j].1)) =~= inner);
                }
            }
            assert(members.update(i, (members[i].0, members[i].1)) =~= members);
        }
    }
}

/// The key that is added is the one that the file holds, without white space
/// around it; the user of the host is the one under `user` and `name`.
pub proof fn law_host_config_said(config: Tree, pubkey: Seq<char>, name: Seq<char>)
    ensures
        host_nix(config, Some(pubkey)) == nix_of(config_with(config, trimmed(pubkey))),
        under(under(config, "user"@), "name"@) == Tree::Text(name) ==> host_user(config) == Some(
            name,
        ),
        !(under(under(config, "user"@), "name"@) is Text) ==> host_user(config) is None,
{
}

proof fn lemma_flake_words()
    ensures
        "name = \""@.is_suffix_of(FLAKE_OUTPUTS@),
        "ip = \""@.is_suffix_of(FLAKE_IP@),
        "cellDir = \""@.is_suffix_of(FLAKE_DIR@),
        "repo = \""@.is_suffix_of(FLAKE_REPO@),
        "hostConfig = "@.is_suffix_of(FLAKE_HOST@),
        "\";\n"@.is_prefix_of(FLAKE_IP@),
        "\";\n"@.is_prefix_of(FLAKE_DIR@),
        "\";\n"@.is_prefix_of(FLAKE_REPO@),
        "\";\n"@.is_prefix_of(FLAKE_HOST@),
{
    reveal_strlit("name = \"");
    reveal_strlit("ip = \"");
    reveal_strlit("cellDir = \"");
    reveal_strlit("repo = \"");
    reveal_strlit("hostConfig = ");
    reveal_strlit("\";\n");
    reveal_strlit("\";\n      ip = \"");
    reveal_strlit("\";\n      cellDir = \"");
    reveal_strlit("\";\n      repo = \"");
    reveal_strlit("\";\n      hostConfig = ");
    reveal_strlit(r#"  };

  outputs = { nixpkgs, cella, microvm, ... } @ inputs:
    cella.lib.mkCell { inherit cella nixpkgs microvm; } {
      name = ""#);
    lemma_ends(FLAKE_OUTPUTS@, "name = \""@);
    lemma_ends(FLAKE_IP@, "ip = \""@);
    lemma_ends(FLAKE_DIR@, "cellDir = \""@);
    lemma_ends(FLAKE_REPO@, "repo = \""@);
    lemma_ends(FLAKE_HOST@, "hostConfig = "@);
    lemma_begins(FLAKE_IP@, "\";\n"@);
    lemma_begins(FLAKE_DIR@, "\";\n"@);
    lemma_begins(FLAKE_REPO@, "\";\n"@);
    lemma_begins(FLAKE_HOST@, "\";\n"@);
}

/// A flake is for its own cell: it says its name, its address, its directory,
/// its repository and the configuration of the host, each in its place.
pub proof fn law_flake_says(parts: FlakeParts, host: Seq<char>)
    ensures
        ({
            let flake = flake_of(parts, host);
            &&& occurs(flake, "name = \""@ + parts.name@ + "\";\n"@)
            &&& occurs(flake, "ip = \""@ + parts.ip@ + "\";\n"@)
            &&& occurs(flake, "cellDir = \""@ + dir_of(parts.name@) + "\";\n"@)
            &&& occurs(flake, "repo = \""@ + parts.repo@ + "\";\n"@)
            &&& occurs(flake, "hostConfig = "@ + host + ";\n"@)
        }),
{
    lemma_flake_words();
    let end = "\";\n"@;
    let d = dir_of(parts.name@);
    let s0 = FLAKE_HEAD@ + extra_inputs(parts);
    let s1 = s0 + FLAKE_OUTPUTS@ + parts.name@;
    let s2 = s1 + FLAKE_IP@ + parts.ip@;
    let s3 = s2 + FLAKE_DIR@ + d;
    let s4 = s3 + FLAKE_REPO@ + parts.repo@;
    let s5 = s4 + FLAKE_HOST@ + host;
    let n = "name = \""@ + parts.name@ + end;
    lemma_field(s0, FLAKE_OUTPUTS@, parts.name@, FLAKE_IP@, "name = \""@, end);
    lemma_occurs_longer(s1 + FLAKE_IP@, parts.ip@, n);
    lemma_flake_longer(s2, parts, host, n);
    let a = "ip = \""@ + parts.ip@ + end;
    lemma_field(s1, FLAKE_IP@, parts.ip@, FLAKE_DIR@, "ip = \""@, end);
    lemma_occurs_longer(s2 + FLAKE_DIR@, d, a);
    lemma_occurs_longer(s3, FLAKE_REPO@, a);
    lemma_occurs_longer(s3 + FLAKE_REPO@, parts.repo@, a);
    lemma_occurs_longer(s4, FLAKE_HOST@, a);
    lemma_occurs_longer(s4 + FLAKE_HOST@, host, a);
    lemma_flake_end(s5, parts, a);
    let c = "cellDir = \""@ + d + end;
    lemma_field(s2, FLAKE_DIR@, d, FLAKE_REPO@, "cellDir = \""@, end);
    lemma_occurs_longer(s3 + FLAKE_REPO@, parts.repo@, c);
    lemma_occurs_longer(s4, FLAKE_HOST@, c);
    lemma_occurs_longer(s4 + FLAKE_HOST@, host, c);
    lemma_flake_end(s5, parts, c);
    let r = "repo = \""@ + parts.repo@ + end;
    lemma_field(s3, FLAKE_REPO@, parts.repo@, FLAKE_HOST@, "repo = \""@, end);
    lemma_occurs_longer(s4 + FLAKE_HOST@, host, r);
    lemma_flake_end(s5, parts, r);
    let e = "hostConfig = "@ + host + ";\n"@;
    let semi = ";\n"@;
    assert(semi.subrange(0, semi.len() as int) == semi);
    lemma_field(s4, FLAKE_HOST@, host, semi, "hostConfig = "@, semi);
    lemma_occurs_longer(s5 + semi, modules_line(parts), e);
    lemma_occurs_longer(s5 + semi + modules_line(parts), FLAKE_END@, e);
}

proof fn lemma_flake_end(s: Seq<char>, parts: FlakeParts, p: Seq<char>)
    requires
        occurs(s, p),
    ensures
        occurs(s + ";\n"@ + modules_line(parts) + FLAKE_END@, p),
{
    lemma_occurs_longer(s, ";\n"@, p);
    lemma_occurs_longer(s + ";\n"@, modules_line(parts), p);
    lemma_occurs_longer(s + ";\n"@ + modules_line(parts), FLAKE_END@, p);
}

proof fn lemma_flake_longer(s: Seq<char>, parts: FlakeParts, host: Seq<char>, p: Seq<char>)
    requires
        occurs(s, p),
    ensures
        occurs(
            s + FLAKE_DIR@ + dir_of(parts.name@) + FLAKE_REPO@ + parts.repo@ + FLAKE_HOST@ + host
                + ";\n"@ + modules_line(parts) + FLAKE_END@,
            p,
        ),
{
    let d = dir_of(parts.name@);
    lemma_occurs_longer(s, FLAKE_DIR@, p);
    lemma_occurs_longer(s + FLAKE_DIR@, d, p);
    let t = s + FLAKE_DIR@ + d;
    lemma_occurs_longer(t, FLAKE_REPO@, p);
    lemma_occurs_longer(t + FLAKE_REPO@, parts.repo@, p);
    let u = t + FLAKE_REPO@ + parts.repo@;
    lemma_occurs_longer(u, FLAKE_HOST@, p);
    lemma_occurs_longer(u + FLAKE_HOST@, host, p);
    lemma_flake_end(u + FLAKE_HOST@ + host, parts, p);
}

/// A configuration that is there is both an input of the flake and one of its
/// modules, that of the server before that of the repository; one that is not
/// is neither.
pub proof fn law_flake_has_modules(parts: FlakeParts)
    ensures
        ({
            let server = "    serverConfig.url = \"path:/var/lib/cella/vm-config\";\n"@;
            let repo = "    repoConfig.url = \"path:"@ + joined_path(
                joined_path(dir_of(parts.name@), "repo"@),
                ".cella"@,
            ) + "\";\n"@;
            let inputs = extra_inputs(parts);
            &&& parts.has_server && parts.has_repo ==> inputs == server + repo && modules_line(
                parts,
            )
                == "      modules = [ inputs.serverConfig.nixosModule inputs.repoConfig.nixosModule ];"@
            &&& parts.has_server && !parts.has_repo ==> inputs == server && modules_line(parts)
                == "      modules = [ inputs.serverConfig.nixosModule ];"@
            &&& !parts.has_server && parts.has_repo ==> inputs == repo && modules_line(parts)
                == "      modules = [ inputs.repoConfig.nixosModule ];"@
            &&& !parts.has_server && !parts.has_repo ==> inputs.len() == 0 && modules_line(
                parts,
            ).len() == 0
        }),
{
}

} // verus!
