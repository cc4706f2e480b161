//! Secrets: encrypted in the repository, decrypted for its cells.

use crate::cella::config::CellaConfig;
use crate::command::{arg, command};
use crate::flow::state::{FileStep, FileStepView};
use crate::path::{join, joined_path};
use vstd::prelude::*;

verus! {

/// The file with the encrypted secrets.
pub fn secrets_age_path(repo_root: &str) -> (r: String)
    ensures
        r@ == joined_path(repo_root@, ".cella/secrets.age"@),
{
    join(repo_root, ".cella/secrets.age")
}

/// The file with the secrets while they are edited.
pub fn secrets_env_path(repo_root: &str) -> (r: String)
    ensures
        r@ == joined_path(repo_root@, ".cella/secrets.env"@),
{
    join(repo_root, ".cella/secrets.env")
}

/// Where the secrets of the cells go.
pub const SECRETS_ENV: &'static str = "/var/lib/cella/secrets.env";

/// Why something cannot be done with secrets.
pub enum SecretsError {
    NoSshKeys,
    NoKeyMatched,
    CommandFailed(String),
    NoKeys,
    NoEnvFile,
    EncryptionFailed(String),
    NoRecipient,
}

impl SecretsError {
    /// The error in words.
    pub open spec fn words(self) -> Seq<char> {
        match self {
            SecretsError::NoSshKeys => "no SSH keys found for decryption"@,
            SecretsError::NoKeyMatched => "age decryption failed — no key matched any recipient"@,
            SecretsError::CommandFailed(e) => "secrets command failed: "@ + e@,
            SecretsError::NoKeys =>
                "no keys configured — add secrets.keys in .cella/config.toml"@,
            SecretsError::NoEnvFile => ".cella/secrets.env not found — create it first"@,
            SecretsError::EncryptionFailed(e) => "age encryption failed: "@ + e@,
            SecretsError::NoRecipient =>
                "no recipient — pass -r or set secrets.recipient in config"@,
        }
    }

    /// The error in words.
    pub fn message(&self) -> (r: String)
        ensures
            r@ == self.words(),
    {
        match self {
            SecretsError::NoSshKeys => "no SSH keys found for decryption".to_string(),
            SecretsError::NoKeyMatched =>
                "age decryption failed — no key matched any recipient".to_string(),
            SecretsError::CommandFailed(e) => {
                let mut r = "secrets command failed: ".to_string();
                r.append(e);
                r
            },
            SecretsError::NoKeys =>
                "no keys configured — add secrets.keys in .cella/config.toml".to_string(),
            SecretsError::NoEnvFile => ".cella/secrets.env not found — create it first".to_string(),
            SecretsError::EncryptionFailed(e) => {
                let mut r = "age encryption failed: ".to_string();
                r.append(e);
                r
            },
            SecretsError::NoRecipient =>
                "no recipient — pass -r or set secrets.recipient in config".to_string(),
        }
    }
}

/// The keys that secrets may be decrypted with, each only where it is there:
/// those of the user, and that of the server.
pub fn ssh_key_paths(home: Option<&str>) -> (r: Vec<String>)
    ensures
        ({
            let h = match home {
                Some(d) => d@,
                None => "/root"@,
            };
            r.deep_view() == seq![
                joined_path(h, ".ssh/id_ed25519"@),
                joined_path(h, ".ssh/id_rsa"@),
                "/var/lib/cella/ssh/id_ed25519"@,
            ]
        }),
{
    let h = match home {
        Some(d) => d.to_string(),
        None => "/root".to_string(),
    };
    let r = vec![
        join(&h, ".ssh/id_ed25519"),
        join(&h, ".ssh/id_rsa"),
        "/var/lib/cella/ssh/id_ed25519".to_string(),
    ];
    assert(r.deep_view() =~= seq![
        joined_path(h@, ".ssh/id_ed25519"@),
        joined_path(h@, ".ssh/id_rsa"@),
        "/var/lib/cella/ssh/id_ed25519"@,
    ]);
    r
}

/// The command that decrypts a file with a key.
pub open spec fn decrypt_line(age_file: Seq<char>, key: Seq<char>) -> Seq<Seq<char>> {
    seq!["age"@, "-d"@, "-i"@, key, age_file]
}

/// The commands that decrypt a file, to be tried one after the other until one
/// goes well. There must be a key.
pub fn decrypt(age_file: &str, keys: &Vec<String>) -> (r: Result<Vec<Vec<String>>, SecretsError>)
    ensures
        if keys.len() == 0 {
            r == Err::<Vec<Vec<String>>, SecretsError>(SecretsError::NoSshKeys)
        } else {
            r matches Ok(l) && l.deep_view() == keys.deep_view().map_values(
                |k: Seq<char>| decrypt_line(age_file@, k),
            )
        },
{
    if keys.len() == 0 {
        return Err(SecretsError::NoSshKeys);
    }
    let mut r: Vec<Vec<String>> = Vec::new();
    let mut i: usize = 0;
    while i < keys.len()
        invariant
            i <= keys.len(),
            r.len() == i,
            forall|j: int|
                0 <= j < i ==> #[trigger] r.deep_view()[j] == decrypt_line(age_file@, keys[j]@),
        decreases keys.len() - i,
    {
        let mut line = command("age");
        arg(&mut line, "-d");
        arg(&mut line, "-i");
        arg(&mut line, &keys[i]);
        arg(&mut line, age_file);
        let ghost before = r.deep_view();
        assert(line.deep_view() == decrypt_line(age_file@, keys[i as int]@));
        r.push(line);
        assert(r.deep_view() == before.push(line.deep_view()));
        i += 1;
    }
    Ok(r)
}

/// Where the secrets of a cell come from.
pub enum SecretsSource {
    /// From what this command prints.
    Command(Vec<String>),
    /// From this file, decrypted.
    Age(String),
    /// From nowhere.
    Nowhere,
}

/// Where the secrets of a cell come from: from the command of the repository,
/// or else from its encrypted file where it is there.
pub fn resolve(repo_root: &str, config: &CellaConfig, age_exists: bool) -> (r: SecretsSource)
    ensures
        match config.secrets.command {
            Some(cmd) => r matches SecretsSource::Command(l) && l.deep_view() == seq![
                "sh"@,
                "-c"@,
                cmd@,
            ],
            None => if age_exists {
                r matches SecretsSource::Age(f) && f@ == joined_path(
                    repo_root@,
                    ".cella/secrets.age"@,
                )
            } else {
                r is Nowhere
            },
        },
{
    match &config.secrets.command {
        Some(cmd) => {
            let mut l = command("sh");
            arg(&mut l, "-c");
            arg(&mut l, cmd);
            SecretsSource::Command(l)
        },
        None => if age_exists {
            SecretsSource::Age(secrets_age_path(repo_root))
        } else {
            SecretsSource::Nowhere
        },
    }
}

/// How the secrets are kept for the cells; the file is for its owner alone.
pub fn keep_secrets(content: &str) -> (r: FileStep)
    ensures
        r.deep_view() == (FileStepView::Write { path: SECRETS_ENV@, text: content@ }),
{
    FileStep::Write { path: SECRETS_ENV.to_string(), text: content.to_string() }
}

/// The arguments that name the keys.
pub open spec fn recipients(keys: Seq<Seq<char>>) -> Seq<Seq<char>>
    decreases keys.len(),
{
    if keys.len() == 0 {
        Seq::<Seq<char>>::empty()
    } else {
        recipients(keys.drop_last()).push("-r"@).push(keys.last())
    }
}

/// The command that encrypts the secrets of a repository for all keys.
pub open spec fn encrypt_line(repo_root: Seq<char>, keys: Seq<Seq<char>>) -> Seq<Seq<char>> {
    seq!["age"@] + recipients(keys) + seq![
        "-o"@,
        joined_path(repo_root, ".cella/secrets.age"@),
        joined_path(repo_root, ".cella/secrets.env"@),
    ]
}

/// The command that encrypts the secrets of a repository for all keys. There
/// must be a key, and the file with the secrets.
pub fn encrypt(repo_root: &str, keys: &Vec<String>, env_exists: bool) -> (r: Result<
    Vec<String>,
    SecretsError,
>)
    ensures
        if keys.len() == 0 {
            r == Err::<Vec<String>, SecretsError>(SecretsError::NoKeys)
        } else if !env_exists {
            r == Err::<Vec<String>, SecretsError>(SecretsError::NoEnvFile)
        } else {
            r matches Ok(l) && l.deep_view() == encrypt_line(repo_root@, keys.deep_view())
        },
{
    if keys.len() == 0 {
        return Err(SecretsError::NoKeys);
    }
    if !env_exists {
        return Err(SecretsError::NoEnvFile);
    }
    let ghost all = keys.deep_view();
    let mut l = command("age");
    let mut i: usize = 0;
    assert(l.deep_view() == seq!["age"@] + recipients(all.take(0)));
    while i < keys.len()
        invariant
            i <= keys.len(),
            all == keys.deep_view(),
            l.deep_view() == seq!["age"@] + recipients(all.take(i as int)),
        decreases keys.len() - i,
    {
        assert(all.take(i + 1).drop_last() == all.take(i as int));
        assert(all.take(i + 1).last() == keys[i as int]@);
        arg(&mut l, "-r");
        arg(&mut l, &keys[i]);
        i += 1;
        assert(l.deep_view() == seq!["age"@] + recipients(all.take(i as int)));
    }
    assert(all.take(all.len() as int) == all);
    arg(&mut l, "-o");
    arg(&mut l, &secrets_age_path(repo_root));
    arg(&mut l, &secrets_env_path(repo_root));
    assert(l.deep_view() =~= encrypt_line(repo_root@, all));
    Ok(l)
}

/// What is said when secrets were encrypted.
pub fn encrypted_message(repo_root: &str) -> (r: String)
    ensures
        r@ == "encrypted → "@ + joined_path(repo_root@, ".cella/secrets.age"@),
{
    let mut r = "encrypted → ".to_string();
    r.append(&secrets_age_path(repo_root));
    r
}

/// What is done to edit secrets, in this order. After the editor they are
/// encrypted, and then the file with them is removed.
pub struct EditPlan {
    pub prepare: Vec<FileStep>,
    pub editor: Vec<String>,
    pub remove: FileStep,
}

/// What is done to edit secrets that are `content` now. There must be a key.
pub fn edit(
    repo_root: &str,
    keys: &Vec<String>,
    content: &str,
    editor: Option<&str>,
) -> (r: Result<EditPlan, SecretsError>)
    ensures
        if keys.len() == 0 {
            r == Err::<EditPlan, SecretsError>(SecretsError::NoKeys)
        } else {
            r matches Ok(p) && {
                let env = joined_path(repo_root@, ".cella/secrets.env"@);
                &&& p.prepare.deep_view() == seq![
                    FileStepView::MakeDir(joined_path(repo_root@, ".cella"@)),
                    FileStepView::Write { path: env, text: content@ },
                ]
                &&& p.editor.deep_view() == seq![
                    match editor {
                        Some(e) => e@,
                        None => "vi"@,
                    },
                    env,
                ]
                &&& p.remove.deep_view() == FileStepView::Remove(env)
            }
        },
{
    if keys.len() == 0 {
        return Err(SecretsError::NoKeys);
    }
    let env = secrets_env_path(repo_root);
    let prepare = vec![
        FileStep::MakeDir(join(repo_root, ".cella")),
        FileStep::Write { path: env.clone(), text: content.to_string() },
    ];
    assert(prepare.deep_view() =~= seq![
        FileStepView::MakeDir(joined_path(repo_root@, ".cella"@)),
        FileStepView::Write { path: env@, text: content@ },
    ]);
    let mut line = match editor {
        Some(e) => command(e),
        None => command("vi"),
    };
    arg(&mut line, &env);
    Ok(EditPlan { prepare, editor: line, remove: FileStep::Remove(env) })
}

/// Whom secrets are encrypted for: the one given, or else the one of the
/// repository.
pub fn recipient(given: Option<&str>, config: &CellaConfig) -> (r: Result<String, SecretsError>)
    ensures
        match given {
            Some(g) => r matches Ok(k) && k@ == g@,
            None => match config.secrets.recipient {
                Some(c) => r matches Ok(k) && k@ == c@,
                None => r == Err::<String, SecretsError>(SecretsError::NoRecipient),
            },
        },
{
    match given {
        Some(g) => Ok(g.to_string()),
        None => match &config.secrets.recipient {
            Some(c) => Ok(c.clone()),
            None => Err(SecretsError::NoRecipient),
        },
    }
}

/// Secrets are encrypted for every key, each named once and in its order; what
/// is read is the file that is edited, and what is written the encrypted one.
pub proof fn law_encrypted_for_every_key(repo_root: Seq<char>, keys: Seq<Seq<char>>, i: int)
    requires
        0 <= i < keys.len(),
    ensures
        ({
            let line = encrypt_line(repo_root, keys);
            &&& line.len() == 4 + 2 * keys.len()
            &&& line.first() == "age"@
            &&& line[1 + 2 * i] == "-r"@ && line[2 + 2 * i] == keys[i]
            &&& line[line.len() - 3] == "-o"@
            &&& line[line.len() - 2] == joined_path(repo_root, ".cella/secrets.age"@)
            &&& line.last() == joined_path(repo_root, ".cella/secrets.env"@)
        }),
{
    lemma_recipients(keys, i);
}

proof fn lemma_recipients(keys: Seq<Seq<char>>, i: int)
    requires
        0 <= i < keys.len(),
    ensures
        recipients(keys).len() == 2 * keys.len(),
        recipients(keys)[2 * i] == "-r"@,
        recipients(keys)[2 * i + 1] == keys[i],
    decreases keys.len(),
{
    let short = keys.drop_last();
    reveal_with_fuel(recipients, 2);
    if short.len() > 0 {
        lemma_recipients(
            short,
            if i < short.len() {
                i
            } else {
                0
            },
        );
    }
}

/// A file is decrypted with the key that is tried, and nothing is encrypted.
pub proof fn law_decrypted_with_key(age_file: Seq<char>, key: Seq<char>)
    ensures
        ({
            let line = decrypt_line(age_file, key);
            &&& line.first() == "age"@ && line[1] == "-d"@
            &&& line[2] == "-i"@ && line[3] == key
            &&& line.last() == age_file && line.len() == 5
        }),
{
}

/// Each reason why something cannot be done with secrets is said in words of
/// its own.
pub proof fn law_secrets_errors_said(e: String)
    ensures
        SecretsError::NoSshKeys.words() == "no SSH keys found for decryption"@,
        SecretsError::NoKeyMatched.words()
            == "age decryption failed — no key matched any recipient"@,
        SecretsError::CommandFailed(e).words() == "secrets command failed: "@ + e@,
        SecretsError::NoKeys.words()
            == "no keys configured — add secrets.keys in .cella/config.toml"@,
        SecretsError::NoEnvFile.words() == ".cella/secrets.env not found — create it first"@,
        SecretsError::EncryptionFailed(e).words() == "age encryption failed: "@ + e@,
        SecretsError::NoRecipient.words()
            == "no recipient — pass -r or set secrets.recipient in config"@,
{
}

} // verus!
