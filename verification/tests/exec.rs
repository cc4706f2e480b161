use cella::cella::exec::{cella_hop, detached, shell_escape};

#[test]
fn escape_simple() {
    assert_eq!(shell_escape("hello"), "'hello'");
}

#[test]
fn escape_single_quotes() {
    assert_eq!(shell_escape("it's"), "'it'\\''s'");
}

#[test]
fn escape_empty() {
    assert_eq!(shell_escape(""), "''");
}

#[test]
fn escape_special_chars() {
    assert_eq!(shell_escape("a > b & c"), "'a > b & c'");
}

#[test]
fn detached_structure() {
    let s = detached("cellx flow run qa", "/tmp/cellx/flow.log");
    assert!(s.contains("setsid sh -c 'cellx flow run qa'"));
    assert!(s.contains("> '/tmp/cellx/flow.log'"));
    assert!(s.contains("< /dev/null &"));
    assert!(s.starts_with("mkdir -p"));
}

#[test]
fn detached_escapes_cmd() {
    let s = detached("echo 'hello'", "/tmp/out.log");
    assert!(s.contains("setsid sh -c 'echo '\\''hello'\\'''"));
}

#[test]
fn cella_hop_basic() {
    let s = cella_hop("my-cell", "cellx flow done");
    assert_eq!(s, "cella shell --server my-cell -c 'cellx flow done'");
}

#[test]
fn cella_hop_escapes_quotes() {
    let s = cella_hop("cell", "echo 'hi'");
    assert!(s.contains("-c 'echo '\\''hi'\\'''"));
}

#[test]
fn cella_hop_escapes_redirects() {
    let s = cella_hop("cell", "ls > /tmp/out");
    assert_eq!(s, "cella shell --server cell -c 'ls > /tmp/out'");
}

#[test]
fn double_hop_composition() {
    let user_cmd = "tail -f /tmp/cellx/flow.log 2>/dev/null || echo 'no log'";
    let server_cmd = cella_hop("feat-a", user_cmd);
    assert!(server_cmd.contains("-c '"));

    let workspace = "/cella-test";
    let script = format!("cd {} && {}", shell_escape(workspace), user_cmd);
    let ssh_arg = format!("sh -c {}", shell_escape(&script));
    assert!(ssh_arg.contains("2>/dev/null"));
    assert!(ssh_arg.contains("no log"));
}

/// What a shell makes of a word in single quotes and escaped quotes.
fn unquoted(word: &str) -> String {
    let mut out = String::new();
    let mut quoted = false;
    let mut escaped = false;
    for c in word.chars() {
        if escaped {
            out.push(c);
            escaped = false;
        } else if c == '\'' {
            quoted = !quoted;
        } else if c == '\\' && !quoted {
            escaped = true;
        } else {
            assert!(quoted);
            out.push(c);
        }
    }
    assert!(!quoted && !escaped);
    out
}

#[test]
fn escaped_word_reads_back() {
    for s in ["", "'", "''", "it's", "a\\b", "$(x) `y` \"z\"", "línea\nnueva"] {
        assert_eq!(unquoted(&shell_escape(s)), s);
        assert_eq!(unquoted(&unquoted(&shell_escape(&shell_escape(s)))), s);
    }
}

#[test]
fn escaping_keeps_words_apart() {
    assert_ne!(shell_escape("a'b"), shell_escape("a\\b"));
    assert_ne!(shell_escape("'"), shell_escape("''"));
}

#[test]
fn detached_whole_line() {
    assert_eq!(
        detached("run it", "/tmp/a b/out.log"),
        "mkdir -p $(dirname '/tmp/a b/out.log') && setsid sh -c 'run it' > '/tmp/a b/out.log' 2>&1 < /dev/null &"
    );
}
