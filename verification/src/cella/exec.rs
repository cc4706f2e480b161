//! Shell-safe command construction for multi-hop SSH execution.
//!
//! Each function returns a script suitable for one specific context; the
//! transport wraps it for the hop itself.

use crate::text::basic::occurs_at;
use crate::text::split::{replace_char, replaced};
use vstd::prelude::*;

verus! {

/// `s` between single quotes, each single quote in it written as `'\''`.
pub open spec fn quoted(s: Seq<char>) -> Seq<char> {
    "'"@ + replaced(s, '\'', "'\\''"@) + "'"@
}

/// Escape a string for safe embedding in a POSIX shell command.
/// The result is always wrapped in single quotes.
pub fn shell_escape(s: &str) -> (r: String)
    ensures
        r@ == quoted(s@),
{
    let inner = replace_char(s, '\'', "'\\''");
    let mut r = "'".to_string();
    r.append(&inner);
    r.append("'");
    r
}

/// The script of a detached command.
pub open spec fn detached_script(cmd: Seq<char>, log_path: Seq<char>) -> Seq<char> {
    "mkdir -p $(dirname "@ + quoted(log_path) + ") && setsid sh -c "@ + quoted(cmd) + " > "@
        + quoted(log_path) + " 2>&1 < /dev/null &"@
}

/// Build a detached command that survives SSH disconnect.
/// Uses setsid to create a new session and sends its output to the log file.
/// Does not change directory: that is for the caller.
pub fn detached(cmd: &str, log_path: &str) -> (r: String)
    ensures
        r@ == detached_script(cmd@, log_path@),
{
    let log = shell_escape(log_path);
    let mut r = "mkdir -p $(dirname ".to_string();
    r.append(&log);
    r.append(") && setsid sh -c ");
    r.append(&shell_escape(cmd));
    r.append(" > ");
    r.append(&log);
    r.append(" 2>&1 < /dev/null &");
    r
}

/// The command line of the hop from client to server.
pub open spec fn hop_line(cell: Seq<char>, cmd: Seq<char>) -> Seq<char> {
    "cella shell --server "@ + cell + " -c "@ + quoted(cmd)
}

/// Wrap a command for the client to server SSH hop.
/// Produces: `cella shell --server <cell> -c <escaped_cmd>`
pub fn cella_hop(cell: &str, cmd: &str) -> (r: String)
    ensures
        r@ == hop_line(cell@, cmd@),
{
    let mut r = "cella shell --server ".to_string();
    r.append(cell);
    r.append(" -c ");
    r.append(&shell_escape(cmd));
    r
}

// How a POSIX shell reads quoting

/// Where a shell stands while it reads a word.
pub enum Quoting {
    /// Outside quotes.
    Bare,
    /// Between single quotes.
    Quoted,
    /// Behind a backslash outside quotes.
    Escaped,
}

/// What a shell has read.
pub struct Reading {
    pub quoting: Quoting,
    /// The characters of the word.
    pub word: Seq<char>,
    /// No character has stood outside quotes but backslashes and what they
    /// escape, so that none was read as blank, operator or expansion.
    pub literal: bool,
}

/// One character more.
pub open spec fn read_char(r: Reading, c: char) -> Reading {
    match r.quoting {
        Quoting::Bare => if c == '\'' {
            Reading { quoting: Quoting::Quoted, ..r }
        } else if c == '\\' {
            Reading { quoting: Quoting::Escaped, ..r }
        } else {
            Reading { word: r.word.push(c), literal: false, ..r }
        },
        Quoting::Quoted => if c == '\'' {
            Reading { quoting: Quoting::Bare, ..r }
        } else {
            Reading { word: r.word.push(c), ..r }
        },
        Quoting::Escaped => if c == '\n' {
            Reading { quoting: Quoting::Bare, ..r }
        } else {
            Reading { quoting: Quoting::Bare, word: r.word.push(c), ..r }
        },
    }
}

/// What a shell has read after the characters of `s`.
pub open spec fn read_word(s: Seq<char>) -> Reading
    decreases s.len(),
{
    if s.len() == 0 {
        Reading { quoting: Quoting::Bare, word: Seq::<char>::empty(), literal: true }
    } else {
        read_char(read_word(s.drop_last()), s.last())
    }
}

proof fn lemma_read_push(s: Seq<char>, c: char)
    ensures
        read_word(s.push(c)) == read_char(read_word(s), c),
{
    assert(s.push(c).drop_last() == s);
}

proof fn lemma_read_open(s: Seq<char>)
    ensures
        read_word("'"@ + replaced(s, '\'', "'\\''"@)) == (Reading {
            quoting: Quoting::Quoted,
            word: s,
            literal: true,
        }),
    decreases s.len(),
{
    reveal_strlit("'");
    reveal_strlit("'\\''");
    let q = "'"@;
    let rep = "'\\''"@;
    let none = Seq::<char>::empty();
    if s.len() == 0 {
        assert(q + replaced(s, '\'', rep) == none.push('\''));
        lemma_read_push(none, '\'');
        assert(s == none);
    } else {
        let front = s.drop_last();
        lemma_read_open(front);
        let t = q + replaced(front, '\'', rep);
        if s.last() == '\'' {
            let t1 = t.push('\'');
            let t2 = t1.push('\\');
            let t3 = t2.push('\'');
            let t4 = t3.push('\'');
            assert(q + replaced(s, '\'', rep) == t4);
            lemma_read_push(t, '\'');
            lemma_read_push(t1, '\\');
            lemma_read_push(t2, '\'');
            lemma_read_push(t3, '\'');
        } else {
            assert(q + replaced(s, '\'', rep) == t.push(s.last()));
            lemma_read_push(t, s.last());
        }
        assert(front.push(s.last()) == s);
    }
}

/// A shell reads an escaped text as one word that is the text itself, with
/// nothing in it taken for a blank, an operator or an expansion.
pub proof fn law_escape_reads_back(s: Seq<char>)
    ensures
        read_word(quoted(s)) == (Reading { quoting: Quoting::Bare, word: s, literal: true }),
{
    lemma_read_open(s);
    reveal_strlit("'");
    let t = "'"@ + replaced(s, '\'', "'\\''"@);
    assert(quoted(s) == t.push('\''));
    lemma_read_push(t, '\'');
}

/// Escaping a second time, for a second hop, and reading twice gives the text
/// back.
pub proof fn law_double_hop(s: Seq<char>)
    ensures
        read_word(read_word(quoted(quoted(s))).word).word == s,
{
    law_escape_reads_back(s);
    law_escape_reads_back(quoted(s));
}

/// Different texts have different escapes.
pub proof fn law_escape_injective(a: Seq<char>, b: Seq<char>)
    requires
        quoted(a) == quoted(b),
    ensures
        a == b,
{
    law_escape_reads_back(a);
    law_escape_reads_back(b);
}

/// A command on a cell of another server comes through whole: behind the name
/// of the cell, a shell there reads it back as one word.
pub proof fn law_hop_carries_command(cell: Seq<char>, cmd: Seq<char>)
    ensures
        ({
            let front = "cella shell --server "@ + cell + " -c "@;
            &&& front.is_prefix_of(hop_line(cell, cmd))
            &&& read_word(hop_line(cell, cmd).skip(front.len() as int)).word == cmd
        }),
{
    let front = "cella shell --server "@ + cell + " -c "@;
    let line = hop_line(cell, cmd);
    assert(line == front + quoted(cmd));
    assert(line.subrange(0, front.len() as int) == front);
    assert(line.skip(front.len() as int) == quoted(cmd));
    law_escape_reads_back(cmd);
}

/// A detached command is run by a session of its own, which outlives the
/// connection; what it prints goes to the log, whose directory is made first.
pub proof fn law_detached_command_runs(cmd: Seq<char>, log: Seq<char>)
    ensures
        ({
            let made = "mkdir -p $(dirname "@ + quoted(log) + ")"@;
            let run = "setsid sh -c "@ + quoted(cmd) + " > "@ + quoted(log);
            &&& made.is_prefix_of(detached_script(cmd, log))
            &&& exists|i: int|
                i >= made.len() && #[trigger] occurs_at(detached_script(cmd, log), run, i)
            &&& " 2>&1 < /dev/null &"@.is_suffix_of(detached_script(cmd, log))
        }),
{
    reveal_strlit(")");
    reveal_strlit(") && setsid sh -c ");
    reveal_strlit("setsid sh -c ");
    let made = "mkdir -p $(dirname "@ + quoted(log) + ")"@;
    let run = "setsid sh -c "@ + quoted(cmd) + " > "@ + quoted(log);
    let s = detached_script(cmd, log);
    let tail = " 2>&1 < /dev/null &"@;
    let front = "mkdir -p $(dirname "@ + quoted(log);
    assert(") && setsid sh -c "@ == ")"@ + seq![' ', '&', '&', ' '] + "setsid sh -c "@);
    assert(s == front + ")"@ + seq![' ', '&', '&', ' '] + run + tail);
    assert(s.subrange(0, made.len() as int) == made);
    let n = made.len() as int + 4;
    assert(s.subrange(n, n + run.len()) == run);
    assert(occurs_at(s, run, n));
    assert(s.subrange(s.len() - tail.len(), s.len() as int) == tail);
}

} // verus!
