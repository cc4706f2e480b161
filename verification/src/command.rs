//! Command lines.

use vstd::prelude::*;

verus! {

/// A command line that is the program alone.
pub fn command(program: &str) -> (r: Vec<String>)
    ensures
        r.deep_view() == seq![program@],
{
    let mut r: Vec<String> = Vec::new();
    r.push(program.to_string());
    assert(r.deep_view() == seq![program@]);
    r
}

/// Puts one argument more on a command line.
pub fn arg(line: &mut Vec<String>, a: &str)
    ensures
        final(line).deep_view() == old(line).deep_view().push(a@),
{
    let ghost before = line.deep_view();
    line.push(a.to_string());
    assert(line.deep_view() == before.push(a@));
}

/// Puts one option of `ssh` on a command line.
pub fn option(line: &mut Vec<String>, setting: &str)
    ensures
        final(line).deep_view() == old(line).deep_view().push("-o"@).push(setting@),
{
    arg(line, "-o");
    arg(line, setting);
}

/// The options of `ssh` and `scp` that take hosts as they are.
pub open spec fn host_options() -> Seq<Seq<char>> {
    seq!["-o"@, "StrictHostKeyChecking=no"@, "-o"@, "UserKnownHostsFile=/dev/null"@]
}

/// Those and one that keeps warnings away.
pub open spec fn quiet_options() -> Seq<Seq<char>> {
    host_options() + seq!["-o"@, "LogLevel=ERROR"@]
}

/// Puts the options on a command line that take hosts as they are.
pub fn take_hosts(line: &mut Vec<String>)
    ensures
        final(line).deep_view() == old(line).deep_view() + host_options(),
{
    let ghost before = line.deep_view();
    option(line, "StrictHostKeyChecking=no");
    option(line, "UserKnownHostsFile=/dev/null");
    assert(line.deep_view() == before + host_options());
}

/// Puts those and the one on a command line that keeps warnings away.
pub fn be_quiet(line: &mut Vec<String>)
    ensures
        final(line).deep_view() == old(line).deep_view() + quiet_options(),
{
    let ghost before = line.deep_view();
    take_hosts(line);
    option(line, "LogLevel=ERROR");
    assert(line.deep_view() == before + quiet_options());
}

/// The command line that runs `script` on `target` by `ssh`.
pub open spec fn ssh_line(target: Seq<char>, script: Seq<char>) -> Seq<Seq<char>> {
    seq!["ssh"@] + quiet_options() + seq![target, script]
}

/// The command line that runs `script` on `target` by `ssh`.
pub fn ssh(target: &str, script: &str) -> (r: Vec<String>)
    ensures
        r.deep_view() == ssh_line(target@, script@),
{
    let mut r = command("ssh");
    be_quiet(&mut r);
    arg(&mut r, target);
    arg(&mut r, script);
    assert(r.deep_view() == ssh_line(target@, script@));
    r
}

/// The command line that does so, and gives up after some seconds where
/// `target` does not answer.
pub open spec fn ssh_within_line(timeout: Seq<char>, target: Seq<char>, script: Seq<char>) -> Seq<
    Seq<char>,
> {
    seq!["ssh"@] + quiet_options() + seq!["-o"@, timeout, target, script]
}

/// The command line that runs `script` on `target` by `ssh` with the option
/// `timeout`.
pub fn ssh_within(timeout: &str, target: &str, script: &str) -> (r: Vec<String>)
    ensures
        r.deep_view() == ssh_within_line(timeout@, target@, script@),
{
    let mut r = command("ssh");
    be_quiet(&mut r);
    option(&mut r, timeout);
    arg(&mut r, target);
    arg(&mut r, script);
    assert(r.deep_view() == ssh_within_line(timeout@, target@, script@));
    r
}

/// The command line that posts the JSON text `body` to `url`.
pub open spec fn post_line(body: Seq<char>, url: Seq<char>) -> Seq<Seq<char>> {
    seq![
        "curl"@,
        "-sf"@,
        "-X"@,
        "POST"@,
        "-H"@,
        "Content-Type: application/json"@,
        "-d"@,
        body,
        url,
    ]
}

/// The command line that posts the JSON text `body` to `url`.
pub fn post(body: &str, url: &str) -> (r: Vec<String>)
    ensures
        r.deep_view() == post_line(body@, url@),
{
    let mut r = command("curl");
    arg(&mut r, "-sf");
    arg(&mut r, "-X");
    arg(&mut r, "POST");
    arg(&mut r, "-H");
    arg(&mut r, "Content-Type: application/json");
    arg(&mut r, "-d");
    arg(&mut r, body);
    arg(&mut r, url);
    r
}

/// A script is run by `ssh` on its target: the two stand last, in that order,
/// and no host key is asked for or kept.
pub proof fn law_script_run_on_target(timeout: Seq<char>, target: Seq<char>, script: Seq<char>)
    ensures
        ({
            let plain = ssh_line(target, script);
            let within = ssh_within_line(timeout, target, script);
            &&& plain.first() == "ssh"@ && within.first() == "ssh"@
            &&& plain[plain.len() - 2] == target && plain.last() == script
            &&& within[within.len() - 2] == target && within.last() == script
            &&& within[within.len() - 3] == timeout && within[within.len() - 4] == "-o"@
            &&& plain.len() == 9 && within.len() == 11
            &&& plain[1] == "-o"@ && plain[2] == "StrictHostKeyChecking=no"@
            &&& plain[3] == "-o"@ && plain[4] == "UserKnownHostsFile=/dev/null"@
            &&& plain[5] == "-o"@ && plain[6] == "LogLevel=ERROR"@
            &&& within.subrange(0, 7) == plain.subrange(0, 7)
        }),
{
}

/// A body is posted as JSON to its address, which stands last.
pub proof fn law_body_posted(body: Seq<char>, url: Seq<char>)
    ensures
        ({
            let line = post_line(body, url);
            &&& line.len() == 9
            &&& line.first() == "curl"@
            &&& line[2] == "-X"@ && line[3] == "POST"@
            &&& line[4] == "-H"@ && line[5] == "Content-Type: application/json"@
            &&& line[6] == "-d"@ && line[7] == body
            &&& line.last() == url
        }),
{
}

} // verus!
