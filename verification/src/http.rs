//! Requests and responses of the services of a host.

use crate::text::basic::{
    after_prefix, chars_of, contains, find, find_in, is_space, occurs, same, strip_prefix, text_of,
    trim, trimmed,
};
use crate::text::number::{decimal, decimal_text};
use crate::text::split::{
    cut_once, joined, law_first_line, law_words_read_back, lines, lines_of, split_once, words, words_of,
};
use vstd::prelude::*;
use vstd::utf8::encode_utf8;

verus! {

// Requests

/// The body of a request: what follows the first empty line.
pub open spec fn body_in(req: Seq<char>) -> Option<Seq<char>> {
    match find_in(req, "\r\n\r\n"@) {
        Some(i) => Some(req.skip(i + 4)),
        None => None,
    }
}

/// The body of a request.
pub fn body_of(req: &str) -> (r: Option<String>)
    ensures
        r.deep_view() == body_in(req@),
{
    proof {
        reveal_strlit("\r\n\r\n");
    }
    match find(req, "\r\n\r\n") {
        Some(i) => {
            let v = chars_of(req);
            let n: usize = v.len();
            assert(i + 4 <= n);
            let t = text_of(&v, i + 4, n);
            assert(t@ == req@.skip(i + 4));
            Some(t)
        },
        None => None,
    }
}

/// The second word of the first line of a request: the path it asks for.
pub open spec fn path_in(req: Seq<char>) -> Seq<char> {
    let list = lines_of(req);
    let first = if list.len() > 0 {
        words_of(list[0])
    } else {
        Seq::<Seq<char>>::empty()
    };
    if first.len() > 1 {
        first[1]
    } else {
        Seq::<char>::empty()
    }
}

/// The path that a request asks for.
pub fn path_of(req: &str) -> (r: String)
    ensures
        r@ == path_in(req@),
{
    let list = lines(req);
    assert(list.deep_view() == lines_of(req@));
    if list.len() > 0 {
        assert(list.deep_view()[0] == list[0]@);
        let first = words(&list[0]);
        if first.len() > 1 {
            assert(first.deep_view()[1] == first[1]@);
            return first[1].clone();
        }
    }
    String::new()
}

/// The address of the cell that a request is to deregister.
pub open spec fn cell_in_path(req: Seq<char>) -> Seq<char> {
    match after_prefix(path_in(req), "/cells/"@) {
        Some(ip) => ip,
        None => Seq::<char>::empty(),
    }
}

/// The address of the cell that a request is to deregister.
pub fn deregistered_ip(req: &str) -> (r: String)
    ensures
        r@ == cell_in_path(req@),
{
    match strip_prefix(&path_of(req), "/cells/") {
        Some(ip) => ip,
        None => String::new(),
    }
}

// Responses

/// How a request went.
#[derive(Clone, Copy, Debug, PartialEq, Eq, Structural)]
pub enum Status {
    Fine,
    BadRequest,
    NotFound,
    ServerError,
}

impl Status {
    /// The status as it is written.
    pub open spec fn written(self) -> Seq<char> {
        match self {
            Status::Fine => "200 OK"@,
            Status::BadRequest => "400 Bad Request"@,
            Status::NotFound => "404 Not Found"@,
            Status::ServerError => "500 Internal Server Error"@,
        }
    }

    /// The status as it is written.
    pub fn text(&self) -> (r: &'static str)
        ensures
            r@ == self.written(),
    {
        match self {
            Status::Fine => "200 OK",
            Status::BadRequest => "400 Bad Request",
            Status::NotFound => "404 Not Found",
            Status::ServerError => "500 Internal Server Error",
        }
    }
}

/// The answer to a request.
pub struct Reply {
    pub status: Status,
    pub body: String,
}

/// The answer to a request.
pub struct ReplyView {
    pub status: Status,
    pub body: Seq<char>,
}

impl View for Reply {
    type V = ReplyView;

    open spec fn view(&self) -> ReplyView {
        ReplyView { status: self.status, body: self.body@ }
    }
}

/// A response, with the number of bytes of its body.
pub open spec fn response_of(reply: ReplyView) -> Seq<char> {
    "HTTP/1.1 "@ + reply.status.written() + "\r\ncontent-length: "@ + decimal(
        encode_utf8(reply.body).len(),
    ) + "\r\n\r\n"@ + reply.body
}

/// The response for an answer.
pub fn response(reply: &Reply) -> (r: String)
    ensures
        r@ == response_of(reply@),
{
    let bytes: usize = reply.body.as_str().as_bytes().len();
    let mut r = "HTTP/1.1 ".to_string();
    r.append(reply.status.text());
    r.append("\r\ncontent-length: ");
    r.append(&decimal_text(bytes as u64));
    r.append("\r\n\r\n");
    r.append(&reply.body);
    r
}

/// Who reads a response as a request is read finds the body of the answer,
/// whatever it holds.
pub proof fn law_response_body(reply: ReplyView)
    ensures
        body_in(response_of(reply)) == Some(reply.body),
{
    reveal_strlit("HTTP/1.1 ");
    reveal_strlit("200 OK");
    reveal_strlit("400 Bad Request");
    reveal_strlit("404 Not Found");
    reveal_strlit("500 Internal Server Error");
    reveal_strlit("\r\ncontent-length: ");
    reveal_strlit("\r\n\r\n");
    let n = encode_utf8(reply.body).len();
    let status = reply.status.written();
    let head = "HTTP/1.1 "@ + status + "\r\ncontent-length: "@ + decimal(n);
    let text = response_of(reply);
    let gap = "\r\n\r\n"@;
    crate::text::number::lemma_decimal_value(n);
    assert(text == head + gap + reply.body);
    assert(text.subrange(head.len() as int, head.len() as int + 4) == gap);
    assert(crate::text::basic::occurs_at(text, gap, head.len() as int));
    crate::text::basic::lemma_find_from(text, gap, 0);
    let k = find_in(text, gap)->0;
    let a = ("HTTP/1.1 "@ + status).len() as int;
    let b = "\r\ncontent-length: "@.len() as int;
    assert(forall|i: int| 0 <= i < "HTTP/1.1 "@.len() ==> "HTTP/1.1 "@[i] != '\r');
    assert(forall|i: int| 0 <= i < status.len() ==> status[i] != '\r');
    assert forall|i: int| 0 <= i < a implies text[i] != '\r' by {
        if i < "HTTP/1.1 "@.len() {
            assert(text[i] == "HTTP/1.1 "@[i]);
        } else {
            assert(text[i] == status[i - "HTTP/1.1 "@.len()]);
        }
    }
    assert forall|i: int| a <= i < a + b implies text[i] == "\r\ncontent-length: "@[i - a] by {}
    assert forall|i: int| a + b <= i < head.len() implies text[i] != '\r' by {
        assert(text[i] == decimal(n)[i - a - b]);
        assert(crate::text::number::is_digit(decimal(n)[i - a - b]));
    }
    if k < head.len() {
        assert(text.subrange(k, k + 4)[0] == '\r');
        assert(text[k] == '\r');
        assert(k == a);
        assert(text.subrange(k, k + 4)[2] == text[a + 2]);
        assert(text[a + 2] == "\r\ncontent-length: "@[2]);
        assert(false);
    }
    assert(k == head.len());
    assert(text.skip(k + 4) == reply.body);
}

/// The answer of a request without a body.
pub open spec fn missing_body() -> ReplyView {
    ReplyView { status: Status::BadRequest, body: "missing body"@ }
}

/// The answer of a request whose body cannot be read.
pub open spec fn bad_request(error: Seq<char>) -> ReplyView {
    ReplyView { status: Status::BadRequest, body: "bad request: "@ + error }
}

/// The answer after something was done, or was tried.
pub open spec fn done_or(error: Option<Seq<char>>) -> ReplyView {
    match error {
        None => ReplyView { status: Status::Fine, body: "{\"ok\":true}"@ },
        Some(e) => ReplyView {
            status: Status::ServerError,
            body: "{\"ok\":false,\"error\":\""@ + e + "\"}"@,
        },
    }
}

/// The answer of a request without a body.
pub fn no_body() -> (r: Reply)
    ensures
        r@ == missing_body(),
{
    Reply { status: Status::BadRequest, body: "missing body".to_string() }
}

/// The answer of a request whose body cannot be read.
pub fn unreadable(error: &str) -> (r: Reply)
    ensures
        r@ == bad_request(error@),
{
    let mut body = "bad request: ".to_string();
    body.append(error);
    Reply { status: Status::BadRequest, body }
}

/// The answer after something was done, or was tried.
pub fn done(error: Option<&str>) -> (r: Reply)
    ensures
        r@ == done_or(error.deep_view()),
{
    match error {
        None => Reply { status: Status::Fine, body: "{\"ok\":true}".to_string() },
        Some(e) => {
            let mut body = "{\"ok\":false,\"error\":\"".to_string();
            body.append(e);
            body.append("\"}");
            Reply { status: Status::ServerError, body }
        },
    }
}

/// How far a request that asks for something to be done has come.
pub enum Handled {
    /// It has no body.
    NoBody,
    /// Its body cannot be read: this is wrong with it.
    Unreadable(String),
    /// It was done, or this went wrong.
    Tried(Option<String>),
}

/// The answer to a request that has come so far.
pub open spec fn handled_reply(h: Handled) -> ReplyView {
    match h {
        Handled::NoBody => missing_body(),
        Handled::Unreadable(e) => bad_request(e@),
        Handled::Tried(e) => done_or(e.deep_view()),
    }
}

/// The answer to a request that asks for something to be done.
pub fn handled(h: &Handled) -> (r: Reply)
    ensures
        r@ == handled_reply(*h),
{
    match h {
        Handled::NoBody => no_body(),
        Handled::Unreadable(e) => unreadable(e),
        Handled::Tried(None) => done(None),
        Handled::Tried(Some(e)) => done(Some(e.as_str())),
    }
}

/// The answer with a listing that was made, or could not be.
pub open spec fn listed_or(listing: Result<Seq<char>, Seq<char>>) -> ReplyView {
    match listing {
        Ok(json) => ReplyView { status: Status::Fine, body: json },
        Err(e) => ReplyView {
            status: Status::ServerError,
            body: "{\"error\":\""@ + e + "\"}"@,
        },
    }
}

/// The answer with a listing that was made, or could not be.
pub fn listed(listing: Result<String, String>) -> (r: Reply)
    ensures
        r@ == listed_or(
            match listing {
                Ok(j) => Ok(j@),
                Err(e) => Err(e@),
            },
        ),
{
    match listing {
        Ok(json) => Reply { status: Status::Fine, body: json },
        Err(e) => {
            let mut body = "{\"error\":\"".to_string();
            body.append(&e);
            body.append("\"}");
            Reply { status: Status::ServerError, body }
        },
    }
}

/// The answer where nothing is found.
pub fn not_found() -> (r: Reply)
    ensures
        r@ == (ReplyView { status: Status::NotFound, body: "not found"@ }),
{
    Reply { status: Status::NotFound, body: "not found".to_string() }
}

/// The answer after a cell was registered or deregistered.
pub fn accepted() -> (r: Reply)
    ensures
        r@ == (ReplyView { status: Status::Fine, body: "ok"@ }),
{
    Reply { status: Status::Fine, body: "ok".to_string() }
}

/// The answer where the address of a cell is missing.
pub fn missing_ip() -> (r: Reply)
    ensures
        r@ == (ReplyView { status: Status::BadRequest, body: "missing ip"@ }),
{
    Reply { status: Status::BadRequest, body: "missing ip".to_string() }
}

// Credentials for git

/// The request asks for a credential.
pub open spec fn asks_credential(req: Seq<char>) -> bool {
    occurs(req, "POST"@) && occurs(req, "/git-credential"@)
}

/// The host that one line names, where it names one.
pub open spec fn host_in_line(line: Seq<char>) -> Option<Seq<char>> {
    match cut_once(line, '=') {
        Some((k, v)) => if trimmed(k) == "host"@ {
            Some(trimmed(v))
        } else {
            None
        },
        None => None,
    }
}

/// The host that the last of the lines that names one names.
pub open spec fn host_in_lines(list: Seq<Seq<char>>) -> Seq<char>
    decreases list.len(),
{
    if list.len() == 0 {
        Seq::<char>::empty()
    } else {
        match host_in_line(list.last()) {
            Some(h) => h,
            None => host_in_lines(list.drop_last()),
        }
    }
}

/// The host that a request asks a credential for.
pub open spec fn credential_host(req: Seq<char>) -> Seq<char> {
    match body_in(req) {
        Some(body) => host_in_lines(lines_of(body)),
        None => Seq::<char>::empty(),
    }
}

/// The user and the variable with the token, for the hosts that have one.
pub open spec fn provider_of(host: Seq<char>) -> Option<(Seq<char>, Seq<char>)> {
    if host == "github.com"@ {
        Some(("x-access-token"@, "GITHUB_TOKEN"@))
    } else if host == "gitlab.com"@ {
        Some(("oauth2"@, "GITLAB_TOKEN"@))
    } else if host == "bitbucket.org"@ {
        Some(("x-token-auth"@, "BITBUCKET_TOKEN"@))
    } else {
        None
    }
}

/// What is done with a request for a credential.
pub enum CredentialStep {
    /// Send this.
    Refuse(String),
    /// Look the variable up.
    Look { username: String, env_var: String },
}

fn named_host(line: &str) -> (r: Option<String>)
    ensures
        r.deep_view() == host_in_line(line@),
{
    match split_once(line, '=') {
        Some((k, v)) => if same(&trim(&k), "host") {
            Some(trim(&v))
        } else {
            None
        },
        None => None,
    }
}

fn asked_host(req: &str) -> (r: String)
    ensures
        r@ == credential_host(req@),
{
    match body_of(req) {
        None => String::new(),
        Some(body) => {
            let list = lines(&body);
            let ghost all = list.deep_view();
            let mut host = String::new();
            let mut i: usize = 0;
            assert(host@ == host_in_lines(all.take(0)));
            while i < list.len()
                invariant
                    i <= list.len(),
                    all == list.deep_view(),
                    host@ == host_in_lines(all.take(i as int)),
                decreases list.len() - i,
            {
                assert(all.take(i + 1).drop_last() == all.take(i as int));
                assert(all.take(i + 1).last() == list[i as int]@);
                if let Some(h) = named_host(&list[i]) {
                    host = h;
                }
                i += 1;
            }
            assert(all.take(all.len() as int) == all);
            host
        },
    }
}

/// What is done with the request `req`.
pub fn serve_git_credentials(req: &str) -> (r: CredentialStep)
    ensures
        if !asks_credential(req@) {
            r matches CredentialStep::Refuse(t) && t@ == "HTTP/1.1 404 Not Found\r\n\r\n"@
        } else {
            match provider_of(credential_host(req@)) {
                None => r matches CredentialStep::Refuse(t) && t@
                    == "HTTP/1.1 403 Forbidden\r\n\r\n"@,
                Some((u, v)) => r matches CredentialStep::Look { username, env_var } && username@
                    == u && env_var@ == v,
            }
        },
{
    if !contains(req, "POST") || !contains(req, "/git-credential") {
        return CredentialStep::Refuse("HTTP/1.1 404 Not Found\r\n\r\n".to_string());
    }
    let host = asked_host(req);
    if same(&host, "github.com") {
        CredentialStep::Look {
            username: "x-access-token".to_string(),
            env_var: "GITHUB_TOKEN".to_string(),
        }
    } else if same(&host, "gitlab.com") {
        CredentialStep::Look {
            username: "oauth2".to_string(),
            env_var: "GITLAB_TOKEN".to_string(),
        }
    } else if same(&host, "bitbucket.org") {
        CredentialStep::Look {
            username: "x-token-auth".to_string(),
            env_var: "BITBUCKET_TOKEN".to_string(),
        }
    } else {
        CredentialStep::Refuse("HTTP/1.1 403 Forbidden\r\n\r\n".to_string())
    }
}

/// The body with a credential.
pub open spec fn credential_body(username: Seq<char>, token: Seq<char>) -> Seq<char> {
    "username="@ + username + "\npassword="@ + token + "\n"@
}

/// The response with the token, where the variable has one.
pub open spec fn credential_response(username: Seq<char>, token: Option<Seq<char>>) -> Seq<char> {
    match token {
        None => "HTTP/1.1 500 Error\r\n\r\n"@,
        Some(t) => "HTTP/1.1 200 OK\r\ncontent-type: text/plain\r\ncontent-length: "@ + decimal(
            encode_utf8(credential_body(username, t)).len(),
        ) + "\r\n\r\n"@ + credential_body(username, t),
    }
}

/// The response with the token of the user `username`, where there is one.
pub fn credential_reply(username: &str, token: Option<&str>) -> (r: String)
    ensures
        r@ == credential_response(username@, token.deep_view()),
{
    match token {
        None => "HTTP/1.1 500 Error\r\n\r\n".to_string(),
        Some(t) => {
            let mut body = "username=".to_string();
            body.append(username);
            body.append("\npassword=");
            body.append(t);
            body.append("\n");
            let bytes: usize = body.as_str().as_bytes().len();
            let mut r =
                "HTTP/1.1 200 OK\r\ncontent-type: text/plain\r\ncontent-length: ".to_string();
            r.append(&decimal_text(bytes as u64));
            r.append("\r\n\r\n");
            r.append(&body);
            r
        },
    }
}

// What the answers tell

/// The statuses are told apart by the number that each begins with.
pub proof fn law_statuses_told_apart(a: Status, b: Status)
    ensures
        a.written() == b.written() <==> a == b,
        a.written()[0] == '2' <==> a == Status::Fine,
        a.written()[0] == '5' <==> a == Status::ServerError,
        a.written()[0] == '4' <==> a == Status::BadRequest || a == Status::NotFound,
        a.written().take(3) == "404"@ <==> a == Status::NotFound,
{
    reveal_strlit("200 OK");
    reveal_strlit("400 Bad Request");
    reveal_strlit("404 Not Found");
    reveal_strlit("500 Internal Server Error");
    reveal_strlit("404");
    assert("400 Bad Request"@.take(3)[2] != "404"@[2]);
    assert("200 OK"@.take(3)[0] != "404"@[0]);
    assert("500 Internal Server Error"@.take(3)[0] != "404"@[0]);
    assert("404 Not Found"@.take(3) =~= "404"@);
}

/// A response begins with the status of the answer.
pub proof fn law_response_begins(reply: ReplyView)
    ensures
        ("HTTP/1.1 "@ + reply.status.written() + "\r\n"@).is_prefix_of(response_of(reply)),
{
    reveal_strlit("\r\n");
    reveal_strlit("\r\ncontent-length: ");
    let head = "HTTP/1.1 "@ + reply.status.written() + "\r\n"@;
    assert(response_of(reply).subrange(0, head.len() as int) =~= head);
}

/// A request is answered as fine exactly where all was done, and then so that
/// the client takes it for that. What went wrong stands in the answer. Without
/// a body, or with one that cannot be read, the request is at fault.
pub proof fn law_answers_tell(h: Handled)
    ensures
        handled_reply(h).status == Status::Fine <==> (h matches Handled::Tried(None)),
        handled_reply(h).status == Status::Fine ==> occurs(
            handled_reply(h).body,
            "\"ok\":true"@,
        ),
        handled_reply(h).status == Status::BadRequest <==> h is NoBody || h is Unreadable,
        h matches Handled::Unreadable(e) ==> e@.is_suffix_of(handled_reply(h).body),
        h matches Handled::Tried(Some(e)) ==> handled_reply(h).status == Status::ServerError
            && occurs(handled_reply(h).body, e@),
{
    reveal_strlit("{\"ok\":true}");
    reveal_strlit("\"ok\":true");
    let body = handled_reply(h).body;
    match h {
        Handled::Tried(None) => {
            assert(body.subrange(1, 10) =~= "\"ok\":true"@);
            assert(crate::text::basic::occurs_at(body, "\"ok\":true"@, 1));
        },
        Handled::Tried(Some(e)) => {
            let n = "{\"ok\":false,\"error\":\""@.len() as int;
            assert(body.subrange(n, n + e@.len()) =~= e@);
            assert(crate::text::basic::occurs_at(body, e@, n));
        },
        Handled::Unreadable(e) => {
            assert(body.subrange(body.len() - e@.len(), body.len() as int) =~= e@);
        },
        Handled::NoBody => {},
    }
}

/// A listing is sent as it is, and what kept it from being made is told.
pub proof fn law_listing_sent(listing: Result<Seq<char>, Seq<char>>)
    ensures
        listed_or(listing).status == Status::Fine <==> listing is Ok,
        listing matches Ok(json) ==> listed_or(listing).body == json,
        listing matches Err(e) ==> occurs(listed_or(listing).body, e),
{
    if let Err(e) = listing {
        let body = listed_or(listing).body;
        let n = "{\"error\":\""@.len() as int;
        assert(body.subrange(n, n + e.len()) =~= e);
        assert(crate::text::basic::occurs_at(body, e, n));
    }
}

/// Three hosts have credentials, each with a token of its own under the name of
/// the host; no other host has one.
pub proof fn law_hosts_with_credentials(host: Seq<char>)
    ensures
        provider_of(host) is Some <==> host == "github.com"@ || host == "gitlab.com"@ || host
            == "bitbucket.org"@,
        host == "github.com"@ ==> provider_of(host)->0 == ("x-access-token"@, "GITHUB_TOKEN"@),
        host == "gitlab.com"@ ==> provider_of(host)->0 == ("oauth2"@, "GITLAB_TOKEN"@),
        host == "bitbucket.org"@ ==> provider_of(host)->0 == ("x-token-auth"@, "BITBUCKET_TOKEN"@),
{
    reveal_strlit("github.com");
    reveal_strlit("gitlab.com");
    reveal_strlit("bitbucket.org");
    assert("github.com"@[3] != "gitlab.com"@[3]);
    assert("github.com"@.len() != "bitbucket.org"@.len());
}

/// The host of a request is the one that the last line that names a host says,
/// without white space around it.
pub proof fn law_last_host_counts(list: Seq<Seq<char>>, i: int, host: Seq<char>)
    requires
        0 <= i < list.len(),
        host_in_line(list[i]) == Some(host),
        forall|k: int| i < k < list.len() ==> host_in_line(#[trigger] list[k]) is None,
    ensures
        host_in_lines(list) == host,
    decreases list.len(),
{
    if i < list.len() - 1 {
        assert(host_in_line(list[list.len() - 1]) is None);
        assert(list.drop_last()[i] == list[i]);
        assert forall|k: int| i < k < list.drop_last().len() implies host_in_line(
            #[trigger] list.drop_last()[k],
        ) is None by {
            assert(list.drop_last()[k] == list[k]);
        }
        law_last_host_counts(list.drop_last(), i, host);
    }
}

/// The path of a request is the second word of its first line, whatever
/// follows; a request to deregister a cell names it behind `/cells/`.
pub proof fn law_path_of_request(
    method: Seq<char>,
    path: Seq<char>,
    version: Seq<char>,
    rest: Seq<char>,
    ip: Seq<char>,
)
    requires
        method.len() > 0 && path.len() > 0 && version.len() > 0,
        forall|i: int| 0 <= i < method.len() ==> !is_space(#[trigger] method[i]),
        forall|i: int| 0 <= i < path.len() ==> !is_space(#[trigger] path[i]),
        forall|i: int| 0 <= i < version.len() ==> !is_space(#[trigger] version[i]),
    ensures
        ({
            let req = method + seq![' '] + path + seq![' '] + version + seq!['\r', '\n'] + rest;
            &&& path_in(req) == path
            &&& path == "/cells/"@ + ip ==> cell_in_path(req) == ip
            &&& !"/cells/"@.is_prefix_of(path) ==> cell_in_path(req).len() == 0
        }),
{
    let line = method + seq![' '] + path + seq![' '] + version;
    let list = seq![method, path, version];
    assert forall|i: int, j: int|
        0 <= i < list.len() && 0 <= j < list[i].len() implies !is_space(#[trigger] list[i][j]) by {
        if i == 0 {
            assert(!is_space(method[j]));
        } else if i == 1 {
            assert(!is_space(path[j]));
        } else {
            assert(!is_space(version[j]));
        }
    }
    law_words_read_back(list);
    assert(list.drop_last() == seq![method, path]);
    assert(seq![method, path].drop_last() == seq![method]);
    assert(joined(seq![method], seq![' ']) == method);
    assert(joined(seq![method, path], seq![' ']) == method + seq![' '] + path);
    assert(joined(list, seq![' ']) == line);
    assert forall|i: int| 0 <= i < line.len() implies line[i] != '\n' && (i == line.len() - 1
        ==> line[i] != '\r') by {
        let m = method.len() as int;
        let p = path.len() as int;
        if i < m {
            assert(!is_space(method[i]));
        } else if m < i < m + 1 + p {
            assert(!is_space(path[i - m - 1]));
        } else if i > m + 1 + p {
            assert(!is_space(version[i - m - p - 2]));
        }
    }
    law_first_line(line, rest);
    crate::text::basic::law_affix_and_rest(ip, "/cells/"@);
}

/// A credential is sent as two lines, the user and the token as the password,
/// behind a status that says that all is well; without a token nothing but a
/// failure is sent.
pub proof fn law_credential_sent(username: Seq<char>, token: Seq<char>)
    requires
        !username.contains('\n') && !token.contains('\n'),
        username.len() > 0 ==> username.last() != '\r',
        token.len() > 0 ==> token.last() != '\r',
    ensures
        lines_of(credential_body(username, token)) == seq![
            "username="@ + username,
            "password="@ + token,
        ],
        credential_body(username, token).is_suffix_of(credential_response(username, Some(token))),
        "HTTP/1.1 200 OK\r\n"@.is_prefix_of(credential_response(username, Some(token))),
        credential_response(username, None) == "HTTP/1.1 500 Error\r\n\r\n"@,
{
    reveal_strlit("username=");
    reveal_strlit("\npassword=");
    reveal_strlit("password=");
    reveal_strlit("\n");
    reveal_strlit("HTTP/1.1 200 OK\r\n");
    reveal_strlit("HTTP/1.1 200 OK\r\ncontent-type: text/plain\r\ncontent-length: ");
    let first = "username="@ + username;
    let second = "password="@ + token;
    let list = seq![first, second];
    let body = credential_body(username, token);
    assert("\npassword="@ == seq!['\n'] + "password="@);
    assert("\n"@ == seq!['\n']);
    assert(list.drop_last() == seq![first]);
    assert(joined(seq![first], seq!['\n']) == first);
    assert(joined(list, seq!['\n']) == first + seq!['\n'] + second);
    assert(body == joined(list, seq!['\n']) + seq!['\n']);
    assert forall|i: int| 0 <= i < list.len() implies !(#[trigger] list[i]).contains('\n') by {
        assert forall|j: int| 0 <= j < list[i].len() implies list[i][j] != '\n' by {
            if j >= 9 {
                if i == 0 {
                    assert(username.contains(username[j - 9]));
                } else {
                    assert(token.contains(token[j - 9]));
                }
            }
        }
    }
    crate::text::split::law_lines_read_back(list);
    let r = credential_response(username, Some(token));
    assert(r.subrange(r.len() - body.len(), r.len() as int) == body);
    let front = "HTTP/1.1 200 OK\r\n"@;
    crate::text::basic::lemma_begins(r, front);
}

/// Only a posted request for a credential is one, and the host is looked for
/// in its body.
pub proof fn law_credential_asked(req: Seq<char>, body: Seq<char>)
    ensures
        asks_credential(req) <==> occurs(req, "POST"@) && occurs(req, "/git-credential"@),
        body_in(req) == Some(body) ==> credential_host(req) == host_in_lines(lines_of(body)),
        body_in(req) is None ==> credential_host(req).len() == 0,
{
}

} // verus!
