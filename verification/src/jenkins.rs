use crate::args::{CopyItem, NodeState, ShutdownState};
use crate::codec::{decode_document, decoded, Decode};
use crate::error::ClientError;
use crate::json::{json_read, Json};
use crate::path::{
    dot_dot, job_prefix, path_segments, to_job_segments, valid_path, ResourcePath,
};
use crate::text::{
    chars_of, decimal, decimal_string, has_char, split, split_chars, string_of, text_eq,
};
use crate::transport::{
    escaped, is_request, parse_uri, parsed_uri, percent_encode, planned, send_request, Address,
    Method, Request,
};
use vstd::prelude::*;
use vstd::string::StringExecFns;

verus! {

/// A query against the server, relative to the server's address: a path
/// below it, and what to project from the resource there.
#[derive(Debug)]
pub struct Tree {
    pub query: String,
}

impl Tree {
    /// Wraps a query without changing it.
    pub fn new(query: String) -> (tree: Self)
        ensures
            tree.query@ == query@,
    {
        Self { query }
    }

    /// The query for the jobs at the top of the namespace.
    pub fn jobs() -> (tree: Self)
        ensures
            tree.query@ == "api/json?tree=jobs[fullDisplayName,fullName,name]"@,
    {
        Self { query: String::from_str("api/json?tree=jobs[fullDisplayName,fullName,name]") }
    }

    /// The query for the builds of a job, for the job's path to go before.
    pub fn builds() -> (tree: Self)
        ensures
            tree.query@ == "api/json?tree=builds[number,url],nextBuildNumber"@,
    {
        Self { query: String::from_str("api/json?tree=builds[number,url],nextBuildNumber") }
    }

    /// The query for the nodes of the server.
    pub fn nodes() -> (tree: Self)
        ensures
            tree.query@ == "computer/api/json"@,
    {
        Self { query: String::from_str("computer/api/json") }
    }

    /// The query that names one node.
    pub fn node(name: &str) -> (tree: Self)
        ensures
            tree.query@ == "computer/"@ + name@,
    {
        let mut query = String::from_str("computer/");
        query.append(name);
        Self { query }
    }

    /// The query for the artifacts of a build, as one archive; for the
    /// job's path to go before.
    pub fn artifact(build: u64) -> (tree: Self)
        ensures
            tree.query@ == decimal(build as nat) + "/artifact/*zip*/archive.zip"@,
    {
        let mut query = decimal_string(build);
        query.append("/artifact/*zip*/archive.zip");
        Self { query }
    }

    /// The query for the whole console log of a build, for the job's path
    /// to go before.
    pub fn console_text(build: &str) -> (tree: Self)
        ensures
            tree.query@ == build@ + "/consoleText"@,
    {
        let mut query = String::from_str(build);
        query.append("/consoleText");
        Self { query }
    }

    /// The query for the actions attached to a build, for the job's path to
    /// go before.
    pub fn actions(build: &str) -> (tree: Self)
        ensures
            tree.query@ == build@ + "/api/json?tree=actions"@,
    {
        let mut query = String::from_str(build);
        query.append("/api/json?tree=actions");
        Self { query }
    }

    /// The query as text.
    pub fn to_string(&self) -> (text: String)
        ensures
            text@ == self.query@,
    {
        self.query.clone()
    }

    /// Puts the rendered path before the query.
    pub fn with_path_prefix(self, path: &ResourcePath) -> (tree: Self)
        ensures
            tree.query@ == job_prefix(path@) + self.query@,
    {
        let mut query = path.render();
        query.append(self.query.as_str());
        Self { query }
    }

    /// Puts the job path, as the server expects it, before the query.
    ///
    /// Fails with `InvalidPath` where the path has no segment that is a name.
    pub fn build_path(self, path: &str) -> (res: Result<Self, ClientError>)
        ensures
            match res {
                Ok(tree) => valid_path(path@) && tree.query@ == job_prefix(path_segments(path@))
                    + self.query@,
                Err(e) => e == ClientError::InvalidPath && !valid_path(path@),
            },
    {
        match to_job_segments(path) {
            Ok(segments) => Ok(self.with_path_prefix(&segments)),
            Err(e) => Err(e),
        }
    }
}

/// The ways to interrupt a build.
#[derive(Clone, Copy, Debug, PartialEq, Eq, Structural)]
pub enum Signal {
    Hup,
    Term,
    Kill,
}

/// The signal that a word names, by name or by number.
pub open spec fn signal_named(word: Seq<char>) -> Option<Signal> {
    if word == "HUP"@ || word == "1"@ {
        Some(Signal::Hup)
    } else if word == "TERM"@ || word == "15"@ {
        Some(Signal::Term)
    } else if word == "KILL"@ || word == "9"@ {
        Some(Signal::Kill)
    } else {
        None
    }
}

impl Signal {
    /// Reads a signal from its name or number; hands the word back where it
    /// names none.
    pub fn from_str(s: &str) -> (res: Result<Signal, String>)
        ensures
            match res {
                Ok(signal) => signal_named(s@) == Some(signal),
                Err(word) => signal_named(s@) is None && word@ == s@,
            },
    {
        if text_eq(s, "HUP") || text_eq(s, "1") {
            Ok(Signal::Hup)
        } else if text_eq(s, "TERM") || text_eq(s, "15") {
            Ok(Signal::Term)
        } else if text_eq(s, "KILL") || text_eq(s, "9") {
            Ok(Signal::Kill)
        } else {
            Err(String::from_str(s))
        }
    }

    /// The last step of the address that delivers the signal to a build.
    pub open spec fn spec_step(self) -> Seq<char> {
        match self {
            Signal::Hup => "/stop"@,
            Signal::Term => "/term"@,
            Signal::Kill => "/kill"@,
        }
    }
}

/// The address of a query below the server's.
pub open spec fn query_url(base: Seq<char>, query: Seq<char>) -> Seq<char> {
    base + "/"@ + query
}

/// The address that announces a shutdown or takes the announcement back.
pub open spec fn shutdown_url(base: Seq<char>, state: ShutdownState) -> Seq<char> {
    match state {
        ShutdownState::On { reason } => if reason@.len() == 0 {
            base + "/quietDown"@
        } else {
            base + "/quietDown?reason="@ + escaped(reason@)
        },
        ShutdownState::Off => base + "/cancelQuietDown"@,
    }
}

/// The address that restarts the server, at once or when its builds are done.
pub open spec fn restart_url(base: Seq<char>, hard: bool) -> Seq<char> {
    if hard {
        base + "/restart"@
    } else {
        base + "/safeRestart"@
    }
}

/// The address that copies `src` to `dest`.
pub open spec fn copy_url(base: Seq<char>, item: CopyItem, src: Seq<char>, dest: Seq<char>) -> Seq<
    char,
> {
    match item {
        CopyItem::Job => base + "/createItem?from="@ + escaped(src) + "&mode=copy&name="@ + escaped(
            dest,
        ),
        CopyItem::View => base + "/createView?from="@ + escaped(src) + "&mode=copy&name="@
            + escaped(dest),
    }
}

/// Each piece with an `&` before it, one after the other.
pub open spec fn amp_joined(pieces: Seq<Seq<char>>) -> Seq<char>
    decreases pieces.len(),
{
    if pieces.len() == 0 {
        Seq::<char>::empty()
    } else {
        amp_joined(pieces.drop_last()) + "&"@ + pieces.last()
    }
}

/// The address that starts a build of the job with these segments. Without
/// parameters the job is built as it is; `-` asks for its parameters'
/// defaults; else `params` lists the parameters, separated by commas.
pub open spec fn build_url(base: Seq<char>, segments: Seq<Seq<char>>, params: Seq<char>) -> Seq<
    char,
> {
    if params.len() == 0 {
        base + "/"@ + job_prefix(segments) + "build?delay=0sec"@
    } else if params == "-"@ {
        base + "/"@ + job_prefix(segments) + "buildWithParameters?delay=0sec"@
    } else {
        base + "/"@ + job_prefix(segments) + "buildWithParameters?delay=0sec"@ + amp_joined(
            split(params, ','),
        )
    }
}

/// The address that starts a build of the job with these segments with the
/// parameters of an earlier build, `params` being those as a query.
pub open spec fn rebuild_url(base: Seq<char>, segments: Seq<Seq<char>>, params: Seq<char>) -> Seq<
    char,
> {
    base + "/"@ + job_prefix(segments) + "buildWithParameters?delay=0sec"@ + params
}

/// The name of the file that the artifacts of a build are kept in: the
/// name of the job, an underscore, the build's number, and `.zip`. There is
/// none where the path does not end in a name.
pub open spec fn archive_name(segments: Seq<Seq<char>>, build: u64) -> Option<Seq<char>> {
    if segments.len() == 0 || segments.last() == dot_dot() {
        None
    } else {
        Some(segments.last() + "_"@ + decimal(build as nat) + ".zip"@)
    }
}

/// The name of the file to keep the artifacts of a build in.
pub fn archive_file(path: &ResourcePath, build: u64) -> (res: Option<String>)
    ensures
        match res {
            Some(name) => archive_name(path@, build) == Some(name@),
            None => archive_name(path@, build) is None,
        },
{
    if path.segments.len() == 0 {
        return None;
    }
    let last = &path.segments[path.segments.len() - 1];
    assert(last@ == path@.last());
    proof {
        reveal_strlit("..");
        assert(".."@ == dot_dot());
    }
    if text_eq(last.as_str(), "..") {
        return None;
    }
    let mut name = last.clone();
    name.append("_");
    name.append(decimal_string(build).as_str());
    name.append(".zip");
    Some(name)
}

/// The address of the job with these segments.
pub open spec fn job_url(base: Seq<char>, segments: Seq<Seq<char>>) -> Seq<char> {
    base + "/"@ + job_prefix(segments)
}

/// The address that delivers a signal to the build that `query` names.
pub open spec fn kill_url(base: Seq<char>, query: Seq<char>, signal: Signal) -> Seq<char> {
    base + "/"@ + query + signal.spec_step()
}

/// The address that puts the node that `query` names in a state.
pub open spec fn set_url(base: Seq<char>, query: Seq<char>, state: NodeState) -> Seq<char> {
    match state {
        NodeState::Disconnect { reason } => if reason@.len() == 0 {
            base + query + "/doDisconnect"@
        } else {
            base + query + "/doDisconnect?offlineMessage="@ + escaped(reason@)
        },
        NodeState::Connect => base + query + "/launchSlaveAgent"@,
        NodeState::Offline { reason } => if reason@.len() == 0 {
            base + query + "/toggleOffline"@
        } else {
            base + query + "/toggleOffline?offlineMessage="@ + escaped(reason@)
        },
        NodeState::Online => base + query + "/toggleOffline"@,
    }
}

/// A server and the credentials to talk to it.
#[derive(Debug)]
pub struct Jenkins {
    pub user: String,
    pub pswd: String,
    pub url: Address,
}

impl Jenkins {
    /// A client for the server at `jenkins_url`.
    ///
    /// Fails with `InvalidUrl` where the address is no URI.
    pub fn new(user: &str, pswd: &str, jenkins_url: &str) -> (res: Result<Self, ClientError>)
        ensures
            match res {
                Ok(j) => parsed_uri(jenkins_url@) == Some(j.url@) && j.user@ == user@ && j.pswd@
                    == pswd@,
                Err(e) => e == ClientError::InvalidUrl && parsed_uri(jenkins_url@) is None,
            },
    {
        Self::at(user, pswd, parse_uri(jenkins_url))
    }

    /// A client for a server whose address was read as a URI already.
    ///
    /// Fails with `InvalidUrl` where the address was none.
    pub fn at(user: &str, pswd: &str, url: Option<Address>) -> (res: Result<Self, ClientError>)
        ensures
            match res {
                Ok(j) => url == Some(j.url) && j.user@ == user@ && j.pswd@ == pswd@,
                Err(e) => e == ClientError::InvalidUrl && url is None,
            },
    {
        match url {
            Some(url) => Ok(Self { user: String::from_str(user), pswd: String::from_str(pswd), url }),
            None => Err(ClientError::InvalidUrl),
        }
    }

    /// The request for `method` on the address `text`.
    ///
    /// Fails with `InvalidUrl` where the text is no URI or names no host.
    pub fn request(&self, text: &str, method: Method) -> (res: Result<Request, ClientError>)
        ensures
            is_request(res, planned(parsed_uri(text@), self.user@, self.pswd@, method)),
    {
        match parse_uri(text) {
            Some(url) => send_request(&url, self.user.as_str(), self.pswd.as_str(), method),
            None => Err(ClientError::InvalidUrl),
        }
    }

    /// Reads a record from a response body.
    ///
    /// Fails with `DecodeError` where the body holds no document, or one
    /// that lacks the record's shape.
    pub fn system<I: Decode>(json_data: &[u8]) -> (res: Result<I, ClientError>)
        ensures
            decoded::<I>(json_read(json_data@), res),
    {
        decode_document::<I>(Json::read(json_data))
    }

    /// The request that fetches what `tree` asks for.
    pub fn get_json_data(&self, tree: &Tree) -> (res: Result<Request, ClientError>)
        ensures
            is_request(
                res,
                planned(
                    parsed_uri(query_url(self.url@.text, tree.query@)),
                    self.user@,
                    self.pswd@,
                    Method::Get,
                ),
            ),
    {
        let mut url = self.url.text.clone();
        url.append("/");
        url.append(tree.query.as_str());
        self.request(url.as_str(), Method::Get)
    }

    /// The request that polls the console log that `tree` names, from the
    /// offset that `tree` gives on.
    pub fn get_console_log(&self, tree: &Tree) -> (res: Result<Request, ClientError>)
        ensures
            is_request(
                res,
                planned(
                    parsed_uri(query_url(self.url@.text, tree.query@)),
                    self.user@,
                    self.pswd@,
                    Method::Get,
                ),
            ),
    {
        self.get_json_data(tree)
    }

    /// The request that announces a shutdown or takes the announcement back.
    pub fn shutdown(self, state: ShutdownState) -> (res: Result<Request, ClientError>)
        ensures
            is_request(
                res,
                planned(
                    parsed_uri(shutdown_url(self.url@.text, state)),
                    self.user@,
                    self.pswd@,
                    Method::Post,
                ),
            ),
    {
        let mut url = self.url.text.clone();
        match &state {
            ShutdownState::On { reason } => {
                if !reason.as_str().is_empty() {
                    url.append("/quietDown?reason=");
                    url.append(percent_encode(reason.as_str()).as_str());
                } else {
                    url.append("/quietDown");
                }
            },
            ShutdownState::Off => {
                url.append("/cancelQuietDown");
            },
        }
        self.request(url.as_str(), Method::Post)
    }

    /// The request that restarts the server: at once where `hard` is set,
    /// else when the running builds are done.
    pub fn restart(self, hard: bool) -> (res: Result<Request, ClientError>)
        ensures
            is_request(
                res,
                planned(
                    parsed_uri(restart_url(self.url@.text, hard)),
                    self.user@,
                    self.pswd@,
                    Method::Post,
                ),
            ),
    {
        let mut url = self.url.text.clone();
        if hard {
            url.append("/restart");
        } else {
            url.append("/safeRestart");
        }
        self.request(url.as_str(), Method::Post)
    }

    /// The request that copies the job or view `src` to `dest`.
    ///
    /// Fails with `InvalidName` where a job is to be copied to a name that
    /// holds a slash: jobs are not copied into folders.
    pub fn copy(self, item: CopyItem, src: String, dest: String) -> (res: Result<
        Request,
        ClientError,
    >)
        ensures
            item == CopyItem::Job && dest@.contains('/') ==> res == Err::<Request, ClientError>(
                ClientError::InvalidName,
            ),
            !(item == CopyItem::Job && dest@.contains('/')) ==> is_request(
                res,
                planned(
                    parsed_uri(copy_url(self.url@.text, item, src@, dest@)),
                    self.user@,
                    self.pswd@,
                    Method::Post,
                ),
            ),
    {
        let mut url = self.url.text.clone();
        match item {
            CopyItem::Job => {
                if has_char(dest.as_str(), '/') {
                    return Err(ClientError::InvalidName);
                }
                url.append("/createItem?from=");
            },
            CopyItem::View => {
                url.append("/createView?from=");
            },
        }
        url.append(percent_encode(src.as_str()).as_str());
        url.append("&mode=copy&name=");
        url.append(percent_encode(dest.as_str()).as_str());
        self.request(url.as_str(), Method::Post)
    }

    /// The request that starts a build of the job at `job_path`.
    ///
    /// Fails with `InvalidPath` where the path has no segment that is a name.
    pub fn build(&self, job_path: &str, params: String) -> (res: Result<Request, ClientError>)
        ensures
            !valid_path(job_path@) ==> res == Err::<Request, ClientError>(ClientError::InvalidPath),
            valid_path(job_path@) ==> is_request(
                res,
                planned(
                    parsed_uri(build_url(self.url@.text, path_segments(job_path@), params@)),
                    self.user@,
                    self.pswd@,
                    Method::Post,
                ),
            ),
    {
        let path = match to_job_segments(job_path) {
            Ok(path) => path,
            Err(e) => {
                return Err(e);
            },
        };
        let mut url = self.url.text.clone();
        url.append("/");
        url.append(path.render().as_str());
        if params.as_str().is_empty() {
            url.append("build?delay=0sec");
        } else if text_eq(params.as_str(), "-") {
            url.append("buildWithParameters?delay=0sec");
        } else {
            url.append("buildWithParameters?delay=0sec");
            let chars = chars_of(params.as_str());
            let pieces = split_chars(&chars, ',');
            let ghost all = split(params@, ',');
            let mut extra = String::new();
            let mut i: usize = 0;
            while i < pieces.len()
                invariant
                    i <= pieces.len(),
                    pieces@.map_values(|p: Vec<char>| p@) == all,
                    extra@ == amp_joined(all.take(i as int)),
                decreases pieces.len() - i,
            {
                proof {
                    let next = all.take(i as int + 1);
                    assert(next.drop_last() == all.take(i as int));
                    assert(next.last() == pieces@[i as int]@);
                }
                extra.append("&");
                extra.append(string_of(&pieces[i]).as_str());
                i += 1;
            }
            proof {
                assert(all.take(pieces.len() as int) == all);
            }
            url.append(extra.as_str());
        }
        self.request(url.as_str(), Method::Post)
    }

    /// The request that starts a build of the job at `job_path` with the
    /// parameters of an earlier build, given as a query.
    ///
    /// Fails with `InvalidPath` where the path has no segment that is a name.
    pub fn rebuild(&self, job_path: &str, params: String) -> (res: Result<Request, ClientError>)
        ensures
            !valid_path(job_path@) ==> res == Err::<Request, ClientError>(ClientError::InvalidPath),
            valid_path(job_path@) ==> is_request(
                res,
                planned(
                    parsed_uri(rebuild_url(self.url@.text, path_segments(job_path@), params@)),
                    self.user@,
                    self.pswd@,
                    Method::Post,
                ),
            ),
    {
        let path = match to_job_segments(job_path) {
            Ok(path) => path,
            Err(e) => {
                return Err(e);
            },
        };
        let mut url = self.url.text.clone();
        url.append("/");
        url.append(path.render().as_str());
        url.append("buildWithParameters?delay=0sec");
        url.append(params.as_str());
        self.request(url.as_str(), Method::Post)
    }

    /// The request that removes the job at `job_path`.
    ///
    /// Fails with `InvalidPath` where the path has no segment that is a name.
    pub fn remove(self, job_path: &str) -> (res: Result<Request, ClientError>)
        ensures
            !valid_path(job_path@) ==> res == Err::<Request, ClientError>(ClientError::InvalidPath),
            valid_path(job_path@) ==> is_request(
                res,
                planned(
                    parsed_uri(job_url(self.url@.text, path_segments(job_path@))),
                    self.user@,
                    self.pswd@,
                    Method::Delete,
                ),
            ),
    {
        let path = match to_job_segments(job_path) {
            Ok(path) => path,
            Err(e) => {
                return Err(e);
            },
        };
        let mut url = self.url.text.clone();
        url.append("/");
        url.append(path.render().as_str());
        self.request(url.as_str(), Method::Delete)
    }

    /// The request that interrupts the build that `tree` names.
    ///
    /// Fails with `InvalidSignal` where `signal` names no signal.
    pub fn kill(&self, tree: &Tree, signal: String) -> (res: Result<Request, ClientError>)
        ensures
            match signal_named(signal@) {
                None => res == Err::<Request, ClientError>(ClientError::InvalidSignal),
                Some(s) => is_request(
                    res,
                    planned(
                        parsed_uri(kill_url(self.url@.text, tree.query@, s)),
                        self.user@,
                        self.pswd@,
                        Method::Post,
                    ),
                ),
            },
    {
        let signal = match Signal::from_str(signal.as_str()) {
            Ok(signal) => signal,
            Err(_) => {
                return Err(ClientError::InvalidSignal);
            },
        };
        let mut url = self.url.text.clone();
        url.append("/");
        url.append(tree.query.as_str());
        match signal {
            Signal::Hup => url.append("/stop"),
            Signal::Term => url.append("/term"),
            Signal::Kill => url.append("/kill"),
        }
        self.request(url.as_str(), Method::Post)
    }

    /// The request that puts the node that `tree` names in a state.
    pub fn set(&self, tree: &Tree, state: NodeState) -> (res: Result<Request, ClientError>)
        ensures
            is_request(
                res,
                planned(
                    parsed_uri(set_url(self.url@.text, tree.query@, state)),
                    self.user@,
                    self.pswd@,
                    Method::Post,
                ),
            ),
    {
        let mut url = self.url.text.clone();
        url.append(tree.query.as_str());
        match &state {
            NodeState::Disconnect { reason } => {
                if reason.as_str().is_empty() {
                    url.append("/doDisconnect");
                } else {
                    url.append("/doDisconnect?offlineMessage=");
                    url.append(percent_encode(reason.as_str()).as_str());
                }
            },
            NodeState::Connect => {
                url.append("/launchSlaveAgent");
            },
            NodeState::Offline { reason } => {
                if reason.as_str().is_empty() {
                    url.append("/toggleOffline");
                } else {
                    url.append("/toggleOffline?offlineMessage=");
                    url.append(percent_encode(reason.as_str()).as_str());
                }
            },
            NodeState::Online => {
                url.append("/toggleOffline");
            },
        }
        self.request(url.as_str(), Method::Post)
    }
}

} // verus!
