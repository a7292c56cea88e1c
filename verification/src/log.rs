use crate::error::ClientError;
use crate::jenkins::Tree;
use crate::response::{
    accept, collect, collected, header_value, is_body, Header, Response, NOT_FOUND,
};
use crate::text::{chars_of, decimal, decimal_string, number, parse_number};
use vstd::prelude::*;
use vstd::string::StringExecFns;

verus! {

/// How far a console log has been followed.
#[derive(Clone, Copy, Debug, PartialEq, Eq, Structural)]
pub struct LogCursor {
    /// How many bytes of the log were emitted.
    pub offset: usize,
    /// Whether the server said that no more is to come.
    pub finished: bool,
}

/// The size of the log as the response's `x-text-size` header reports it.
pub open spec fn reported_size(headers: Seq<Header>) -> Option<usize> {
    match header_value(headers, "x-text-size"@) {
        Some(value) => match number(value) {
            Some(n) => if n <= usize::MAX {
                Some(n as usize)
            } else {
                None
            },
            None => None,
        },
        None => None,
    }
}

/// Whether the response says, by an `x-more-data` header, that the log is
/// still growing.
pub open spec fn more_data(headers: Seq<Header>) -> bool {
    header_value(headers, "x-more-data"@) is Some
}

/// The cursor after a poll, and what the poll gave to emit.
pub struct Step {
    pub offset: usize,
    pub finished: bool,
    pub emitted: Result<Seq<u8>, ClientError>,
}

/// What one poll does to a cursor. A finished cursor stays as it is and
/// emits nothing. A response that says "not found", or one without a
/// readable size, or one whose body could not be read, ends the session with
/// an error: `NotFound`, `ProtocolError` or `TransferError`, the first of
/// them that applies. Else the body is emitted; where it is not empty the
/// cursor moves to the reported size; and the session ends where the
/// response does not announce more.
pub open spec fn step(offset: usize, finished: bool, response: Response) -> Step {
    if finished {
        Step { offset, finished, emitted: Ok(Seq::<u8>::empty()) }
    } else if response.status == NOT_FOUND {
        Step { offset, finished: true, emitted: Err(ClientError::NotFound) }
    } else {
        match reported_size(response.headers@) {
            None => Step { offset, finished: true, emitted: Err(ClientError::ProtocolError) },
            Some(size) => match collected(response.status, response.frames@) {
                Err(e) => Step { offset, finished: true, emitted: Err(e) },
                Ok(body) => Step {
                    offset: if body.len() > 0 {
                        size
                    } else {
                        offset
                    },
                    finished: !more_data(response.headers@),
                    emitted: Ok(body),
                },
            },
        }
    }
}

/// The query for the part of a build's console log from `offset` on.
pub open spec fn log_query(build: u32, offset: usize) -> Seq<char> {
    decimal(build as nat) + "/logText/progressiveText?start="@ + decimal(offset as nat)
}

impl LogCursor {
    /// A cursor at the start of a log.
    pub fn new() -> (cursor: Self)
        ensures
            cursor.offset == 0,
            !cursor.finished,
    {
        LogCursor { offset: 0, finished: false }
    }

    /// The query for the next part of the console log of build `build`.
    pub fn query(&self, build: u32) -> (tree: Tree)
        ensures
            tree.query@ == log_query(build, self.offset),
    {
        let mut query = decimal_string(build as u64);
        query.append("/logText/progressiveText?start=");
        query.append(decimal_string(self.offset as u64).as_str());
        Tree::new(query)
    }

    /// Takes the response to a poll: moves the cursor, and returns what is
    /// to be emitted.
    ///
    /// Fails with `NotFound` where the response has the status 404, with
    /// `ProtocolError` where it does not report the log's size, and with
    /// `TransferError` where reading its body failed; each ends the session.
    pub fn advance(&mut self, response: &Response) -> (res: Result<Vec<u8>, ClientError>)
        ensures
            final(self).offset == step(old(self).offset, old(self).finished, *response).offset,
            final(self).finished == step(old(self).offset, old(self).finished, *response).finished,
            is_body(res, step(old(self).offset, old(self).finished, *response).emitted),
    {
        if self.finished {
            return Ok(Vec::new());
        }
        if let Err(e) = accept(response.status) {
            self.finished = true;
            return Err(e);
        }
        let size = match response.header("x-text-size") {
            Some(value) => {
                let text = chars_of(value.as_str());
                assert(text@.subrange(0, text.len() as int) == text@);
                match parse_number(&text, 0, text.len()) {
                    Some(n) => if n <= usize::MAX as u64 {
                        Some(n as usize)
                    } else {
                        None
                    },
                    None => None,
                }
            },
            None => None,
        };
        let size = match size {
            Some(size) => size,
            None => {
                self.finished = true;
                return Err(ClientError::ProtocolError);
            },
        };
        let body = match collect(response) {
            Ok(body) => body,
            Err(e) => {
                self.finished = true;
                return Err(e);
            },
        };
        if body.len() > 0 {
            self.offset = size;
        }
        if response.header("x-more-data").is_none() {
            self.finished = true;
        }
        Ok(body)
    }
}

/// The cursor after a run of polls, and all that the run emitted.
pub struct Run {
    pub offset: usize,
    pub finished: bool,
    pub emitted: Seq<u8>,
}

/// What a run of polls does to a cursor, one response after the other. A
/// poll that fails emits nothing.
pub open spec fn run(offset: usize, finished: bool, responses: Seq<Response>) -> Run
    decreases responses.len(),
{
    if responses.len() == 0 {
        Run { offset, finished, emitted: Seq::<u8>::empty() }
    } else {
        let before = run(offset, finished, responses.drop_last());
        let last = step(before.offset, before.finished, responses.last());
        Run {
            offset: last.offset,
            finished: last.finished,
            emitted: match last.emitted {
                Ok(body) => before.emitted + body,
                Err(_) => before.emitted,
            },
        }
    }
}

/// Whether a response answers a poll at `offset` as a server does that holds
/// `log`, or a part of it that reaches to `offset` at least: it finds the
/// log, reports how much of it it holds, and its body is what it holds from
/// `offset` on.
pub open spec fn faithful(log: Seq<u8>, offset: usize, response: Response) -> bool {
    match reported_size(response.headers@) {
        Some(size) => offset <= size <= log.len() && collected(
            response.status,
            response.frames@,
        ) == Ok::<Seq<u8>, ClientError>(log.subrange(offset as int, size as int)),
        None => false,
    }
}

/// A response that says "not found" ends the session with `NotFound`,
/// whatever else it holds, so that a log that is absent is told from one
/// that has ended.
pub proof fn lemma_absent_log_is_an_error(offset: usize, response: Response)
    requires
        response.status == NOT_FOUND,
    ensures
        step(offset, false, response).emitted == Err::<Seq<u8>, ClientError>(
            ClientError::NotFound,
        ),
        step(offset, false, response).finished,
        step(offset, false, response).offset == offset,
{
}

/// Whether every response of a run answers its poll faithfully, as long as
/// the session lasts.
pub open spec fn faithful_run(
    log: Seq<u8>,
    offset: usize,
    finished: bool,
    responses: Seq<Response>,
) -> bool
    decreases responses.len(),
{
    responses.len() == 0 || {
        let before = run(offset, finished, responses.drop_last());
        &&& faithful_run(log, offset, finished, responses.drop_last())
        &&& before.finished || faithful(log, before.offset, responses.last())
    }
}

/// A poll that is answered faithfully emits the log from the cursor's old
/// place to its new one, and never moves the cursor back. Where the server
/// holds no more than was emitted, nothing is emitted and the cursor stays.
pub proof fn lemma_step_follows_log(log: Seq<u8>, offset: usize, response: Response)
    requires
        faithful(log, offset, response),
    ensures
        offset <= step(offset, false, response).offset <= log.len(),
        step(offset, false, response).emitted == Ok::<Seq<u8>, ClientError>(
            log.subrange(offset as int, step(offset, false, response).offset as int),
        ),
        reported_size(response.headers@) == Some(offset) ==> step(offset, false, response).offset
            == offset && step(offset, false, response).emitted == Ok::<Seq<u8>, ClientError>(
            Seq::<u8>::empty(),
        ),
{
    let size = reported_size(response.headers@)->0;
    let body = log.subrange(offset as int, size as int);
    if body.len() == 0 {
        assert(body == Seq::<u8>::empty());
        assert(log.subrange(offset as int, offset as int) == body);
    }
}

/// Over a run of polls that are answered faithfully the cursor never moves
/// back, and what was emitted, put together, is the log from where the
/// cursor began to where it ends: each byte once, and in its order.
pub proof fn lemma_run_follows_log(
    log: Seq<u8>,
    offset: usize,
    finished: bool,
    responses: Seq<Response>,
)
    requires
        offset <= log.len(),
        faithful_run(log, offset, finished, responses),
    ensures
        offset <= run(offset, finished, responses).offset <= log.len(),
        run(offset, finished, responses).emitted == log.subrange(
            offset as int,
            run(offset, finished, responses).offset as int,
        ),
        responses.len() > 0 ==> run(offset, finished, responses.drop_last()).offset <= run(
            offset,
            finished,
            responses,
        ).offset,
    decreases responses.len(),
{
    if responses.len() == 0 {
        assert(log.subrange(offset as int, offset as int) == Seq::<u8>::empty());
    } else {
        lemma_run_follows_log(log, offset, finished, responses.drop_last());
        let before = run(offset, finished, responses.drop_last());
        if !before.finished {
            lemma_step_follows_log(log, before.offset, responses.last());
            let last = step(before.offset, false, responses.last());
            assert(log.subrange(offset as int, before.offset as int) + log.subrange(
                before.offset as int,
                last.offset as int,
            ) == log.subrange(offset as int, last.offset as int));
        } else {
            assert(before.emitted + Seq::<u8>::empty() == before.emitted);
        }
    }
}

} // verus!
