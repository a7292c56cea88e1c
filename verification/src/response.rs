use crate::error::ClientError;
use crate::text::text_eq;
use vstd::prelude::*;

verus! {

/// One step in reading a response body.
#[derive(Debug)]
pub enum Frame {
    /// A piece of the body.
    Data(Vec<u8>),
    /// A frame that carries no piece of the body.
    Other,
    /// The read failed.
    Failed,
}

/// One header of a response.
#[derive(Debug)]
pub struct Header {
    /// The header's name, in lower case.
    pub name: String,
    pub value: String,
}

/// A response as the transport delivered it: the status, the headers, and
/// the frames of the body up to its end or to the first failed read.
#[derive(Debug)]
pub struct Response {
    pub status: u16,
    pub headers: Vec<Header>,
    pub frames: Vec<Frame>,
}

/// The status with which the server says that a resource is absent.
pub const NOT_FOUND: u16 = 404;

/// The body that the frames carry, piece after piece, or `TransferError`
/// where a read failed.
pub open spec fn drained(frames: Seq<Frame>) -> Result<Seq<u8>, ClientError>
    decreases frames.len(),
{
    if frames.len() == 0 {
        Ok(Seq::<u8>::empty())
    } else {
        match drained(frames.drop_last()) {
            Ok(body) => match frames.last() {
                Frame::Data(piece) => Ok(body + piece@),
                Frame::Other => Ok(body),
                Frame::Failed => Err(ClientError::TransferError),
            },
            Err(e) => Err(e),
        }
    }
}

/// What collecting a response yields: `NotFound` for the status 404, else
/// what its frames carry.
pub open spec fn collected(status: u16, frames: Seq<Frame>) -> Result<Seq<u8>, ClientError> {
    if status == NOT_FOUND {
        Err(ClientError::NotFound)
    } else {
        drained(frames)
    }
}

/// Whether `res` is the body or the error that `expected` states.
pub open spec fn is_body(res: Result<Vec<u8>, ClientError>, expected: Result<Seq<u8>, ClientError>) -> bool {
    match res {
        Ok(body) => expected == Ok::<Seq<u8>, ClientError>(body@),
        Err(e) => expected == Err::<Seq<u8>, ClientError>(e),
    }
}

/// The value of the first header called `name`.
pub open spec fn header_value(headers: Seq<Header>, name: Seq<char>) -> Option<Seq<char>>
    decreases headers.len(),
{
    if headers.len() == 0 {
        None
    } else if headers[0].name@ == name {
        Some(headers[0].value@)
    } else {
        header_value(headers.drop_first(), name)
    }
}

/// Joins the pieces of a body in the order of their arrival.
///
/// Fails with `TransferError` where a read failed.
pub fn drain(frames: &Vec<Frame>) -> (res: Result<Vec<u8>, ClientError>)
    ensures
        is_body(res, drained(frames@)),
{
    let mut body: Vec<u8> = Vec::new();
    let mut i: usize = 0;
    while i < frames.len()
        invariant
            i <= frames.len(),
            drained(frames@.take(i as int)) == Ok::<Seq<u8>, ClientError>(body@),
        decreases frames.len() - i,
    {
        proof {
            let next = frames@.take(i as int + 1);
            assert(next.drop_last() == frames@.take(i as int));
            assert(next.last() == frames@[i as int]);
        }
        match &frames[i] {
            Frame::Data(piece) => {
                let ghost before = body@;
                let mut k: usize = 0;
                while k < piece.len()
                    invariant
                        k <= piece.len(),
                        body@ == before + piece@.take(k as int),
                    decreases piece.len() - k,
                {
                    body.push(piece[k]);
                    assert(piece@.take(k as int + 1) == piece@.take(k as int).push(piece@[k as int]));
                    k += 1;
                }
                assert(piece@.take(piece.len() as int) == piece@);
            },
            Frame::Other => {},
            Frame::Failed => {
                proof {
                    lemma_failed_stays(frames@, i as int + 1);
                }
                return Err(ClientError::TransferError);
            },
        }
        i += 1;
    }
    assert(frames@.take(frames.len() as int) == frames@);
    Ok(body)
}

/// Once a read has failed, what follows does not mend it.
proof fn lemma_failed_stays(frames: Seq<Frame>, n: int)
    requires
        0 <= n <= frames.len(),
        drained(frames.take(n)) is Err,
    ensures
        drained(frames) == drained(frames.take(n)),
    decreases frames.len(),
{
    if n == frames.len() {
        assert(frames.take(n) == frames);
    } else {
        assert(frames.drop_last().take(n) == frames.take(n));
        lemma_failed_stays(frames.drop_last(), n);
    }
}

/// Judges a response by its status alone.
///
/// Fails with `NotFound` for the status 404.
pub fn accept(status: u16) -> (res: Result<(), ClientError>)
    ensures
        res == if status == NOT_FOUND {
            Err::<(), ClientError>(ClientError::NotFound)
        } else {
            Ok::<(), ClientError>(())
        },
{
    if status == NOT_FOUND {
        Err(ClientError::NotFound)
    } else {
        Ok(())
    }
}

/// Collects the body of a response into one buffer.
///
/// Fails with `NotFound` for the status 404, whatever the body, and with
/// `TransferError` where a read failed.
pub fn collect(response: &Response) -> (res: Result<Vec<u8>, ClientError>)
    ensures
        is_body(res, collected(response.status, response.frames@)),
{
    match accept(response.status) {
        Ok(()) => drain(&response.frames),
        Err(e) => Err(e),
    }
}

impl Response {
    /// The value of the first header called `name`.
    pub fn header(&self, name: &str) -> (res: Option<&String>)
        ensures
            match res {
                Some(value) => header_value(self.headers@, name@) == Some(value@),
                None => header_value(self.headers@, name@) is None,
            },
    {
        let mut i: usize = 0;
        assert(self.headers@.skip(0) == self.headers@);
        while i < self.headers.len()
            invariant
                i <= self.headers.len(),
                header_value(self.headers@, name@) == header_value(
                    self.headers@.skip(i as int),
                    name@,
                ),
            decreases self.headers.len() - i,
        {
            proof {
                let rest = self.headers@.skip(i as int);
                assert(rest[0] == self.headers@[i as int]);
                assert(rest.drop_first() == self.headers@.skip(i as int + 1));
            }
            if text_eq(self.headers[i].name.as_str(), name) {
                return Some(&self.headers[i].value);
            }
            i += 1;
        }
        None
    }
}

} // verus!
