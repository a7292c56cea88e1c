use crate::error::ClientError;
use crate::text::{chars_of, find, lemma_search, number, occurs_in, parse_number, search};
use vstd::prelude::*;

verus! {

/// Which builds of a job are meant: one, or those from `start` up to but
/// without `end`.
#[derive(Clone, Copy, Debug, PartialEq, Eq, Structural)]
pub enum BuildParam {
    /// The builds from the first number up to, and without, the second.
    Range(u64, u64),
    /// The build with this number.
    Once(u64),
}

/// The sign of a range that leaves its end out.
pub open spec fn open_sign() -> Seq<char> {
    seq!['.', '.']
}

/// The sign of a range that takes its end in.
pub open spec fn closed_sign() -> Seq<char> {
    seq!['.', '.', '=']
}

/// The range that `token` writes with `sign` between its bounds, the end
/// as written.
pub open spec fn bounds(token: Seq<char>, sign: Seq<char>) -> Option<(u64, u64)> {
    let at = search(token, sign, 0);
    match (number(token.subrange(0, at)), number(token.subrange(at + sign.len(), token.len() as int))) {
        (Some(start), Some(end)) => Some((start, end)),
        _ => None,
    }
}

/// What a build selector selects. A selector with `..=` in it is a range
/// that takes its end in; any other with `..` in it is a range that leaves
/// its end out; the rest are single numbers. `None` where a bound is no
/// number, or the end taken in is the largest number there is.
pub open spec fn selected(token: Seq<char>) -> Option<BuildParam> {
    if occurs_in(token, closed_sign()) {
        match bounds(token, closed_sign()) {
            Some((start, end)) => if end < u64::MAX {
                Some(BuildParam::Range(start, (end + 1) as u64))
            } else {
                None
            },
            None => None,
        }
    } else if occurs_in(token, open_sign()) {
        match bounds(token, open_sign()) {
            Some((start, end)) => Some(BuildParam::Range(start, end)),
            None => None,
        }
    } else {
        match number(token) {
            Some(n) => Some(BuildParam::Once(n)),
            None => None,
        }
    }
}

/// Reads the bounds on either side of the sign that stands at `at`.
fn read_bounds(token: &Vec<char>, at: usize, width: usize) -> (res: Option<(u64, u64)>)
    requires
        at + width <= token.len(),
    ensures
        res == match (
            number(token@.subrange(0, at as int)),
            number(token@.subrange(at + width, token.len() as int)),
        ) {
            (Some(start), Some(end)) => Some((start, end)),
            _ => None,
        },
{
    let start = parse_number(token, 0, at);
    let end = parse_number(token, at + width, token.len());
    match (start, end) {
        (Some(start), Some(end)) => Some((start, end)),
        _ => None,
    }
}

impl BuildParam {
    /// Reads a build selector: a number, `start..end` or `start..=end`.
    ///
    /// Fails with `InvalidBuildSpec` where the token is none of these.
    pub fn from_str(s: &str) -> (res: Result<BuildParam, ClientError>)
        ensures
            match res {
                Ok(param) => selected(s@) == Some(param),
                Err(e) => e == ClientError::InvalidBuildSpec && selected(s@) is None,
            },
    {
        let token = chars_of(s);
        let closed: Vec<char> = vec!['.', '.', '='];
        let open: Vec<char> = vec!['.', '.'];
        proof {
            assert(closed@ == closed_sign());
            assert(open@ == open_sign());
            lemma_search(s@, closed_sign(), 0);
            lemma_search(s@, open_sign(), 0);
        }
        let found = match find(&token, &closed) {
            Some(at) => match read_bounds(&token, at, 3) {
                Some((start, end)) => if end < u64::MAX {
                    Some(BuildParam::Range(start, end + 1))
                } else {
                    None
                },
                None => None,
            },
            None => match find(&token, &open) {
                Some(at) => match read_bounds(&token, at, 2) {
                    Some((start, end)) => Some(BuildParam::Range(start, end)),
                    None => None,
                },
                None => {
                    assert(token@.subrange(0, token.len() as int) == token@);
                    match parse_number(&token, 0, token.len()) {
                        Some(n) => Some(BuildParam::Once(n)),
                        None => None,
                    }
                },
            },
        };
        match found {
            Some(param) => Ok(param),
            None => Err(ClientError::InvalidBuildSpec),
        }
    }
}

/// A range that is written with its start below its end, or not above the
/// end that it takes in, selects at least one build: its end lies above its
/// start.
pub proof fn lemma_range_selects(token: Seq<char>)
    requires
        selected(token) is Some,
        occurs_in(token, closed_sign()) ==> (bounds(token, closed_sign()) matches Some(written)
            ==> written.0 <= written.1),
        !occurs_in(token, closed_sign()) && occurs_in(token, open_sign()) ==> (bounds(
            token,
            open_sign(),
        ) matches Some(written) ==> written.0 < written.1),
    ensures
        selected(token) matches Some(BuildParam::Range(start, end)) ==> start < end,
{
}

} // verus!
