//! Checking that the next token is the expected one.
use vstd::prelude::*;

use crate::lexer::{SrcToken, Token, same_token, token_text};

use super::error::Error;
use super::extract::{is_unexpected, unexpected};
use super::grammar::{expect_token, presult};

verus! {

/// Succeeds when `stream_token` is the token `match_token`; otherwise reports the token found
/// (or `UnexpectedEnd` when there is none).
pub fn matches(stream_token: &Option<SrcToken>, match_token: Token) -> (r: Result<(), Error>)
    ensures
        match *stream_token {
            Some((t, range)) => if same_token(t, match_token) {
                r is Ok
            } else {
                r matches Err(e) && is_unexpected(e, t, range, token_text(match_token))
            },
            None => r == Err::<(), Error>(Error::UnexpectedEnd),
        },
        presult(r) == expect_token(*stream_token, match_token),
{
    match stream_token {
        Some((token, range)) => {
            if token.same(&match_token) {
                Ok(())
            } else {
                Err(unexpected(token, range, match_token.to_text()))
            }
        },
        None => Err(Error::UnexpectedEnd),
    }
}

} // verus!
