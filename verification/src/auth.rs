//! The session authenticator's decision logic: judging the login response
//! and extracting the session token.
//!
//! The login request itself is one outbound POST with form-encoded
//! credentials and redirect-following disabled; the caller performs it and
//! hands the outcome here. The token lives in the redirect response's
//! session header: its first semicolon-delimited attribute.

use vstd::prelude::*;

use crate::parse::SEMI;
use crate::scan::{find_in_range, first_idx, lemma_first_idx_at, subvec};
use crate::types::Error;

verus! {

/// How the one login request ended: not sent at all, or a response with a
/// status and possibly a session header.
pub enum LoginOutcome {
    NotSent,
    Response(u16, Option<Vec<u8>>),
}

/// The session token carried by a session header: everything before the
/// first ';', or the whole header value when there is none.
pub open spec fn token_of(header: Seq<u8>) -> Seq<u8> {
    header.subrange(0, first_idx(header, SEMI) as int)
}

/// Judge a login outcome: a redirect (302) response with a session header
/// yields its token; anything else is an authentication failure.
pub fn session_token(outcome: &LoginOutcome) -> (r: Result<Vec<u8>, Error>)
    ensures
        match outcome {
            LoginOutcome::NotSent => r == Err::<Vec<u8>, Error>(Error::AuthError),
            LoginOutcome::Response(status, header) => {
                if status != 302 {
                    r == Err::<Vec<u8>, Error>(Error::AuthError)
                } else {
                    match header {
                        None => r == Err::<Vec<u8>, Error>(Error::AuthError),
                        Some(h) => r matches Ok(t) && t@ == token_of(h@),
                    }
                }
            },
        },
{
    match outcome {
        LoginOutcome::NotSent => Err(Error::AuthError),
        LoginOutcome::Response(status, header) => {
            if *status != 302 {
                Err(Error::AuthError)
            } else {
                match header {
                    None => Err(Error::AuthError),
                    Some(h) => {
                        let end = find_in_range(h, 0, h.len(), SEMI);
                        proof {
                            lemma_first_idx_at(h@, SEMI, end as nat);
                        }
                        Ok(subvec(h, 0, end))
                    },
                }
            }
        },
    }
}

} // verus!
