use vstd::prelude::*;

verus! {

/// Message returned for every authorization value that does not carry a bearer token.
pub const PARSE_ERROR_MESSAGE: &'static str = "Authorization token must start with 'Bearer '";

/// The literal scheme marker that precedes a bearer token.
pub open spec fn bearer_prefix() -> Seq<char> {
    seq!['B', 'e', 'a', 'r', 'e', 'r', ' ']
}

/// A header value carries a token when it is the scheme marker followed by at
/// least one character.
pub open spec fn carries_bearer_token(header: Seq<char>) -> bool {
    header.len() > bearer_prefix().len() && header.subrange(0, bearer_prefix().len() as int)
        == bearer_prefix()
}

/// Extracts the token from an authorization value of the form `Bearer <token>`.
/// The scheme marker is case-sensitive and followed by exactly one space.
pub fn parse_token_from_header(authorization_token: &str) -> (r: Result<&str, &'static str>)
    ensures
        r is Ok <==> carries_bearer_token(authorization_token@),
        r matches Ok(token) ==> token@ == authorization_token@.subrange(
            bearer_prefix().len() as int,
            authorization_token@.len() as int,
        ),
        r matches Err(message) ==> message@ == PARSE_ERROR_MESSAGE@,
{
    let prefix = "Bearer ";
    proof {
        reveal_strlit("Bearer ");
    }
    assert(prefix@ =~= bearer_prefix());
    let n = authorization_token.unicode_len();
    if n < 8 {
        return Err(PARSE_ERROR_MESSAGE);
    }
    let mut i: usize = 0;
    while i < 7
        invariant
            0 <= i <= 7,
            n == authorization_token@.len(),
            n >= 8,
            prefix@ == bearer_prefix(),
            forall|j: int| 0 <= j < i ==> authorization_token@[j] == bearer_prefix()[j],
        decreases 7 - i,
    {
        if authorization_token.get_char(i) != prefix.get_char(i) {
            assert(authorization_token@.subrange(0, 7)[i as int] != bearer_prefix()[i as int]);
            return Err(PARSE_ERROR_MESSAGE);
        }
        i = i + 1;
    }
    assert(authorization_token@.subrange(0, 7) =~= bearer_prefix());
    Ok(authorization_token.substring_char(7, n))
}

} // verus!
