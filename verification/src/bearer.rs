//! The authorization header of a request: which token it holds, and why
//! it may hold none.

use crate::error::{ApiAppError, ApiAppErrorView, ApiErrorInfo, ApiErrorInfoView};
use crate::jwt::{decode_error_message, DecodeError};
use crate::text::{
    after_first_word, chars_of, first_word, is_space, lemma_first_word_is_not_empty,
    lemma_skip_in_tail, lemma_skip_spaces_is, lemma_skip_word_is, second_word, skip_spaces_from,
    skip_word_from,
};
use vstd::prelude::*;
use vstd::string::{StrSliceExecFns, StringExecFns};

verus! {

/// Name of the header that carries the token.
pub const JWT_HEADER_KEY: &'static str = "Authorization";

/// Why a request was not let through.
#[derive(Debug, Clone, Copy, PartialEq, Eq, Structural)]
pub enum AuthFailure {
    /// The request has no authorization header.
    HeaderMissing,
    /// The header does not begin with the word `Bearer`.
    InvalidScheme,
    /// Nothing follows the word `Bearer`.
    TokenMissing,
    /// The token was not accepted.
    DecodeInvalid(DecodeError),
}

/// The value of an authorization header, if there is one.
pub open spec fn header_value(authorization: Option<&str>) -> Option<Seq<char>> {
    match authorization {
        Some(value) => Some(value@),
        None => None,
    }
}

/// What the authorization header leads to: the second word of its value,
/// where the first is `Bearer`.
pub open spec fn bearer_token(header: Option<Seq<char>>) -> Result<Seq<char>, AuthFailure> {
    match header {
        None => Err(AuthFailure::HeaderMissing),
        Some(value) => match first_word(value) {
            None => Err(AuthFailure::InvalidScheme),
            Some(scheme) => if scheme != "Bearer"@ {
                Err(AuthFailure::InvalidScheme)
            } else {
                match second_word(value) {
                    None => Err(AuthFailure::TokenMissing),
                    Some(token) => Ok(token),
                }
            },
        },
    }
}

/// The text that tells a client why its request was not let through.
pub open spec fn failure_message(f: AuthFailure) -> Seq<char> {
    match f {
        AuthFailure::HeaderMissing => "Authorization header not found."@,
        AuthFailure::InvalidScheme => "invalid schema type."@,
        AuthFailure::TokenMissing => "JWT token not found."@,
        AuthFailure::DecodeInvalid(e) => decode_error_message(e),
    }
}

/// The presentation error for a request that was not let through.
pub open spec fn not_authorized(f: AuthFailure) -> ApiAppErrorView {
    ApiAppErrorView::NotAuthorizeError(
        ApiErrorInfoView { state: "authorization error"@, message: failure_message(f) },
    )
}

/// A request is let through only with the word `Bearer` and a token behind
/// it; what is missing decides the failure.
pub proof fn law_header_failures(header: Option<Seq<char>>)
    ensures
        header is None ==> bearer_token(header) == Err::<Seq<char>, AuthFailure>(
            AuthFailure::HeaderMissing,
        ),
        header is Some && first_word(header->0) != Some("Bearer"@) ==> bearer_token(header) == Err::<
            Seq<char>,
            AuthFailure,
        >(AuthFailure::InvalidScheme),
        header is Some && first_word(header->0) == Some("Bearer"@) && second_word(header->0)
            is None ==> bearer_token(header) == Err::<Seq<char>, AuthFailure>(
            AuthFailure::TokenMissing,
        ),
        bearer_token(header) is Ok ==> header is Some && first_word(header->0) == Some("Bearer"@)
            && second_word(header->0) == Some(bearer_token(header)->Ok_0) && bearer_token(
            header,
        )->Ok_0.len() > 0,
{
    if header is Some && second_word(header->0) is Some {
        let rest = after_first_word(header->0);
        lemma_first_word_is_not_empty(rest);
    }
}

/// A text without white space, put behind the word `Bearer` and one blank,
/// is the token that the header leads to.
pub proof fn law_bearer_header_gives_its_token(token: Seq<char>)
    requires
        token.len() > 0,
        forall|i: int| 0 <= i < token.len() ==> !is_space(#[trigger] token[i]),
    ensures
        bearer_token(Some("Bearer "@ + token)) == Ok::<Seq<char>, AuthFailure>(token),
{
    reveal_strlit("Bearer ");
    reveal_strlit("Bearer");
    let value = "Bearer "@ + token;
    assert(value.len() == 7 + token.len());
    assert forall|k: int| 0 <= k < 6 implies !is_space(#[trigger] value[k]) by {
        assert(value[k] == "Bearer "@[k]);
    }
    assert(value[6] == ' ');
    lemma_skip_spaces_is(value, 0, 0);
    lemma_skip_word_is(value, 0, 6);
    assert(value.subrange(0, 6) =~= "Bearer"@);
    let rest = value.skip(6);
    assert(rest[0] == value[6]);
    assert forall|k: int| 1 <= k < rest.len() implies !is_space(#[trigger] rest[k]) by {
        assert(rest[k] == token[k - 1]);
    }
    lemma_skip_spaces_is(rest, 0, 1);
    lemma_skip_word_is(rest, 1, rest.len() as int);
    assert(rest.subrange(1, rest.len() as int) =~= token);
}

impl AuthFailure {
    /// The text that tells a client why its request was not let through.
    pub fn message(&self) -> (text: String)
        ensures
            text@ == failure_message(*self),
    {
        match self {
            AuthFailure::HeaderMissing => "Authorization header not found.".to_owned(),
            AuthFailure::InvalidScheme => "invalid schema type.".to_owned(),
            AuthFailure::TokenMissing => "JWT token not found.".to_owned(),
            AuthFailure::DecodeInvalid(e) => e.message(),
        }
    }

    /// The presentation error for this failure: always the one that is
    /// answered with status 401.
    pub fn into_error(self) -> (error: ApiAppError)
        ensures
            error@ == not_authorized(self),
    {
        let message = self.message();
        ApiAppError::NotAuthorizeError(ApiErrorInfo::new("authorization error", message.as_str()))
    }
}

/// The token in the value of an authorization header: the value is split at
/// white space, its first word has to be `Bearer`, its second word is the
/// token, and what follows is not looked at.
pub fn extract_token(authorization: Option<&str>) -> (r: Result<String, AuthFailure>)
    ensures
        match r {
            Ok(token) => bearer_token(header_value(authorization)) == Ok::<
                Seq<char>,
                AuthFailure,
            >(token@),
            Err(f) => bearer_token(header_value(authorization)) == Err::<Seq<char>, AuthFailure>(
                f,
            ),
        },
{
    let value = match authorization {
        Some(value) => value,
        None => {
            return Err(AuthFailure::HeaderMissing);
        },
    };
    let chars = chars_of(value);
    let scheme_from = skip_spaces_from(&chars, 0);
    if scheme_from >= chars.len() {
        return Err(AuthFailure::InvalidScheme);
    }
    let scheme_to = skip_word_from(&chars, scheme_from);
    let scheme = value.substring_char(scheme_from, scheme_to);
    if String::from_str(scheme) != String::from_str("Bearer") {
        return Err(AuthFailure::InvalidScheme);
    }
    let token_from = skip_spaces_from(&chars, scheme_to);
    proof {
        lemma_skip_in_tail(value@, scheme_to as int, 0);
    }
    if token_from >= chars.len() {
        return Err(AuthFailure::TokenMissing);
    }
    let token_to = skip_word_from(&chars, token_from);
    let token = value.substring_char(token_from, token_to);
    proof {
        let rest = value@.skip(scheme_to as int);
        lemma_skip_in_tail(value@, scheme_to as int, token_from - scheme_to);
        assert(rest.subrange(token_from - scheme_to, token_to - scheme_to) =~= value@.subrange(
            token_from as int,
            token_to as int,
        ));
    }
    Ok(token.to_owned())
}

} // verus!
