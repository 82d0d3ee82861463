//! Authentication: the one request that needs no token and gives one.

use crate::error::{presented, ApiAppError, ApiAppErrorView, AppError, AppErrorView};
use crate::handler::{Next, Progress, Reply};
use crate::jwt::{
    authenticated, clock_unreadable, decoded, encodable, is_presentable, issued,
    law_presented_token_is_let_through, token_text, ApiClaims, ApiJwt, ClaimsResponse,
    ClaimsResponseView, ClaimsView, DecodeError, UserDto, UserDtoView, TOKEN_LIFETIME_SECONDS,
};
use crate::primitives::unix_now;
use vstd::prelude::*;

verus! {

/// Handler of the requests that authenticate a user.
pub struct AuthenticateHandler;

/// The body that tells a user that the credentials were accepted.
pub open spec fn success(token: Seq<char>) -> ClaimsResponseView {
    ClaimsResponseView { state: "authenticate success"@, token }
}

/// The failure of a service that has accepted a user for whom no token can
/// be made on this machine.
pub open spec fn token_too_long() -> ApiAppErrorView {
    ApiAppErrorView::InternalError(AppErrorView::InternalError("token too long"@))
}

/// What a reply to a user that the service has accepted at the second `now`
/// holds: status 200, the word of success, and the token for the claims
/// issued at `now`. The token can be presented behind the word `Bearer`,
/// and decoding it gives these claims back up to their expiry.
pub open spec fn gives_token<V>(
    now: i64,
    user: UserDtoView,
    secret: Seq<u8>,
    next: Next<ClaimsResponse, V>,
) -> bool {
    &&& next matches Next::Respond(reply)
    &&& reply.status_of() == 200
    &&& reply matches Reply::Success(body)
    &&& body@ == success(token_text(issued(now, user), secret))
    &&& is_presentable(body@.token)
    &&& forall|then: i64|
        then <= now + TOKEN_LIFETIME_SECONDS ==> #[trigger] decoded(body@.token, secret, then)
            == Ok::<ClaimsView, DecodeError>(issued(now, user))
}

/// What follows for an authentication at the second `now`: a form with
/// errors is answered with them and the service is not run; a form without
/// is followed by the service; a user that the service accepts is answered
/// as `gives_token` says; a failure of the service is classified for
/// presentation.
pub open spec fn authenticated_next<V>(
    now: i64,
    progress: Progress<UserDto, V>,
    secret: Seq<u8>,
    next: Next<ClaimsResponse, V>,
) -> bool {
    match progress {
        Progress::FormChecked(Err(errors)) => next == Next::<ClaimsResponse, V>::Respond(
            Reply::InvalidForm(errors),
        ),
        Progress::FormChecked(Ok(_)) => next is Serve,
        Progress::Served(Ok(user)) => if encodable(issued(now, user@)) {
            gives_token(now, user@, secret, next)
        } else {
            next matches Next::Fail(e) && e@ == token_too_long()
        },
        Progress::Served(Err(error)) => next matches Next::Fail(e) && e@ == presented(error@),
    }
}

/// The service is asked for exactly where the form was checked and had no
/// errors: not after errors, and not again once it has returned.
pub proof fn law_authentication_serves_once<V>(
    now: i64,
    progress: Progress<UserDto, V>,
    secret: Seq<u8>,
    next: Next<ClaimsResponse, V>,
)
    requires
        authenticated_next(now, progress, secret, next),
    ensures
        next is Serve <==> progress matches Progress::FormChecked(Ok(_)),
{
}

/// A user that the service accepts, and for whom a token can be made, gets
/// the token of `encode` for the claims issued at that second, with status
/// 200; the token is not empty, and it leads back to the user's identifier
/// and name at every second up to the expiry, also through the
/// authorization header of a later request.
pub proof fn law_accepted_user_gets_a_token<V>(
    now: i64,
    user: UserDto,
    secret: Seq<u8>,
    next: Next<ClaimsResponse, V>,
    then: i64,
)
    requires
        now + TOKEN_LIFETIME_SECONDS <= i64::MAX,
        encodable(issued(now, user@)),
        authenticated_next(now, Progress::<UserDto, V>::Served(Ok(user)), secret, next),
        then <= now + TOKEN_LIFETIME_SECONDS,
    ensures
        next matches Next::Respond(Reply::Success(body)) && body@.state
            == "authenticate success"@ && body@.token == token_text(issued(now, user@), secret)
            && body@.token.len() > 0 && authenticated(
            Some("Bearer "@ + body@.token),
            secret,
            then,
        ) == Ok::<ClaimsView, ApiAppErrorView>(issued(now, user@)),
        issued(now, user@).user_id == user@.user_id,
        issued(now, user@).user_name == user@.user_name,
        issued(now, user@).exp == now + TOKEN_LIFETIME_SECONDS,
{
    let body = next->Respond_0->Success_0;
    assert(decoded(body@.token, secret, then) == Ok::<ClaimsView, DecodeError>(
        issued(now, user@),
    ));
    law_presented_token_is_let_through(body@.token, secret, then);
}

impl AuthenticateHandler {
    /// What is to be done next for an authentication at the second `now`.
    pub fn authenticate_at<V>(now: i64, progress: Progress<UserDto, V>, jwt: &ApiJwt) -> (next: Next<
        ClaimsResponse,
        V,
    >)
        requires
            now + TOKEN_LIFETIME_SECONDS <= i64::MAX,
        ensures
            authenticated_next(now, progress, jwt.secret(), next),
    {
        match progress {
            Progress::FormChecked(Err(errors)) => Next::Respond(Reply::InvalidForm(errors)),
            Progress::FormChecked(Ok(_)) => Next::Serve,
            Progress::Served(Ok(user)) => {
                let claims = ApiClaims::issue_at(now, &user);
                match jwt.try_encode(&claims) {
                    Some(token) => Next::Respond(
                        Reply::Success(ClaimsResponse::new("authenticate success", token.as_str())),
                    ),
                    None => Next::Fail(
                        ApiAppError::InternalError(
                            AppError::InternalError("token too long".to_owned()),
                        ),
                    ),
                }
            },
            Progress::Served(Err(error)) => Next::Fail(ApiAppError::from(error)),
        }
    }

    /// What is to be done next for an authentication now, by the machine's
    /// clock. The clock is read only for a user that the service has
    /// accepted. Where it cannot be read, the failure of `clock_unreadable`
    /// is the answer; else the outcome is that of `authenticate_at` for
    /// some second.
    pub fn authenticate<V>(progress: Progress<UserDto, V>, jwt: &ApiJwt) -> (next: Next<
        ClaimsResponse,
        V,
    >)
        ensures
            !(progress matches Progress::Served(Ok(_))) ==> authenticated_next(
                0,
                progress,
                jwt.secret(),
                next,
            ),
            progress matches Progress::Served(Ok(_)) ==> (next matches Next::Fail(e) && e@
                == clock_unreadable()) || exists|now: i64|
                now + TOKEN_LIFETIME_SECONDS <= i64::MAX && #[trigger] authenticated_next(
                    now,
                    progress,
                    jwt.secret(),
                    next,
                ),
    {
        match progress {
            Progress::Served(Ok(user)) => match unix_now() {
                Some(now) => {
                    let next = Self::authenticate_at(now, Progress::Served(Ok(user)), jwt);
                    assert(authenticated_next(now, progress, jwt.secret(), next));
                    next
                },
                None => Next::Fail(
                    ApiAppError::InternalError(
                        AppError::InternalError("clock unreadable".to_owned()),
                    ),
                ),
            },
            other => Self::authenticate_at(0, other, jwt),
        }
    }
}

} // verus!
