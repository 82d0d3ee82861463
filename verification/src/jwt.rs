//! Tokens: the claims that one carries, how it is signed and checked, and
//! how a request's authorization header leads to the claims.

use crate::bearer::{
    bearer_token, extract_token, header_value, law_bearer_header_gives_its_token, not_authorized,
    AuthFailure,
};
use crate::bytes::same_bytes;
use crate::error::{body_of, status_of, ApiAppError, ApiAppErrorView, AppError, AppErrorView};
use crate::payload::{
    lemma_payload_claims_of_payload, payload_bytes, payload_claims, read_payload, write_payload,
};
use crate::primitives::{
    base64url_bytes, base64url_decode, base64url_encode, base64url_fits, base64url_text,
    compute_hmac_sha256, hmac_sha256, is_base64url_char, unix_now,
};
use crate::text::{chars_of, is_space};
use crate::token::{find_dot, has_three_parts, lemma_parts_of_joined, signed_part, token_parts};
use vstd::prelude::*;
use vstd::slice::slice_to_vec;
use vstd::string::{StrSliceExecFns, StringExecFns, StringSliceAdditionalSpecFns};
use vstd::utf8::encode_utf8;

verus! {

/// Seconds between the issue of a token and its expiry.
pub const TOKEN_LIFETIME_SECONDS: i64 = 300;

/// The `sub` claim of every token that this service issues.
pub const TOKEN_SUBJECT: &'static str = "M.Furukawa";

/// Body of the reply to a successful authentication.
#[derive(Debug, Clone)]
pub struct ClaimsResponse {
    pub state: String,
    pub token: String,
}

/// Mathematical value of a [`ClaimsResponse`].
pub struct ClaimsResponseView {
    pub state: Seq<char>,
    pub token: Seq<char>,
}

impl View for ClaimsResponse {
    type V = ClaimsResponseView;

    open spec fn view(&self) -> ClaimsResponseView {
        ClaimsResponseView { state: self.state@, token: self.token@ }
    }
}

impl ClaimsResponse {
    pub fn new(state: &str, token: &str) -> (response: Self)
        ensures
            response@ == (ClaimsResponseView { state: state@, token: token@ }),
    {
        Self { state: state.to_owned(), token: token.to_owned() }
    }
}

/// The user that the service layer has authenticated.
#[derive(Debug, Clone)]
pub struct UserDto {
    pub user_id: String,
    pub user_name: String,
}

/// Mathematical value of a [`UserDto`].
pub struct UserDtoView {
    pub user_id: Seq<char>,
    pub user_name: Seq<char>,
}

impl View for UserDto {
    type V = UserDtoView;

    open spec fn view(&self) -> UserDtoView {
        UserDtoView { user_id: self.user_id@, user_name: self.user_name@ }
    }
}

/// The claims of a token: who it was issued to, when, and until when it
/// holds. A value of this type always expires after it was issued.
#[derive(Debug)]
pub struct ApiClaims {
    iat: i64,
    exp: i64,
    sub: String,
    user_id: String,
    user_name: String,
}

/// Mathematical value of an [`ApiClaims`].
pub struct ClaimsView {
    pub iat: i64,
    pub exp: i64,
    pub sub: Seq<char>,
    pub user_id: Seq<char>,
    pub user_name: Seq<char>,
}

impl ClaimsView {
    /// What every [`ApiClaims`] satisfies: it expires after its issue.
    pub open spec fn valid(self) -> bool {
        self.iat < self.exp
    }
}

impl View for ApiClaims {
    type V = ClaimsView;

    closed spec fn view(&self) -> ClaimsView {
        ClaimsView {
            iat: self.iat,
            exp: self.exp,
            sub: self.sub@,
            user_id: self.user_id@,
            user_name: self.user_name@,
        }
    }
}

/// The claims issued to `user` at the second `now`.
pub open spec fn issued(now: i64, user: UserDtoView) -> ClaimsView
    recommends
        now + TOKEN_LIFETIME_SECONDS <= i64::MAX,
{
    ClaimsView {
        iat: now,
        exp: (now + TOKEN_LIFETIME_SECONDS) as i64,
        sub: TOKEN_SUBJECT@,
        user_id: user.user_id,
        user_name: user.user_name,
    }
}

impl ApiClaims {
    #[verifier::type_invariant]
    spec fn expires_after_issue(&self) -> bool {
        self.iat < self.exp
    }

    /// Claims from their five members.
    pub(crate) fn from_parts(
        iat: i64,
        exp: i64,
        sub: String,
        user_id: String,
        user_name: String,
    ) -> (claims: Self)
        requires
            iat < exp,
        ensures
            claims@ == (ClaimsView {
                iat,
                exp,
                sub: sub@,
                user_id: user_id@,
                user_name: user_name@,
            }),
    {
        Self { iat, exp, sub, user_id, user_name }
    }

    /// The claims issued to `user` at the second `now`: they hold for
    /// `TOKEN_LIFETIME_SECONDS` from then on.
    pub fn issue_at(now: i64, user: &UserDto) -> (claims: Self)
        requires
            now + TOKEN_LIFETIME_SECONDS <= i64::MAX,
        ensures
            claims@ == issued(now, user@),
    {
        Self {
            iat: now,
            exp: now + TOKEN_LIFETIME_SECONDS,
            sub: TOKEN_SUBJECT.to_owned(),
            user_id: user.user_id.clone(),
            user_name: user.user_name.clone(),
        }
    }

    /// The claims issued to `user` now, by the machine's clock, or `None`
    /// where the clock cannot be read. Whatever the clock says, claims that
    /// are given are those of `issue_at` for some second of issue.
    pub fn generate(user: &UserDto) -> (r: Option<Self>)
        ensures
            r matches Some(claims) ==> claims@ == issued(claims@.iat, user@) && claims@.exp
                == claims@.iat + TOKEN_LIFETIME_SECONDS,
    {
        let now = unix_now()?;
        Some(Self::issue_at(now, user))
    }

    /// Second of issue, counted from the start of 1970.
    pub fn issued_at(&self) -> (iat: i64)
        ensures
            iat == self@.iat,
    {
        self.iat
    }

    /// First second at which the claims hold no more is the one after this.
    pub fn expires_at(&self) -> (exp: i64)
        ensures
            exp == self@.exp,
            self@.iat < exp,
    {
        proof {
            use_type_invariant(self);
        }
        self.exp
    }

    /// Who issued the token.
    pub fn subject(&self) -> (sub: &str)
        ensures
            sub@ == self@.sub,
    {
        self.sub.as_str()
    }

    /// The user's identifier.
    pub fn user_id(&self) -> (user_id: &str)
        ensures
            user_id@ == self@.user_id,
    {
        self.user_id.as_str()
    }

    /// The user's name.
    pub fn user_name(&self) -> (user_name: &str)
        ensures
            user_name@ == self@.user_name,
    {
        self.user_name.as_str()
    }

    /// Whether the claims hold no more at the second `now`.
    pub fn is_expired(&self, now: i64) -> (expired: bool)
        ensures
            expired == (now > self@.exp),
    {
        now > self.exp
    }
}

/// Why a token was not accepted.
#[derive(Debug, Clone, Copy, PartialEq, Eq, Structural)]
pub enum DecodeError {
    /// The token is not of three parts, or a part is not what a token of
    /// this service holds there.
    InvalidToken,
    /// The claims hold no more.
    ExpiredSignature,
    /// The signature is not the one that the secret gives.
    InvalidSignature,
}

/// The header part of every token: HMAC with SHA-256, type JWT.
pub open spec fn header_bytes() -> Seq<u8> {
    "{\"typ\":\"JWT\",\"alg\":\"HS256\"}".spec_bytes()
}

/// The part of a token that is signed: header and payload in base64, with
/// a dot between them.
pub open spec fn signing_text(payload: Seq<u8>) -> Seq<char> {
    base64url_text(header_bytes()) + seq!['.'] + base64url_text(payload)
}

/// The token that carries the claims `c`, signed with `secret`.
pub open spec fn token_text(c: ClaimsView, secret: Seq<u8>) -> Seq<char> {
    let signed = signing_text(payload_bytes(c));
    signed + seq!['.'] + base64url_text(hmac_sha256(secret, encode_utf8(signed)))
}

/// Whether a token for the claims `c` can be made on this machine: the
/// base64 text of the payload has to fit in memory.
pub open spec fn encodable(c: ClaimsView) -> bool {
    base64url_fits(payload_bytes(c).len())
}

/// The valid claims that the token `t` carries, whoever signed it. `None`
/// where `t` is not of three parts, the first is not the header of this
/// service, or the second is not the payload of valid claims.
pub open spec fn carried_claims(t: Seq<char>) -> Option<ClaimsView> {
    if !has_three_parts(t) {
        None
    } else if base64url_bytes(token_parts(t).header) != Some(header_bytes()) {
        None
    } else {
        match base64url_bytes(token_parts(t).payload) {
            None => None,
            Some(bytes) => payload_claims(bytes),
        }
    }
}

/// Whether the third part of `t` is the signature that `secret` gives to
/// the first two.
pub open spec fn is_signed_with(t: Seq<char>, secret: Seq<u8>) -> bool {
    has_three_parts(t) && base64url_bytes(token_parts(t).signature) == Some(
        hmac_sha256(secret, encode_utf8(signed_part(t))),
    )
}

/// What decoding the token `t` at the second `now` gives, with `secret` to
/// check the signature: the claims that it carries, where they still hold
/// and the signature is right. The expiry is looked at before the signature.
pub open spec fn decoded(t: Seq<char>, secret: Seq<u8>, now: i64) -> Result<
    ClaimsView,
    DecodeError,
> {
    match carried_claims(t) {
        None => Err(DecodeError::InvalidToken),
        Some(c) => if now > c.exp {
            Err(DecodeError::ExpiredSignature)
        } else if !is_signed_with(t, secret) {
            Err(DecodeError::InvalidSignature)
        } else {
            Ok(c)
        },
    }
}

/// The value of the outcome of a decoding.
pub open spec fn claims_outcome(r: Result<ApiClaims, DecodeError>) -> Result<
    ClaimsView,
    DecodeError,
> {
    match r {
        Ok(claims) => Ok(claims@),
        Err(e) => Err(e),
    }
}

/// The text that tells a client why its token was not accepted.
pub open spec fn decode_error_message(e: DecodeError) -> Seq<char> {
    match e {
        DecodeError::InvalidToken => "InvalidToken"@,
        DecodeError::ExpiredSignature => "ExpiredSignature"@,
        DecodeError::InvalidSignature => "InvalidSignature"@,
    }
}

/// What a request with the authorization header `header` leads to at the
/// second `now`: the claims of its token, or the error of the first step
/// that fails.
pub open spec fn authenticated(header: Option<Seq<char>>, secret: Seq<u8>, now: i64) -> Result<
    ClaimsView,
    ApiAppErrorView,
> {
    match bearer_token(header) {
        Err(f) => Err(not_authorized(f)),
        Ok(token) => match decoded(token, secret, now) {
            Err(e) => Err(not_authorized(AuthFailure::DecodeInvalid(e))),
            Ok(c) => Ok(c),
        },
    }
}

/// The value of the outcome of an authentication.
pub open spec fn request_outcome(r: Result<ApiClaims, ApiAppError>) -> Result<
    ClaimsView,
    ApiAppErrorView,
> {
    match r {
        Ok(claims) => Ok(claims@),
        Err(e) => Err(e@),
    }
}

/// The failure of a request that can be judged only by the clock, where the
/// clock cannot be read.
pub open spec fn clock_unreadable() -> ApiAppErrorView {
    ApiAppErrorView::InternalError(AppErrorView::InternalError("clock unreadable"@))
}

/// Whether the clock decides on a request with the authorization header
/// `header`: it holds a token, and the token carries claims.
pub open spec fn needs_clock(header: Option<Seq<char>>) -> bool {
    bearer_token(header) is Ok && carried_claims(bearer_token(header)->Ok_0) is Some
}

/// Whether a text can be put behind the word `Bearer` in a header: it is
/// not empty and holds no white space.
pub open spec fn is_presentable(token: Seq<char>) -> bool {
    token.len() > 0 && forall|i: int| 0 <= i < token.len() ==> !is_space(#[trigger] token[i])
}

/// A token that decodes is let through where it is presented behind the
/// word `Bearer`, with the claims that it decodes to.
pub proof fn law_presented_token_is_let_through(token: Seq<char>, secret: Seq<u8>, now: i64)
    requires
        is_presentable(token),
        decoded(token, secret, now) is Ok,
    ensures
        authenticated(Some("Bearer "@ + token), secret, now) == Ok::<ClaimsView, ApiAppErrorView>(
            decoded(token, secret, now)->Ok_0,
        ),
{
    law_bearer_header_gives_its_token(token);
}

/// A token whose claims hold no more is refused as expired, whatever its
/// signature is and whatever secret it is checked with.
pub proof fn law_expired_token_is_refused(t: Seq<char>, secret: Seq<u8>, now: i64)
    requires
        carried_claims(t) is Some,
        now > carried_claims(t)->0.exp,
    ensures
        decoded(t, secret, now) == Err::<ClaimsView, DecodeError>(DecodeError::ExpiredSignature),
{
}

/// A token is accepted only with the claims that it carries, only while
/// they hold, and only with the signature that the secret gives.
pub proof fn law_accepted_token_is_signed(t: Seq<char>, secret: Seq<u8>, now: i64)
    requires
        decoded(t, secret, now) is Ok,
    ensures
        carried_claims(t) == Some(decoded(t, secret, now)->Ok_0),
        now <= decoded(t, secret, now)->Ok_0.exp,
        decoded(t, secret, now)->Ok_0.valid(),
        is_signed_with(t, secret),
{
    let c = carried_claims(t)->0;
    let bytes = base64url_bytes(token_parts(t).payload)->0;
    assert(payload_claims(bytes) == Some(c));
}

/// Every request that is not let through, whatever it fails on, is answered
/// with status 401 and the category word `authorization error`.
pub proof fn law_refusal_is_unauthorized(
    header: Option<Seq<char>>,
    secret: Seq<u8>,
    now: i64,
)
    requires
        authenticated(header, secret, now) is Err,
    ensures
        status_of(authenticated(header, secret, now)->Err_0) == 401,
        body_of(authenticated(header, secret, now)->Err_0).state == "authorization error"@,
{
}

impl DecodeError {
    /// The text that tells a client why its token was not accepted.
    pub fn message(&self) -> (text: String)
        ensures
            text@ == decode_error_message(*self),
    {
        match self {
            DecodeError::InvalidToken => "InvalidToken".to_owned(),
            DecodeError::ExpiredSignature => "ExpiredSignature".to_owned(),
            DecodeError::InvalidSignature => "InvalidSignature".to_owned(),
        }
    }
}

/// Signs tokens and checks them, with one secret.
pub struct ApiJwt {
    secret: Vec<u8>,
}

impl ApiJwt {
    /// The secret that signs and checks.
    pub closed spec fn secret(&self) -> Seq<u8> {
        self.secret@
    }

    /// A codec for the secret `secret`.
    pub fn new(secret: &[u8]) -> (jwt: Self)
        ensures
            jwt.secret() == secret@,
    {
        Self { secret: slice_to_vec(secret) }
    }

    /// The token for `claims`. It can be presented behind the word
    /// `Bearer`, and decoding it with the same secret gives the claims back
    /// for as long as they hold.
    pub fn encode(&self, claims: &ApiClaims) -> (token: String)
        requires
            encodable(claims@),
        ensures
            token@ == token_text(claims@, self.secret()),
            is_presentable(token@),
            forall|now: i64|
                now <= claims@.exp ==> #[trigger] decoded(token@, self.secret(), now) == Ok::<
                    ClaimsView,
                    DecodeError,
                >(claims@),
    {
        proof {
            use_type_invariant(claims);
        }
        let payload = write_payload(claims);
        self.sign(payload.as_slice(), Ghost(claims@))
    }

    /// The token for `claims`, or `None` where none can be made on this
    /// machine.
    pub fn try_encode(&self, claims: &ApiClaims) -> (r: Option<String>)
        ensures
            match r {
                Some(token) => encodable(claims@) && token@ == token_text(
                    claims@,
                    self.secret(),
                ) && is_presentable(token@) && forall|now: i64|
                    now <= claims@.exp ==> #[trigger] decoded(token@, self.secret(), now) == Ok::<
                        ClaimsView,
                        DecodeError,
                    >(claims@),
                None => !encodable(claims@),
            },
    {
        proof {
            use_type_invariant(claims);
        }
        let payload = write_payload(claims);
        if payload.len() / 3 > (isize::MAX as usize - 3) / 4 {
            return None;
        }
        Some(self.sign(payload.as_slice(), Ghost(claims@)))
    }

    /// Puts header, payload and signature together.
    fn sign(&self, payload: &[u8], Ghost(c): Ghost<ClaimsView>) -> (token: String)
        requires
            payload@ == payload_bytes(c),
            c.valid(),
            base64url_fits(payload@.len()),
        ensures
            token@ == token_text(c, self.secret()),
            is_presentable(token@),
            forall|now: i64|
                now <= c.exp ==> #[trigger] decoded(token@, self.secret(), now) == Ok::<
                    ClaimsView,
                    DecodeError,
                >(c),
    {
        proof {
            lemma_header_length();
        }
        let header_text = base64url_encode(header());
        let payload_text = base64url_encode(payload);
        let mut token = header_text;
        token.append(".");
        token.append(payload_text.as_str());
        let tag = compute_hmac_sha256(self.secret.as_slice(), token.as_str().as_bytes());
        let signature = base64url_encode(tag.as_slice());
        let ghost signed = token@;
        token.append(".");
        token.append(signature.as_str());
        proof {
            reveal_strlit(".");
            assert("."@ =~= seq!['.']);
            let h = base64url_text(header_bytes());
            let p = base64url_text(payload@);
            let s = signature@;
            assert(signed =~= signing_text(payload@));
            assert(token@ =~= h + seq!['.'] + p + seq!['.'] + s);
            lemma_parts_of_joined(h, p, s);
            lemma_payload_claims_of_payload(c);
            assert(carried_claims(token@) == Some(c));
            assert(is_signed_with(token@, self.secret()));
            assert forall|i: int| 0 <= i < token@.len() implies !is_space(
                #[trigger] token@[i],
            ) by {
                let at = token@[i];
                assert(at == '.' || is_base64url_char(at)) by {
                    if i < h.len() {
                        assert(at == h[i]);
                    } else if i == h.len() {
                    } else if i < h.len() + 1 + p.len() {
                        assert(at == p[i - h.len() - 1]);
                    } else if i == h.len() + 1 + p.len() {
                    } else {
                        assert(at == s[i - h.len() - p.len() - 2]);
                    }
                }
            }
        }
        token
    }

    /// Decodes `token` at the second `now`: splits it at its two dots,
    /// reads header and payload, looks at the expiry and then checks the
    /// signature against the secret.
    pub fn decode_at(&self, token: &str, now: i64) -> (r: Result<ApiClaims, DecodeError>)
        ensures
            claims_outcome(r) == decoded(token@, self.secret(), now),
    {
        match read_carried_claims(token) {
            Some(carried) => self.check_carried(token, carried, now),
            None => Err(DecodeError::InvalidToken),
        }
    }

    /// Decodes `token` now, by the machine's clock. A token that carries no
    /// claims is refused without a look at the clock. For any other the
    /// result is `None` where the clock cannot be read, and else that of
    /// `decode_at` for some second.
    pub fn decode_jwt_token(&self, token: &str) -> (r: Option<Result<ApiClaims, DecodeError>>)
        ensures
            carried_claims(token@) is None ==> r == Some(
                Err::<ApiClaims, DecodeError>(DecodeError::InvalidToken),
            ),
            r matches Some(outcome) ==> exists|now: i64|
                claims_outcome(outcome) == #[trigger] decoded(token@, self.secret(), now),
    {
        let carried = match read_carried_claims(token) {
            Some(carried) => carried,
            None => {
                assert(decoded(token@, self.secret(), 0) == Err::<ClaimsView, DecodeError>(
                    DecodeError::InvalidToken,
                ));
                return Some(Err(DecodeError::InvalidToken));
            },
        };
        let now = unix_now()?;
        let outcome = self.check_carried(token, carried, now);
        assert(claims_outcome(outcome) == decoded(token@, self.secret(), now));
        Some(outcome)
    }

    /// Looks at the expiry of the claims that `token` carries and then
    /// checks its signature.
    fn check_carried(&self, token: &str, carried: (ApiClaims, usize, usize), now: i64) -> (r:
        Result<ApiClaims, DecodeError>)
        requires
            carried_claims(token@) == Some(carried.0@),
            has_three_parts(token@),
            carried.1 < carried.2 == token@.len(),
            signed_part(token@) == token@.subrange(0, carried.1 as int),
            token_parts(token@).signature == token@.subrange(
                carried.1 + 1,
                token@.len() as int,
            ),
        ensures
            claims_outcome(r) == decoded(token@, self.secret(), now),
    {
        let (claims, second, end) = carried;
        if claims.is_expired(now) {
            return Err(DecodeError::ExpiredSignature);
        }
        let signed = token.substring_char(0, second);
        let tag = compute_hmac_sha256(self.secret.as_slice(), signed.as_bytes());
        match base64url_decode(token.substring_char(second + 1, end)) {
            Some(given) => if same_bytes(given.as_slice(), tag.as_slice()) {
                Ok(claims)
            } else {
                Err(DecodeError::InvalidSignature)
            },
            None => Err(DecodeError::InvalidSignature),
        }
    }

    /// The token that the authorization header holds, or the error that is
    /// answered with status 401.
    pub fn decode_header(&self, authorization: Option<&str>) -> (r: Result<String, ApiAppError>)
        ensures
            match r {
                Ok(token) => bearer_token(header_value(authorization)) == Ok::<
                    Seq<char>,
                    AuthFailure,
                >(token@),
                Err(error) => bearer_token(header_value(authorization)) is Err && error@
                    == not_authorized(bearer_token(header_value(authorization))->Err_0),
            },
    {
        match extract_token(authorization) {
            Ok(token) => Ok(token),
            Err(failure) => Err(failure.into_error()),
        }
    }
}

/// Reads the claims that `token` carries, and finds its second dot and its
/// end.
fn read_carried_claims(token: &str) -> (r: Option<(ApiClaims, usize, usize)>)
    ensures
        match r {
            Some((claims, second, end)) => {
                &&& carried_claims(token@) == Some(claims@)
                &&& has_three_parts(token@)
                &&& second < end == token@.len()
                &&& signed_part(token@) == token@.subrange(0, second as int)
                &&& token_parts(token@).signature == token@.subrange(
                    second + 1,
                    token@.len() as int,
                )
            },
            None => carried_claims(token@) is None,
        },
{
    let chars = chars_of(token);
    let first = find_dot(&chars, 0);
    if first >= chars.len() {
        return None;
    }
    let second = find_dot(&chars, first + 1);
    if second >= chars.len() || find_dot(&chars, second + 1) < chars.len() {
        return None;
    }
    let header = base64url_decode(token.substring_char(0, first))?;
    if !same_bytes(header.as_slice(), self::header()) {
        return None;
    }
    let payload = base64url_decode(token.substring_char(first + 1, second))?;
    let claims = read_payload(payload.as_slice())?;
    Some((claims, second, chars.len()))
}

/// The header part of every token.
fn header() -> (bytes: &'static [u8])
    ensures
        bytes@ == header_bytes(),
{
    "{\"typ\":\"JWT\",\"alg\":\"HS256\"}".as_bytes()
}

/// The header of a token and a signature are short enough for base64.
proof fn lemma_header_length()
    ensures
        base64url_fits(header_bytes().len()),
        base64url_fits(32),
{
    broadcast use vstd::string::is_ascii_spec_bytes;

    reveal_strlit("{\"typ\":\"JWT\",\"alg\":\"HS256\"}");
    assert(vstd::string::is_ascii("{\"typ\":\"JWT\",\"alg\":\"HS256\"}"));
}

impl ApiClaims {
    /// The claims of the request whose authorization header is given, at
    /// the second `now`: the token is taken from the header and decoded,
    /// and the first failure is what comes back.
    pub fn from_request_at(authorization: Option<&str>, decoder: &ApiJwt, now: i64) -> (r: Result<
        ApiClaims,
        ApiAppError,
    >)
        ensures
            request_outcome(r) == authenticated(header_value(authorization), decoder.secret(), now),
    {
        let token = match decoder.decode_header(authorization) {
            Ok(token) => token,
            Err(error) => {
                return Err(error);
            },
        };
        match decoder.decode_at(token.as_str(), now) {
            Ok(claims) => Ok(claims),
            Err(error) => Err(AuthFailure::DecodeInvalid(error).into_error()),
        }
    }

    /// The claims of the request whose authorization header is given, now
    /// by the machine's clock. A request without a token, or with one that
    /// carries no claims, is refused without a look at the clock. For any
    /// other the outcome is the failure of `clock_unreadable` where the
    /// clock cannot be read, and else that of `from_request_at` for some
    /// second.
    pub fn from_request(authorization: Option<&str>, decoder: &ApiJwt) -> (r: Result<
        ApiClaims,
        ApiAppError,
    >)
        ensures
            !needs_clock(header_value(authorization)) ==> request_outcome(r) == authenticated(
                header_value(authorization),
                decoder.secret(),
                0,
            ),
            request_outcome(r) == Err::<ClaimsView, ApiAppErrorView>(clock_unreadable())
                || exists|now: i64|
                request_outcome(r) == #[trigger] authenticated(
                    header_value(authorization),
                    decoder.secret(),
                    now,
                ),
    {
        let token = match decoder.decode_header(authorization) {
            Ok(token) => token,
            Err(error) => {
                assert(request_outcome(Err(error)) == authenticated(
                    header_value(authorization),
                    decoder.secret(),
                    0,
                ));
                return Err(error);
            },
        };
        let carried = match read_carried_claims(token.as_str()) {
            Some(carried) => carried,
            None => {
                let error = AuthFailure::DecodeInvalid(DecodeError::InvalidToken).into_error();
                assert(request_outcome(Err(error)) == authenticated(
                    header_value(authorization),
                    decoder.secret(),
                    0,
                ));
                return Err(error);
            },
        };
        let now = match unix_now() {
            Some(now) => now,
            None => {
                return Err(
                    ApiAppError::InternalError(
                        AppError::InternalError("clock unreadable".to_owned()),
                    ),
                );
            },
        };
        let r = match decoder.check_carried(token.as_str(), carried, now) {
            Ok(claims) => Ok(claims),
            Err(error) => Err(AuthFailure::DecodeInvalid(error).into_error()),
        };
        assert(request_outcome(r) == authenticated(
            header_value(authorization),
            decoder.secret(),
            now,
        ));
        r
    }
}

} // verus!
