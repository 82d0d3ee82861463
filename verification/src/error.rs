//! Failures of the service layer and the replies that clients see for them.
//!
//! A failure reported by the service layer ([`AppError`]) is turned into a
//! presentation error ([`ApiAppError`]), and every presentation error into
//! exactly one reply ([`ErrorResponse`]): a status code and a body of two
//! texts. The cause of an internal failure never reaches the body.

use vstd::prelude::*;

verus! {

/// Status of a reply to a request without a valid token.
pub const STATUS_UNAUTHORIZED: u16 = 401;

/// Status of a reply to a request that the business rules refuse.
pub const STATUS_BAD_REQUEST: u16 = 400;

/// Status of a reply to a lookup that found nothing.
pub const STATUS_NOT_FOUND: u16 = 404;

/// Status of a reply to a failure that the client cannot correct.
pub const STATUS_INTERNAL_SERVER_ERROR: u16 = 500;

/// Body of an error reply: a category word and a text for the client.
#[derive(Debug, Clone)]
pub struct ApiErrorInfo {
    pub state: String,
    pub message: String,
}

/// Mathematical value of an [`ApiErrorInfo`].
pub struct ApiErrorInfoView {
    pub state: Seq<char>,
    pub message: Seq<char>,
}

impl View for ApiErrorInfo {
    type V = ApiErrorInfoView;

    open spec fn view(&self) -> ApiErrorInfoView {
        ApiErrorInfoView { state: self.state@, message: self.message@ }
    }
}

impl ApiErrorInfo {
    pub fn new(state: &str, message: &str) -> (info: Self)
        ensures
            info@ == (ApiErrorInfoView { state: state@, message: message@ }),
    {
        Self { state: state.to_owned(), message: message.to_owned() }
    }
}

/// A failure as the service layer reports it.
#[derive(Debug)]
pub enum AppError {
    /// A lookup found nothing; the text is meant for the client.
    SearchError(String),
    /// A registration was refused; the text is meant for the client.
    RegisterError(String),
    /// The credentials were refused; the text is meant for the client.
    AuthenticateError(String),
    /// Anything else; the text describes the cause and stays on the server.
    InternalError(String),
}

/// Mathematical value of an [`AppError`].
pub enum AppErrorView {
    SearchError(Seq<char>),
    RegisterError(Seq<char>),
    AuthenticateError(Seq<char>),
    InternalError(Seq<char>),
}

impl View for AppError {
    type V = AppErrorView;

    open spec fn view(&self) -> AppErrorView {
        match self {
            AppError::SearchError(m) => AppErrorView::SearchError(m@),
            AppError::RegisterError(m) => AppErrorView::RegisterError(m@),
            AppError::AuthenticateError(m) => AppErrorView::AuthenticateError(m@),
            AppError::InternalError(m) => AppErrorView::InternalError(m@),
        }
    }
}

/// A failure as the presentation layer classifies it.
#[derive(Debug)]
pub enum ApiAppError {
    /// The request carried no valid token.
    NotAuthorizeError(ApiErrorInfo),
    /// The credentials were refused.
    AuthenticateError(ApiErrorInfo),
    /// A lookup found nothing.
    SearchError(ApiErrorInfo),
    /// A registration was refused.
    RegisterError(ApiErrorInfo),
    /// A failure below the presentation layer, kept for the server's log.
    InternalError(AppError),
}

/// Mathematical value of an [`ApiAppError`].
pub enum ApiAppErrorView {
    NotAuthorizeError(ApiErrorInfoView),
    AuthenticateError(ApiErrorInfoView),
    SearchError(ApiErrorInfoView),
    RegisterError(ApiErrorInfoView),
    InternalError(AppErrorView),
}

impl View for ApiAppError {
    type V = ApiAppErrorView;

    open spec fn view(&self) -> ApiAppErrorView {
        match self {
            ApiAppError::NotAuthorizeError(i) => ApiAppErrorView::NotAuthorizeError(i@),
            ApiAppError::AuthenticateError(i) => ApiAppErrorView::AuthenticateError(i@),
            ApiAppError::SearchError(i) => ApiAppErrorView::SearchError(i@),
            ApiAppError::RegisterError(i) => ApiAppErrorView::RegisterError(i@),
            ApiAppError::InternalError(e) => ApiAppErrorView::InternalError(e@),
        }
    }
}

/// The reply to a failed request: a status code, the content type, and the
/// body that is written out as a JSON object with the members `state` and
/// `message`.
#[derive(Debug)]
pub struct ErrorResponse {
    pub status: u16,
    pub content_type: String,
    pub body: ApiErrorInfo,
}

/// Mathematical value of an [`ErrorResponse`].
pub struct ErrorResponseView {
    pub status: int,
    pub content_type: Seq<char>,
    pub body: ApiErrorInfoView,
}

impl View for ErrorResponse {
    type V = ErrorResponseView;

    open spec fn view(&self) -> ErrorResponseView {
        ErrorResponseView {
            status: self.status as int,
            content_type: self.content_type@,
            body: self.body@,
        }
    }
}

/// The presentation error that stands for a failure of the service layer:
/// the three kinds that a client can correct keep their text under the
/// category word of their kind, an internal failure is carried along whole.
pub open spec fn presented(e: AppErrorView) -> ApiAppErrorView {
    match e {
        AppErrorView::SearchError(m) => ApiAppErrorView::SearchError(
            ApiErrorInfoView { state: "search error"@, message: m },
        ),
        AppErrorView::RegisterError(m) => ApiAppErrorView::RegisterError(
            ApiErrorInfoView { state: "register error"@, message: m },
        ),
        AppErrorView::AuthenticateError(m) => ApiAppErrorView::AuthenticateError(
            ApiErrorInfoView { state: "authenticate error"@, message: m },
        ),
        AppErrorView::InternalError(m) => ApiAppErrorView::InternalError(
            AppErrorView::InternalError(m),
        ),
    }
}

/// The status code of the reply to a presentation error.
pub open spec fn status_of(e: ApiAppErrorView) -> int {
    match e {
        ApiAppErrorView::InternalError(_) => 500,
        ApiAppErrorView::AuthenticateError(_) => 400,
        ApiAppErrorView::RegisterError(_) => 400,
        ApiAppErrorView::SearchError(_) => 404,
        ApiAppErrorView::NotAuthorizeError(_) => 401,
    }
}

/// The one body that every internal failure is answered with.
pub open spec fn service_down() -> ApiErrorInfoView {
    ApiErrorInfoView { state: "stop service"@, message: "Service is down."@ }
}

/// The body of the reply to a presentation error.
pub open spec fn body_of(e: ApiAppErrorView) -> ApiErrorInfoView {
    match e {
        ApiAppErrorView::InternalError(_) => service_down(),
        ApiAppErrorView::AuthenticateError(i) => i,
        ApiAppErrorView::RegisterError(i) => i,
        ApiAppErrorView::SearchError(i) => i,
        ApiAppErrorView::NotAuthorizeError(i) => i,
    }
}

/// The whole reply to a presentation error.
pub open spec fn response_of(e: ApiAppErrorView) -> ErrorResponseView {
    ErrorResponseView {
        status: status_of(e),
        content_type: "application/json"@,
        body: body_of(e),
    }
}

/// The text that a failure of the service layer carries.
pub open spec fn message_of(e: AppErrorView) -> Seq<char> {
    match e {
        AppErrorView::SearchError(m) => m,
        AppErrorView::RegisterError(m) => m,
        AppErrorView::AuthenticateError(m) => m,
        AppErrorView::InternalError(m) => m,
    }
}

/// A failure that the client can correct is answered with its own text,
/// under the category word of its kind: a failed search with status 404, a
/// refused registration or authentication with status 400.
pub proof fn law_client_failure_keeps_its_text(e: AppErrorView)
    requires
        !(e is InternalError),
    ensures
        response_of(presented(e)).body.message == message_of(e),
        e is SearchError ==> response_of(presented(e)).status == 404 && response_of(
            presented(e),
        ).body.state == "search error"@,
        e is RegisterError ==> response_of(presented(e)).status == 400 && response_of(
            presented(e),
        ).body.state == "register error"@,
        e is AuthenticateError ==> response_of(presented(e)).status == 400 && response_of(
            presented(e),
        ).body.state == "authenticate error"@,
{
}

/// An internal failure is answered with status 500 and the one body of
/// `service_down`: the reply is the same whatever the cause was, so nothing
/// of the cause is in it.
pub proof fn law_internal_failure_is_opaque(cause: Seq<char>, other: Seq<char>)
    ensures
        response_of(presented(AppErrorView::InternalError(cause))).status == 500,
        response_of(presented(AppErrorView::InternalError(cause))).body == service_down(),
        response_of(presented(AppErrorView::InternalError(cause))) == response_of(
            presented(AppErrorView::InternalError(other)),
        ),
{
}

impl From<AppError> for ApiAppError {
    /// Classifies a failure of the service layer for presentation.
    fn from(error: AppError) -> (api: ApiAppError)
        ensures
            api@ == presented(error@),
    {
        match error {
            AppError::SearchError(msg) => ApiAppError::SearchError(
                ApiErrorInfo::new("search error", msg.as_str()),
            ),
            AppError::RegisterError(msg) => ApiAppError::RegisterError(
                ApiErrorInfo::new("register error", msg.as_str()),
            ),
            AppError::AuthenticateError(msg) => ApiAppError::AuthenticateError(
                ApiErrorInfo::new("authenticate error", msg.as_str()),
            ),
            AppError::InternalError(cause) => ApiAppError::InternalError(
                AppError::InternalError(cause),
            ),
        }
    }
}

/// Texts are compared by their views, so the conversion is stated over views,
/// in the `ensures` of `from`; no equation between executable values is
/// promised.
impl vstd::std_specs::convert::FromSpecImpl<AppError> for ApiAppError {
    open spec fn obeys_from_spec() -> bool {
        false
    }

    open spec fn from_spec(error: AppError) -> ApiAppError {
        choose|api: ApiAppError| api@ == presented(error@)
    }
}

impl ApiAppError {
    /// The status code that the reply to this error carries.
    pub fn status_code(&self) -> (code: u16)
        ensures
            code as int == status_of(self@),
    {
        match self {
            ApiAppError::InternalError(_) => STATUS_INTERNAL_SERVER_ERROR,
            ApiAppError::AuthenticateError(_) => STATUS_BAD_REQUEST,
            ApiAppError::RegisterError(_) => STATUS_BAD_REQUEST,
            ApiAppError::SearchError(_) => STATUS_NOT_FOUND,
            ApiAppError::NotAuthorizeError(_) => STATUS_UNAUTHORIZED,
        }
    }

    /// The reply to this error. For an internal failure the body is the fixed
    /// text of `service_down`, whatever the cause was.
    pub fn error_response(&self) -> (reply: ErrorResponse)
        ensures
            reply@ == response_of(self@),
    {
        let body = match self {
            ApiAppError::InternalError(_) => ApiErrorInfo::new("stop service", "Service is down."),
            ApiAppError::SearchError(info) => ApiErrorInfo::new(
                info.state.as_str(),
                info.message.as_str(),
            ),
            ApiAppError::RegisterError(info) => ApiErrorInfo::new(
                info.state.as_str(),
                info.message.as_str(),
            ),
            ApiAppError::AuthenticateError(info) => ApiErrorInfo::new(
                info.state.as_str(),
                info.message.as_str(),
            ),
            ApiAppError::NotAuthorizeError(info) => ApiErrorInfo::new(
                info.state.as_str(),
                info.message.as_str(),
            ),
        };
        ErrorResponse {
            status: self.status_code(),
            content_type: "application/json".to_owned(),
            body,
        }
    }
}

} // verus!
