//! The decisions of the request handlers. A handler neither checks a form
//! nor runs a service itself: it is told what has happened so far and says
//! what is to be done next.

use crate::error::{presented, ApiAppError, AppError};
use vstd::prelude::*;

pub mod authenticate;
pub mod product_register;
pub mod product_search;

verus! {

/// Status of a reply that carries what was asked for.
pub const STATUS_OK: u16 = 200;

/// What has happened so far to a request: `T` is what the service gives on
/// success, `V` the list of errors that the check of a form gives.
pub enum Progress<T, V> {
    /// The form was checked, with these errors or with none.
    FormChecked(Result<(), V>),
    /// The service was run and has returned.
    Served(Result<T, AppError>),
}

/// A reply that is no error of the service: `R` is the body on success,
/// `V` the list of errors of a form.
#[derive(Debug)]
pub enum Reply<R, V> {
    /// Status 200, with the body.
    Success(R),
    /// Status 400, with the errors of the form as they are.
    InvalidForm(V),
}

/// What is to be done next for a request.
#[derive(Debug)]
pub enum Next<R, V> {
    /// Run the service and come back with what it returns.
    Serve,
    /// Answer with this reply.
    Respond(Reply<R, V>),
    /// Answer with the reply of this error.
    Fail(ApiAppError),
}

impl<R, V> Reply<R, V> {
    /// The status code of the reply.
    pub open spec fn status_of(self) -> int {
        match self {
            Reply::Success(_) => 200,
            Reply::InvalidForm(_) => 400,
        }
    }

    /// The content type of the reply: its body is written as JSON.
    pub fn content_type(&self) -> (name: String)
        ensures
            name@ == "application/json"@,
    {
        "application/json".to_owned()
    }

    /// The status code of the reply.
    pub fn status(&self) -> (code: u16)
        ensures
            code as int == self.status_of(),
    {
        match self {
            Reply::Success(_) => STATUS_OK,
            Reply::InvalidForm(_) => crate::error::STATUS_BAD_REQUEST,
        }
    }
}

/// What follows for a request whose service gives the body of the reply as
/// it is: a form with errors is answered with them and the service is not
/// run; a form without is followed by the service; what the service gives
/// is the reply, and its failure is classified for presentation.
pub open spec fn passed_on<T, V>(progress: Progress<T, V>, next: Next<T, V>) -> bool {
    match progress {
        Progress::FormChecked(Err(errors)) => next == Next::<T, V>::Respond(
            Reply::InvalidForm(errors),
        ),
        Progress::FormChecked(Ok(_)) => next is Serve,
        Progress::Served(Ok(body)) => next == Next::<T, V>::Respond(Reply::Success(body)),
        Progress::Served(Err(error)) => next matches Next::Fail(e) && e@ == presented(error@),
    }
}

/// The service is asked for exactly where the form was checked and had no
/// errors: not after errors, and not again once it has returned.
pub proof fn law_service_follows_a_good_form<T, V>(progress: Progress<T, V>, next: Next<T, V>)
    requires
        passed_on(progress, next),
    ensures
        next is Serve <==> progress matches Progress::FormChecked(Ok(_)),
{
}

/// Decides as `passed_on` says.
pub fn pass_on<T, V>(progress: Progress<T, V>) -> (next: Next<T, V>)
    ensures
        passed_on(progress, next),
{
    match progress {
        Progress::FormChecked(Err(errors)) => Next::Respond(Reply::InvalidForm(errors)),
        Progress::FormChecked(Ok(_)) => Next::Serve,
        Progress::Served(Ok(body)) => Next::Respond(Reply::Success(body)),
        Progress::Served(Err(error)) => Next::Fail(ApiAppError::from(error)),
    }
}

} // verus!
