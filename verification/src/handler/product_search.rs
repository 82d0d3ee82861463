//! Search for products, for requests with a valid token.

use crate::handler::{pass_on, passed_on, Next, Progress};
use crate::jwt::ApiClaims;
use vstd::prelude::*;

verus! {

/// Handler of the requests that search for products.
pub struct ProductSearchHandler;

impl ProductSearchHandler {
    /// What is to be done next for a search. The claims are those of the
    /// request's token: without them there is no call. A form with errors
    /// is answered with status 400 and the errors; the products that the
    /// service has found are the reply; a failure of the service is
    /// classified by its own kind.
    pub fn search<T, V>(_claims: &ApiClaims, progress: Progress<T, V>) -> (next: Next<T, V>)
        ensures
            passed_on(progress, next),
    {
        pass_on(progress)
    }
}

} // verus!
