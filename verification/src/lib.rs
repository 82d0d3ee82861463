//! Token authentication and error replies for a small REST service.
//!
//! A client authenticates once and gets a signed token that holds for five
//! minutes. Every later request presents the token in its authorization
//! header. This library holds the rules of that exchange and proves what
//! they promise:
//!
//! - [`jwt`]: the claims of a token, how a token is made from them and how
//!   one is decoded, checked against the clock and the secret;
//! - [`bearer`]: how the token is taken from the authorization header;
//! - [`error`]: how a failure of the service layer becomes the reply that
//!   the client sees;
//! - [`handler`]: what each request handler does next, given what has
//!   happened so far;
//! - [`payload`], [`decimal`], [`escape`], [`token`], [`text`], [`bytes`]:
//!   the format of a token, from its three parts down to single bytes;
//! - [`primitives`]: what is taken on trust from other crates.

pub mod bearer;
pub mod bytes;
pub mod decimal;
pub mod error;
pub mod escape;
pub mod handler;
pub mod jwt;
pub mod payload;
pub mod primitives;
pub mod text;
pub mod token;
