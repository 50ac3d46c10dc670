//! Client library for a cloud SMS-sending API whose requests are
//! authenticated with the TC3-HMAC-SHA256 signing scheme.

use vstd::prelude::*;

pub mod credential;
pub mod encoding;
pub mod error;
pub mod models;
pub mod ordering;
pub mod profile;
pub mod query_form;
pub mod signature;
pub mod text;

pub use crate::credential::Credential;
pub use crate::error::TencentCloudError;
pub use crate::models::{SendSmsRequest, SendSmsResponse, SendStatus};
pub use crate::profile::{ClientProfile, HttpProfile};
pub use crate::signature::{Signer, SigningTime};

verus! {

/// Initializes the SDK; nothing needs to be set up.
pub fn init_api() {
}

/// Shuts the SDK down; nothing needs to be released.
pub fn shutdown_api() {
}

} // verus!
