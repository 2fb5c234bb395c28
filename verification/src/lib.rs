//! A small local web service that serves a folder of comic images:
//! directory validation, image-name listing, MIME resolution, the
//! shared directory/image-list state, the decisions behind each HTTP
//! route, and the browser-launch plan.

pub mod browser;
pub mod files;
pub mod text;
pub mod web;

use vstd::prelude::*;

verus! {

/// Number of image names a client renders per page; shared between the
/// server's listing response and the front end.
pub const PAGE_SIZE: usize = 20;

} // verus!
