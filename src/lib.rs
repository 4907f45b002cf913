//! Client logic for a remote media converter: which streaming service a URL
//! belongs to, the requests that start and follow a conversion job, and the
//! retry loop over countries and attempts that ends in a download.

pub mod acquire;
pub mod download;
pub mod model;
pub mod poll;
pub mod request;
pub mod service;
pub mod text;
