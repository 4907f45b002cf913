//! Request bodies, endpoint URLs and query parameters.

use vstd::prelude::*;
use vstd::string::StringExecFns;

use crate::service::LucidaService;

verus! {

/// The account a stream request runs under.
#[derive(Clone, Debug)]
pub struct Account {
    pub id: String,
    pub account_type: String,
}

/// Upload of the result to outside storage.
#[derive(Clone, Debug)]
pub struct Upload {
    pub enabled: bool,
    pub service: String,
}

/// Body of the request that starts a conversion job.
#[derive(Clone, Debug)]
pub struct StreamRequest {
    pub account: Account,
    pub downscale: String,
    pub handoff: bool,
    pub metadata: bool,
    pub private: bool,
    pub upload: Upload,
    pub url: String,
}

impl StreamRequest {
    /// The account id: the country code, or "auto" to let the server choose.
    pub open spec fn account_for(country: Option<Seq<char>>) -> Seq<char> {
        match country {
            Some(c) => c,
            None => "auto"@,
        }
    }

    /// An asynchronous, private, original-quality job with no outside upload.
    pub fn new(url: &str, country: Option<&str>, metadata: bool) -> (r: StreamRequest)
        ensures
            r.account.id@ == Self::account_for(
                match country {
                    Some(c) => Some(c@),
                    None => None,
                },
            ),
            r.account.account_type@ == "country"@,
            r.downscale@ == "original"@,
            r.handoff,
            r.metadata == metadata,
            r.private,
            !r.upload.enabled,
            r.upload.service@ == "pixeldrain"@,
            r.url@ == url@,
    {
        let id = match country {
            Some(c) => c.to_owned(),
            None => "auto".to_owned(),
        };
        StreamRequest {
            account: Account { id, account_type: "country".to_owned() },
            downscale: "original".to_owned(),
            handoff: true,
            metadata,
            private: true,
            upload: Upload { enabled: false, service: "pixeldrain".to_owned() },
            url: url.to_owned(),
        }
    }
}

/// `base` followed by `path`.
pub fn endpoint(base: &str, path: &str) -> (r: String)
    ensures
        r@ == base@ + path@,
{
    base.to_owned().concat(path)
}

pub fn stream_endpoint(base: &str) -> (r: String)
    ensures
        r@ == base@ + "/api/fetch/stream/v2"@,
{
    endpoint(base, "/api/fetch/stream/v2")
}

pub fn status_endpoint(base: &str, id: &str) -> (r: String)
    ensures
        r@ == base@ + "/api/fetch/request/"@ + id@,
{
    endpoint(base, "/api/fetch/request/").concat(id)
}

pub fn download_endpoint(base: &str, id: &str) -> (r: String)
    ensures
        r@ == base@ + "/api/fetch/request/"@ + id@ + "/download"@,
{
    status_endpoint(base, id).concat("/download")
}

pub fn countries_endpoint(base: &str) -> (r: String)
    ensures
        r@ == base@ + "/api/countries"@,
{
    endpoint(base, "/api/countries")
}

pub fn search_endpoint(base: &str) -> (r: String)
    ensures
        r@ == base@ + "/api/search"@,
{
    endpoint(base, "/api/search")
}

pub fn metadata_endpoint(base: &str) -> (r: String)
    ensures
        r@ == base@ + "/api/fetch/metadata"@,
{
    endpoint(base, "/api/fetch/metadata")
}

/// Query pairs of a search: the text, the service's short name, the country.
pub fn search_query(service: LucidaService, country: &str, query: &str) -> (r: Vec<
    (String, String),
>)
    ensures
        r@.len() == 3,
        r@[0].0@ == "query"@ && r@[0].1@ == query@,
        r@[1].0@ == "service"@ && r@[1].1@ == service.name_of(),
        r@[2].0@ == "country"@ && r@[2].1@ == country@,
{
    let mut r: Vec<(String, String)> = Vec::new();
    r.push(("query".to_owned(), query.to_owned()));
    r.push(("service".to_owned(), service.name().to_owned()));
    r.push(("country".to_owned(), country.to_owned()));
    r
}

} // verus!
