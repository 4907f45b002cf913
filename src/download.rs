//! What a finished download's headers say about the file.

use vstd::prelude::*;

verus! {

/// The `filename` parameter of a Content-Disposition header value, if any.
pub uninterp spec fn disposition_filename(header: Seq<char>) -> Option<Seq<char>>;

/// Relies on `mailparse::parse_content_disposition`, whose parameter map holds
/// `filename` with enclosing quotes stripped; the result depends on the header
/// text alone.
#[verifier::external_body]
fn filename_param(header: &str) -> (r: Option<String>)
    ensures
        match r {
            Some(f) => disposition_filename(header@) == Some(f@),
            None => disposition_filename(header@) is None,
        },
{
    mailparse::parse_content_disposition(header).params.remove("filename")
}

/// What the headers of a finished download say about the file.
#[derive(Clone, Debug)]
pub struct DownloadInfo {
    pub filename: Option<String>,
    pub content_type: Option<String>,
}

impl DownloadInfo {
    /// The content type is kept verbatim; the file name comes from the
    /// Content-Disposition header and is absent without one.
    pub fn from_headers(content_type: Option<String>, disposition: Option<&str>) -> (r:
        DownloadInfo)
        ensures
            r.content_type == content_type,
            match disposition {
                None => r.filename is None,
                Some(d) => match r.filename {
                    Some(f) => disposition_filename(d@) == Some(f@),
                    None => disposition_filename(d@) is None,
                },
            },
    {
        let filename = match disposition {
            Some(d) => filename_param(d),
            None => None,
        };
        DownloadInfo { filename, content_type }
    }
}

} // verus!
