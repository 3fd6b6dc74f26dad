use vstd::prelude::*;
use vstd::string::StrSliceExecFns;
use vstd::string::StringSliceAdditionalSpecFns;

use crate::text::str_is_empty;

verus! {

/// The page served for the admin root and for an empty asset path.
pub const INDEX_PAGE: &'static str = "index.html";

/// The asset served for a path under `/admin/`.
pub fn asset_path(path: &str) -> (r: &str)
    ensures
        r@ == (if path@.len() == 0 {
            INDEX_PAGE@
        } else {
            path@
        }),
{
    if str_is_empty(path) {
        INDEX_PAGE
    } else {
        path
    }
}

/// The MIME type `mime_guess` gives a path (`application/octet-stream`
/// when it knows none).
pub uninterp spec fn guessed_mime(path: Seq<char>) -> Seq<char>;

/// Calls `mime_guess::from_path(path).first_or_octet_stream()` and prints
/// the type. Claims that the text is a function of the path (the crate
/// looks the extension up in a static table).
#[verifier::external_body]
fn mime_for(path: &str) -> (r: String)
    ensures
        r@ == guessed_mime(path@),
{
    mime_guess::from_path(path).first_or_octet_stream().to_string()
}

/// The answer to an asset request.
#[derive(Debug)]
pub struct AssetResponse {
    pub status: u16,
    pub content_type: Option<String>,
    pub body: Vec<u8>,
}

/// Serves an embedded asset: its bytes with the MIME type of its path, or
/// 404 with `Not found` when it is not embedded.
pub fn asset_response(path: &str, content: Option<Vec<u8>>) -> (r: AssetResponse)
    ensures
        match content {
            Some(c) => {
                &&& r.status == 200
                &&& r.body@ == c@
                &&& r.content_type matches Some(t) && t@ == guessed_mime(path@)
            },
            None => r.status == 404 && r.content_type is None && r.body@ == "Not found".spec_bytes(),
        },
{
    match content {
        Some(c) => AssetResponse { status: 200, content_type: Some(mime_for(path)), body: c },
        None => AssetResponse { status: 404, content_type: None, body: "Not found".as_bytes_vec() },
    }
}

} // verus!
