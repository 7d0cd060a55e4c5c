//! The retrieval path: resolve a requested name in the store, guess the
//! content type from the name, and frame the response — status, exact
//! content length, and the advertised byte-range capability.

use crate::errors::YamafError;
use crate::store::{MemStore, lookup};
use vstd::prelude::*;
use vstd::string::StringExecFns;

verus! {

/// The content type guessed for a filename: a function of the name alone.
pub uninterp spec fn mime_of(name: Seq<char>) -> Seq<char>;

/// Relies on `mime_guess::from_path` and `MimeGuess::first_or_octet_stream`:
/// the guess depends on the path's extension alone and falls back to
/// `application/octet-stream` when the extension is unknown.
#[verifier::external_body]
fn guess_mime(name: &str) -> (r: String)
    ensures
        r@ == mime_of(name@),
{
    let m = mime_guess::from_path(name).first_or_octet_stream();
    let s: &str = m.as_ref();
    s.to_owned()
}

/// The response framing for one download: status and headers. Byte-range
/// requests are advertised as accepted but are not themselves honoured —
/// the header declares the capability only, as the service always streams
/// the whole file.
#[derive(Debug)]
pub struct DownloadPlan {
    /// Always 200 on this path.
    pub status: u16,
    /// The `Content-Type` header value.
    pub content_type: String,
    /// The `Content-Length` header value: the exact byte size at open time.
    pub content_length: u64,
    /// The `Accept-Ranges` header value: always `bytes`.
    pub accept_ranges: String,
}

/// Frame a successful download of `size` bytes under this name.
pub fn plan_download(name: &str, size: u64) -> (r: DownloadPlan)
    ensures
        r.status == 200,
        r.content_type@ == mime_of(name@),
        r.content_length == size,
        r.accept_ranges@ == "bytes"@,
{
    DownloadPlan {
        status: 200,
        content_type: guess_mime(name),
        content_length: size,
        accept_ranges: String::from_str("bytes"),
    }
}

/// Serve one name from the store: a name no stored file carries is
/// answered not-found, and a stored name is answered 200 with the exact
/// stored bytes and a `Content-Length` equal to their count.
pub fn serve_from_store(store: &MemStore, name: &String) -> (r: Result<
    (DownloadPlan, Vec<u8>),
    YamafError,
>)
    ensures
        lookup(store.files@, name@) is None ==> r is Err && r->Err_0 is FileNotFound,
        lookup(store.files@, name@) is Some ==> r is Ok && {
            let (plan, body) = r->Ok_0;
            &&& body@ == lookup(store.files@, name@)->0
            &&& plan.status == 200
            &&& plan.content_type@ == mime_of(name@)
            &&& plan.content_length == body@.len()
            &&& plan.accept_ranges@ == "bytes"@
        },
{
    match store.get(name) {
        None => Err(YamafError::FileNotFound),
        Some(body) => {
            let size = body.len() as u64;
            let plan = plan_download(name.as_str(), size);
            Ok((plan, body))
        },
    }
}

} // verus!
