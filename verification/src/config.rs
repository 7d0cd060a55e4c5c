//! The process-wide configuration: fixed at startup, read by every
//! request, never mutated.

use vstd::prelude::*;
use vstd::string::StringExecFns;

verus! {

/// What both request paths read: the storage root, the optional shared
/// upload key, the per-file byte ceiling, and the external address used
/// to build the returned links.
pub struct Config {
    /// Directory all stored files live in.
    pub root_dir: String,
    /// The shared upload key; `None` means uploads need no key.
    pub key: Option<String>,
    /// Host part of the links handed back after an upload.
    pub external_host: String,
    /// Protocol part of those links.
    pub external_protocol: String,
    /// Largest accepted byte size for one uploaded file.
    pub max_filesize: usize,
}

/// Build the absolute public link for a stored file:
/// `<protocol>://<host>/<name>`.
pub fn file_url(cfg: &Config, name: &str) -> (r: String)
    ensures
        r@ == cfg.external_protocol@ + "://"@ + cfg.external_host@ + "/"@ + name@,
{
    let r = cfg.external_protocol.clone().concat("://").concat(cfg.external_host.as_str()).concat(
        "/",
    ).concat(name);
    r
}

} // verus!
