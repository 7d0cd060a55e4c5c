//! The ingestion state machine: fields arrive in order, an optional key
//! field authorises the request, file fields stream chunks against the
//! per-file ceiling, and the request fails as a whole on any violation.

use crate::config::Config;
use crate::errors::YamafError;
use vstd::prelude::*;
use vstd::string::StringExecFns;

verus! {

/// One fully written upload: its stored name and its final byte size.
#[derive(Debug)]
pub struct UploadRecord {
    /// The generated stored name, safe as a URL path segment.
    pub name: String,
    /// Exactly how many bytes the file holds.
    pub size: usize,
}

/// Relies on `String::from_utf8`: it succeeds exactly on valid UTF-8
/// input and returns its decoding.
#[verifier::external_body]
fn bytes_to_string(v: &Vec<u8>) -> (r: Option<String>)
    ensures
        r is Some <==> vstd::utf8::valid_utf8(v@),
        r is Some ==> r->0@ == vstd::utf8::decode_utf8(v@),
{
    String::from_utf8(v.clone()).ok()
}

/// Whether a key field with these bytes authorises a request under this
/// configuration: the bytes decode as UTF-8 to exactly the configured key.
pub open spec fn key_matches(cfg: Config, bytes: Seq<u8>) -> bool {
    &&& cfg.key is Some
    &&& vstd::utf8::valid_utf8(bytes)
    &&& vstd::utf8::decode_utf8(bytes) == cfg.key->0@
}

/// The per-request ingestion state: whether a correct key has been seen,
/// and the files fully written so far.
pub struct Uploader {
    /// True once a key field matching the configured key was processed.
    pub authorized: bool,
    /// One record per file field fully written so far, in arrival order.
    pub files: Vec<UploadRecord>,
}

impl Uploader {
    /// A fresh request: unauthorised, nothing written.
    pub fn new() -> (r: Uploader)
        ensures
            !r.authorized,
            r.files@.len() == 0,
    {
        Uploader { authorized: false, files: Vec::new() }
    }

    /// Process a key field. With no key configured it is ignored; with
    /// one, bytes that are not UTF-8 are an internal error, a mismatch
    /// fails the request, and a match authorises the rest of it.
    pub fn on_key(&mut self, cfg: &Config, bytes: &Vec<u8>) -> (r: Result<(), YamafError>)
        ensures
            final(self).files == old(self).files,
            cfg.key is None ==> r is Ok && final(self).authorized == old(self).authorized,
            cfg.key is Some && !vstd::utf8::valid_utf8(bytes@) ==> r is Err
                && r->Err_0 is InternalError && r->Err_0->InternalError_0@ == "Invalid key format"@
                && final(self).authorized == old(self).authorized,
            cfg.key is Some && vstd::utf8::valid_utf8(bytes@) && !key_matches(*cfg, bytes@) ==> r
                is Err && r->Err_0 is BadRequest && r->Err_0->BadRequest_0@ == "Wrong key"@
                && final(self).authorized == old(self).authorized,
            key_matches(*cfg, bytes@) ==> r is Ok && final(self).authorized,
    {
        match &cfg.key {
            None => Ok(()),
            Some(key) => {
                match bytes_to_string(bytes) {
                    None => Err(
                        YamafError::InternalError(String::from_str("Invalid key format")),
                    ),
                    Some(s) => {
                        if s == *key {
                            self.authorized = true;
                            Ok(())
                        } else {
                            Err(YamafError::BadRequest(String::from_str("Wrong key")))
                        }
                    },
                }
            },
        }
    }

    /// May a file field start streaming now? Exactly when no key is
    /// configured or a correct key field has already been seen.
    pub fn on_file_start(&self, cfg: &Config) -> (r: Result<(), YamafError>)
        ensures
            r is Ok <==> (cfg.key is None || self.authorized),
            r is Err ==> r->Err_0 is BadRequest && r->Err_0->BadRequest_0@ == "Missing key"@,
    {
        if cfg.key.is_some() && !self.authorized {
            Err(YamafError::BadRequest(String::from_str("Missing key")))
        } else {
            Ok(())
        }
    }

    /// Record one fully written file.
    pub fn on_file_done(&mut self, name: String, size: usize)
        ensures
            final(self).authorized == old(self).authorized,
            final(self).files@ == old(self).files@.push(UploadRecord { name, size }),
    {
        self.files.push(UploadRecord { name, size });
    }

    /// End of the fields: a request that wrote no file at all fails;
    /// otherwise the records are handed back in arrival order.
    pub fn finish(self) -> (r: Result<Vec<UploadRecord>, YamafError>)
        ensures
            self.files@.len() == 0 ==> r is Err && r->Err_0 is BadRequest
                && r->Err_0->BadRequest_0@ == "No files uploaded"@,
            self.files@.len() > 0 ==> r is Ok && r->Ok_0 == self.files,
    {
        if self.files.len() == 0 {
            Err(YamafError::BadRequest(String::from_str("No files uploaded")))
        } else {
            Ok(self.files)
        }
    }
}

/// The running byte count of one file field being streamed to storage.
pub struct FileWrite {
    /// The stored name the file was created under.
    pub name: String,
    /// Bytes accepted so far; never passes the configured ceiling.
    pub written: usize,
}

impl FileWrite {
    /// Start streaming a freshly created stored file.
    pub fn begin(name: String) -> (r: FileWrite)
        ensures
            r.name == name,
            r.written == 0,
    {
        FileWrite { name, written: 0 }
    }

    /// Account one chunk of `len` bytes. The chunk is accepted exactly
    /// when the new running total stays within the per-file ceiling; a
    /// counter that would wrap is rejected rather than wrapped, and a
    /// total past the ceiling fails the request naming the stored file.
    pub fn add_chunk(&mut self, cfg: &Config, len: usize) -> (r: Result<(), YamafError>)
        ensures
            final(self).name == old(self).name,
            r is Ok <==> old(self).written + len <= cfg.max_filesize,
            r is Ok ==> final(self).written == old(self).written + len,
            r is Err ==> final(self).written == old(self).written,
            old(self).written + len > usize::MAX ==> r is Err && r->Err_0 is BadRequest
                && r->Err_0->BadRequest_0@ == "File too large"@,
            old(self).written + len <= usize::MAX && old(self).written + len > cfg.max_filesize
                ==> r is Err && r->Err_0 is FileTooBig && r->Err_0->FileTooBig_0@ == old(
                self,
            ).name@,
    {
        match self.written.checked_add(len) {
            None => Err(YamafError::BadRequest(String::from_str("File too large"))),
            Some(total) => {
                if total > cfg.max_filesize {
                    Err(YamafError::FileTooBig(self.name.clone()))
                } else {
                    self.written = total;
                    Ok(())
                }
            },
        }
    }
}

} // verus!
