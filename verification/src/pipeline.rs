//! One whole ingestion run: the request's fields in arrival order, the
//! spec-level account of what the run returns and which files stay on
//! storage, and the executable pipeline proved against it.
//!
//! A failing field ends the request at once; files fully written by
//! earlier fields of the same request stay on storage. That absence of
//! rollback is a documented, accepted inconsistency of the design.

use crate::config::Config;
use crate::errors::YamafError;
use crate::names::stored_name;
use crate::slug::url_safe;
use crate::store::MemStore;
use crate::upload::{FileWrite, UploadRecord, Uploader};
use vstd::prelude::*;

verus! {

/// One multipart field, fully received: the key field's bytes, a file
/// field with its chunks in arrival order, or a field of any other name,
/// which the pipeline ignores.
pub enum Field {
    /// The key field's raw bytes.
    Key(Vec<u8>),
    /// A file field: the client-supplied name, if any, and its chunks.
    File { name: Option<String>, chunks: Vec<Vec<u8>> },
    /// A field of any other name: no error, no effect.
    Ignored,
}

/// The total byte count of a chunk sequence.
pub open spec fn sum_lens(chunks: Seq<Vec<u8>>) -> int
    decreases chunks.len(),
{
    if chunks.len() == 0 {
        0
    } else {
        sum_lens(chunks.drop_last()) + chunks.last()@.len()
    }
}

/// The bytes of a chunk sequence, joined in arrival order.
pub open spec fn concat_chunks(chunks: Seq<Vec<u8>>) -> Seq<u8>
    decreases chunks.len(),
{
    if chunks.len() == 0 {
        Seq::empty()
    } else {
        concat_chunks(chunks.drop_last()) + chunks.last()@
    }
}

/// How streaming one file field against the per-file ceiling ends.
pub enum FileVerdict {
    /// Every running total stays within the ceiling.
    Fits,
    /// Some running total passes the ceiling.
    TooBig,
    /// Some running total would not even fit the byte counter.
    Overflow,
}

/// Stream the chunks one by one from a running total of `written`:
/// the first chunk whose new total passes the ceiling decides the
/// verdict, and a total past the counter's range decides it first.
pub open spec fn file_verdict_from(chunks: Seq<Vec<u8>>, written: int, max: int) -> FileVerdict
    decreases chunks.len(),
{
    if chunks.len() == 0 {
        FileVerdict::Fits
    } else {
        let w = written + chunks.first()@.len();
        if w > usize::MAX {
            FileVerdict::Overflow
        } else if w > max {
            FileVerdict::TooBig
        } else {
            file_verdict_from(chunks.drop_first(), w, max)
        }
    }
}

/// The verdict for one whole file field.
pub open spec fn file_verdict(chunks: Seq<Vec<u8>>, max: int) -> FileVerdict {
    file_verdict_from(chunks, 0, max)
}

/// How a whole request ends.
pub enum UploadOutcome {
    /// At least one file was fully written and the fields ran out.
    Accepted,
    /// The key field's bytes were not valid UTF-8.
    BadKeyEncoding,
    /// The key field decoded to something other than the configured key.
    WrongKey,
    /// A file field arrived before any correct key field.
    MissingKey,
    /// A file field passed the per-file ceiling and was removed again.
    TooBig,
    /// A file field's running total would not fit the byte counter.
    CounterOverflow,
    /// The fields ran out without one fully written file.
    NoFiles,
}

/// What one run of the pipeline leaves behind: its outcome, and the
/// bytes of each file that stays on storage, in write order.
pub struct PipelineResult {
    /// How the request ended.
    pub outcome: UploadOutcome,
    /// The contents of the files the run wrote and kept.
    pub persisted: Seq<Seq<u8>>,
}

/// The pipeline over the remaining fields, given whether a correct key
/// has been seen and which file contents are already written.
pub open spec fn spec_pipeline_from(
    cfg: Config,
    fields: Seq<Field>,
    authorized: bool,
    done: Seq<Seq<u8>>,
) -> PipelineResult
    decreases fields.len(),
{
    if fields.len() == 0 {
        if done.len() == 0 {
            PipelineResult { outcome: UploadOutcome::NoFiles, persisted: done }
        } else {
            PipelineResult { outcome: UploadOutcome::Accepted, persisted: done }
        }
    } else {
        match fields.first() {
            Field::Key(b) => {
                if cfg.key is None {
                    spec_pipeline_from(cfg, fields.drop_first(), authorized, done)
                } else if !vstd::utf8::valid_utf8(b@) {
                    PipelineResult { outcome: UploadOutcome::BadKeyEncoding, persisted: done }
                } else if vstd::utf8::decode_utf8(b@) != cfg.key->0@ {
                    PipelineResult { outcome: UploadOutcome::WrongKey, persisted: done }
                } else {
                    spec_pipeline_from(cfg, fields.drop_first(), true, done)
                }
            },
            Field::File { name: _, chunks } => {
                if cfg.key is Some && !authorized {
                    PipelineResult { outcome: UploadOutcome::MissingKey, persisted: done }
                } else {
                    match file_verdict(chunks@, cfg.max_filesize as int) {
                        FileVerdict::Fits => spec_pipeline_from(
                            cfg,
                            fields.drop_first(),
                            authorized,
                            done.push(concat_chunks(chunks@)),
                        ),
                        FileVerdict::TooBig => PipelineResult {
                            outcome: UploadOutcome::TooBig,
                            persisted: done,
                        },
                        FileVerdict::Overflow => PipelineResult {
                            outcome: UploadOutcome::CounterOverflow,
                            persisted: done,
                        },
                    }
                }
            },
            Field::Ignored => spec_pipeline_from(cfg, fields.drop_first(), authorized, done),
        }
    }
}

/// The pipeline over a whole request, starting unauthorised with nothing
/// written.
pub open spec fn spec_pipeline(cfg: Config, fields: Seq<Field>) -> PipelineResult {
    spec_pipeline_from(cfg, fields, false, Seq::empty())
}

/// Append the bytes of `src` to `dst`.
fn append_bytes(dst: &mut Vec<u8>, src: &Vec<u8>)
    ensures
        final(dst)@ == old(dst)@ + src@,
{
    proof {
        assert(old(dst)@ + src@.take(0) =~= old(dst)@);
    }
    let mut k: usize = 0;
    while k < src.len()
        invariant
            k <= src@.len(),
            dst@ == old(dst)@ + src@.take(k as int),
        decreases src@.len() - k,
    {
        dst.push(src[k]);
        proof {
            assert(old(dst)@ + src@.take(k + 1) =~= (old(dst)@ + src@.take(k as int)).push(
                src@[k as int],
            ));
        }
        k += 1;
    }
    proof {
        assert(src@.take(src@.len() as int) =~= src@);
    }
}

/// Run the whole ingestion over a request's fields, writing each accepted
/// file into the store. The result, the store's growth and every error
/// are exactly what `spec_pipeline` says of the fields; every stored name
/// is safe as a URL path segment, and each returned record carries the
/// exact byte size of its stored file.
#[verifier::loop_isolation(false)]
pub fn process_fields(cfg: &Config, fields: Vec<Field>, store: &mut MemStore) -> (r: Result<
    Vec<UploadRecord>,
    YamafError,
>)
    ensures
        ({
            let res = spec_pipeline(*cfg, fields@);
            let base = old(store).files@.len() as int;
            &&& final(store).files@.len() == base + res.persisted.len()
            &&& final(store).files@.subrange(0, base) == old(store).files@
            &&& forall|j: int|
                0 <= j < res.persisted.len() ==> #[trigger] final(store).files@[base + j].content@
                    == res.persisted[j]
            &&& forall|j: int|
                0 <= j < res.persisted.len() ==> url_safe(
                    #[trigger] final(store).files@[base + j].name@,
                )
            &&& (r is Ok <==> res.outcome is Accepted)
            &&& (r is Ok ==> {
                let recs = r->Ok_0@;
                &&& recs.len() == res.persisted.len()
                &&& forall|j: int|
                    0 <= j < recs.len() ==> #[trigger] recs[j].size == res.persisted[j].len()
                &&& forall|j: int|
                    0 <= j < recs.len() ==> #[trigger] recs[j].name@ == final(store).files@[base
                        + j].name@
                &&& forall|j: int| 0 <= j < recs.len() ==> url_safe(#[trigger] recs[j].name@)
            })
            &&& (res.outcome is BadKeyEncoding ==> r is Err && r->Err_0 is InternalError
                && r->Err_0->InternalError_0@ == "Invalid key format"@)
            &&& (res.outcome is WrongKey ==> r is Err && r->Err_0 is BadRequest
                && r->Err_0->BadRequest_0@ == "Wrong key"@)
            &&& (res.outcome is MissingKey ==> r is Err && r->Err_0 is BadRequest
                && r->Err_0->BadRequest_0@ == "Missing key"@)
            &&& (res.outcome is TooBig ==> r is Err && r->Err_0 is FileTooBig && url_safe(
                r->Err_0->FileTooBig_0@,
            ))
            &&& (res.outcome is CounterOverflow ==> r is Err && r->Err_0 is BadRequest
                && r->Err_0->BadRequest_0@ == "File too large"@)
            &&& (res.outcome is NoFiles ==> r is Err && r->Err_0 is BadRequest
                && r->Err_0->BadRequest_0@ == "No files uploaded"@)
        }),
{
    let ghost gfields = fields@;
    let ghost base = store.files@.len() as int;
    let mut up = Uploader::new();
    let ghost mut done: Seq<Seq<u8>> = Seq::empty();
    let mut i: usize = 0;
    proof {
        assert(gfields.skip(0) =~= gfields);
    }
    while i < fields.len()
        invariant
            i <= gfields.len(),
            fields@ == gfields,
            base == old(store).files@.len(),
            spec_pipeline_from(*cfg, gfields.skip(i as int), up.authorized, done) == spec_pipeline(
                *cfg,
                gfields,
            ),
            store.files@.len() == base + done.len(),
            store.files@.subrange(0, base) == old(store).files@,
            forall|j: int|
                0 <= j < done.len() ==> #[trigger] store.files@[base + j].content@ == done[j],
            forall|j: int|
                0 <= j < done.len() ==> url_safe(#[trigger] store.files@[base + j].name@),
            up.files@.len() == done.len(),
            forall|j: int| 0 <= j < done.len() ==> #[trigger] up.files@[j].size == done[j].len(),
            forall|j: int|
                0 <= j < done.len() ==> #[trigger] up.files@[j].name@ == store.files@[base
                    + j].name@,
        decreases gfields.len() - i,
    {
        let ghost rest = gfields.skip(i as int);
        proof {
            assert(rest.first() == gfields[i as int]);
            assert(rest.drop_first() =~= gfields.skip(i + 1));
        }
        match &fields[i] {
            Field::Key(b) => {
                match up.on_key(cfg, b) {
                    Ok(()) => {},
                    Err(e) => {
                        return Err(e);
                    },
                }
            },
            Field::File { name, chunks } => {
                match up.on_file_start(cfg) {
                    Ok(()) => {},
                    Err(e) => {
                        return Err(e);
                    },
                }
                let sname = match name {
                    Some(n) => stored_name(Some(n.as_str())),
                    None => stored_name(None),
                };
                let mut fw = FileWrite::begin(sname.clone());
                let mut content: Vec<u8> = Vec::new();
                let ghost gchunks = chunks@;
                let mut k: usize = 0;
                proof {
                    assert(gchunks.skip(0) =~= gchunks);
                    assert(concat_chunks(gchunks.take(0)) =~= Seq::<u8>::empty());
                }
                while k < chunks.len()
                    invariant
                        k <= gchunks.len(),
                        chunks@ == gchunks,
                        fw.name == sname,
                        fw.written == content@.len(),
                        content@ == concat_chunks(gchunks.take(k as int)),
                        file_verdict_from(
                            gchunks.skip(k as int),
                            fw.written as int,
                            cfg.max_filesize as int,
                        ) == file_verdict(gchunks, cfg.max_filesize as int),
                    decreases gchunks.len() - k,
                {
                    proof {
                        assert(gchunks.skip(k as int).first() == gchunks[k as int]);
                        assert(gchunks.skip(k as int).drop_first() =~= gchunks.skip(k + 1));
                    }
                    match fw.add_chunk(cfg, chunks[k].len()) {
                        Ok(()) => {
                            append_bytes(&mut content, &chunks[k]);
                            proof {
                                assert(gchunks.take(k + 1).drop_last() =~= gchunks.take(k as int));
                                assert(gchunks.take(k + 1).last() == gchunks[k as int]);
                            }
                            k += 1;
                        },
                        Err(e) => {
                            proof {
                                let max = cfg.max_filesize as int;
                                let w = fw.written + gchunks[k as int]@.len();
                                if w > usize::MAX {
                                    assert(file_verdict(gchunks, max) is Overflow);
                                } else {
                                    assert(file_verdict(gchunks, max) is TooBig);
                                }
                            }
                            return Err(e);
                        },
                    }
                }
                proof {
                    assert(gchunks.take(gchunks.len() as int) =~= gchunks);
                    assert(gchunks.skip(gchunks.len() as int) =~= Seq::<Vec<u8>>::empty());
                }
                store.put(sname.clone(), content);
                up.on_file_done(sname, fw.written);
                proof {
                    done = done.push(concat_chunks(gchunks));
                }
            },
            Field::Ignored => {},
        }
        i += 1;
    }
    proof {
        assert(gfields.skip(gfields.len() as int) =~= Seq::<Field>::empty());
    }
    up.finish()
}

} // verus!
