//! The laws of the ingestion pipeline, each proved over `spec_pipeline`:
//! the ceiling is tight, authorisation is enforced in field order, a
//! wrong key persists nothing, and a request without files fails.

use crate::config::Config;
use crate::pipeline::{
    Field, FileVerdict, UploadOutcome, concat_chunks, file_verdict, file_verdict_from,
    spec_pipeline, spec_pipeline_from, sum_lens,
};
use crate::upload::key_matches;
use vstd::prelude::*;

verus! {

/// A chunk sequence's total byte count is never negative.
proof fn lemma_sum_nonneg(chunks: Seq<Vec<u8>>)
    ensures
        sum_lens(chunks) >= 0,
    decreases chunks.len(),
{
    if chunks.len() > 0 {
        lemma_sum_nonneg(chunks.drop_last());
    }
}

/// The total byte count, peeled from the front.
proof fn lemma_sum_first(chunks: Seq<Vec<u8>>)
    requires
        chunks.len() > 0,
    ensures
        sum_lens(chunks) == chunks.first()@.len() + sum_lens(chunks.drop_first()),
    decreases chunks.len(),
{
    if chunks.len() == 1 {
        assert(chunks.drop_first() =~= Seq::<Vec<u8>>::empty());
        assert(chunks.drop_last() =~= Seq::<Vec<u8>>::empty());
        assert(chunks.last() == chunks.first());
    } else {
        lemma_sum_first(chunks.drop_last());
        assert(chunks.drop_last().drop_first() =~= chunks.drop_first().drop_last());
        assert(chunks.drop_last().first() == chunks.first());
        assert(chunks.drop_first().last() == chunks.last());
        assert(sum_lens(chunks.drop_first()) == sum_lens(chunks.drop_first().drop_last())
            + chunks.drop_first().last()@.len());
    }
}

/// A file whose total stays within the ceiling streams to the end.
proof fn lemma_verdict_fits(chunks: Seq<Vec<u8>>, written: int, max: int)
    requires
        0 <= written,
        written + sum_lens(chunks) <= max,
        max <= usize::MAX,
    ensures
        file_verdict_from(chunks, written, max) is Fits,
    decreases chunks.len(),
{
    if chunks.len() > 0 {
        lemma_sum_first(chunks);
        lemma_sum_nonneg(chunks.drop_first());
        lemma_verdict_fits(chunks.drop_first(), written + chunks.first()@.len(), max);
    }
}

/// A file whose total passes the ceiling, yet fits the byte counter,
/// ends with the size verdict and nothing worse.
proof fn lemma_verdict_too_big(chunks: Seq<Vec<u8>>, written: int, max: int)
    requires
        0 <= written <= max,
        written + sum_lens(chunks) > max,
        written + sum_lens(chunks) <= usize::MAX,
        max <= usize::MAX,
    ensures
        file_verdict_from(chunks, written, max) is TooBig,
    decreases chunks.len(),
{
    if chunks.len() == 0 {
        assert(false);
    } else {
        lemma_sum_first(chunks);
        lemma_sum_nonneg(chunks.drop_first());
        let w = written + chunks.first()@.len();
        if w <= max {
            lemma_verdict_too_big(chunks.drop_first(), w, max);
        }
    }
}

/// Uploading one file of exactly the per-file ceiling size (or less)
/// succeeds, and exactly its bytes are persisted.
pub proof fn lemma_file_within_ceiling(cfg: Config, name: Option<String>, chunks: Vec<Vec<u8>>)
    requires
        cfg.key is None,
        sum_lens(chunks@) <= cfg.max_filesize,
    ensures
        spec_pipeline(cfg, seq![Field::File { name, chunks }]).outcome is Accepted,
        spec_pipeline(cfg, seq![Field::File { name, chunks }]).persisted =~= seq![
            concat_chunks(chunks@),
        ],
{
    let fields = seq![Field::File { name, chunks }];
    lemma_verdict_fits(chunks@, 0, cfg.max_filesize as int);
    assert(fields.first() == Field::File { name, chunks });
    assert(fields.drop_first() =~= Seq::<Field>::empty());
    assert(spec_pipeline_from(
        cfg,
        fields.drop_first(),
        false,
        seq![concat_chunks(chunks@)],
    ).outcome is Accepted);
}

/// Uploading one file even a single byte past the ceiling fails with the
/// size verdict and leaves nothing on storage.
pub proof fn lemma_file_past_ceiling(cfg: Config, name: Option<String>, chunks: Vec<Vec<u8>>)
    requires
        cfg.key is None,
        sum_lens(chunks@) > cfg.max_filesize,
        sum_lens(chunks@) <= usize::MAX,
    ensures
        spec_pipeline(cfg, seq![Field::File { name, chunks }]).outcome is TooBig,
        spec_pipeline(cfg, seq![Field::File { name, chunks }]).persisted =~= Seq::<Seq<u8>>::empty(),
{
    let fields = seq![Field::File { name, chunks }];
    lemma_verdict_too_big(chunks@, 0, cfg.max_filesize as int);
    assert(fields.first() == Field::File { name, chunks });
}

/// With a key configured, a correct key field followed by a fitting file
/// field succeeds, persisting exactly that file's bytes.
pub proof fn lemma_key_then_file(
    cfg: Config,
    kb: Vec<u8>,
    name: Option<String>,
    chunks: Vec<Vec<u8>>,
)
    requires
        key_matches(cfg, kb@),
        sum_lens(chunks@) <= cfg.max_filesize,
    ensures
        spec_pipeline(cfg, seq![Field::Key(kb), Field::File { name, chunks }]).outcome is Accepted,
        spec_pipeline(cfg, seq![Field::Key(kb), Field::File { name, chunks }]).persisted =~= seq![
            concat_chunks(chunks@),
        ],
{
    let fields = seq![Field::Key(kb), Field::File { name, chunks }];
    lemma_verdict_fits(chunks@, 0, cfg.max_filesize as int);
    assert(fields.first() == Field::Key(kb));
    let after_key = fields.drop_first();
    assert(after_key.first() == Field::File { name, chunks });
    assert(after_key.drop_first() =~= Seq::<Field>::empty());
    let written = Seq::<Seq<u8>>::empty().push(concat_chunks(chunks@));
    assert(spec_pipeline(cfg, fields) == spec_pipeline_from(cfg, after_key, true, Seq::empty()));
    assert(spec_pipeline_from(cfg, after_key, true, Seq::empty()) == spec_pipeline_from(
        cfg,
        after_key.drop_first(),
        true,
        written,
    ));
    assert(spec_pipeline_from(cfg, after_key.drop_first(), true, written).outcome is Accepted);
    assert(written =~= seq![concat_chunks(chunks@)]);
}

/// With a key configured, a file field that arrives before authorisation
/// fails with the missing-key error at once — whatever fields follow —
/// and nothing is persisted.
pub proof fn lemma_file_before_key(cfg: Config, f: Field, rest: Seq<Field>)
    requires
        cfg.key is Some,
        f is File,
    ensures
        spec_pipeline(cfg, seq![f] + rest).outcome is MissingKey,
        spec_pipeline(cfg, seq![f] + rest).persisted =~= Seq::<Seq<u8>>::empty(),
{
    let fields = seq![f] + rest;
    assert(fields.first() == f);
}

/// With a key configured, a request whose first field is a wrong (yet
/// well-formed) key fails as a whole — whatever fields follow — and no
/// file of that request is persisted.
pub proof fn lemma_wrong_key(cfg: Config, kb: Vec<u8>, rest: Seq<Field>)
    requires
        cfg.key is Some,
        vstd::utf8::valid_utf8(kb@),
        vstd::utf8::decode_utf8(kb@) != cfg.key->0@,
    ensures
        spec_pipeline(cfg, seq![Field::Key(kb)] + rest).outcome is WrongKey,
        spec_pipeline(cfg, seq![Field::Key(kb)] + rest).persisted =~= Seq::<Seq<u8>>::empty(),
{
    let fields = seq![Field::Key(kb)] + rest;
    assert(fields.first() == Field::Key(kb));
}

/// As long as no correct key field has been seen, nothing beyond what was
/// already written is persisted.
proof fn lemma_unauthorized_from(cfg: Config, fields: Seq<Field>, done: Seq<Seq<u8>>)
    requires
        cfg.key is Some,
        forall|i: int|
            0 <= i < fields.len() ==> !(#[trigger] fields[i] matches Field::Key(b)
                && key_matches(cfg, b@)),
    ensures
        spec_pipeline_from(cfg, fields, false, done).persisted =~= done,
    decreases fields.len(),
{
    if fields.len() > 0 {
        assert(!(fields[0] matches Field::Key(b) && key_matches(cfg, b@)));
        match fields.first() {
            Field::Key(b) => {
                if vstd::utf8::valid_utf8(b@) && vstd::utf8::decode_utf8(b@) == cfg.key->0@ {
                    assert(key_matches(cfg, b@));
                    assert(false);
                }
            },
            Field::File { name: _, chunks: _ } => {},
            Field::Ignored => {
                assert(forall|i: int|
                    0 <= i < fields.drop_first().len() ==> #[trigger] fields.drop_first()[i]
                        == fields[i + 1]);
                lemma_unauthorized_from(cfg, fields.drop_first(), done);
            },
        }
    }
}

/// With a key configured, a request that never presents the correct key
/// persists no file at all, whatever its fields are.
pub proof fn lemma_no_persist_unauthorized(cfg: Config, fields: Seq<Field>)
    requires
        cfg.key is Some,
        forall|i: int|
            0 <= i < fields.len() ==> !(#[trigger] fields[i] matches Field::Key(b)
                && key_matches(cfg, b@)),
    ensures
        spec_pipeline(cfg, fields).persisted =~= Seq::<Seq<u8>>::empty(),
{
    lemma_unauthorized_from(cfg, fields, Seq::empty());
}

/// A request with no file field at all ends with the no-files error and
/// persists nothing, when no key is configured.
proof fn lemma_no_files_from(cfg: Config, fields: Seq<Field>, authorized: bool)
    requires
        cfg.key is None,
        forall|i: int| 0 <= i < fields.len() ==> !(#[trigger] fields[i] is File),
    ensures
        spec_pipeline_from(cfg, fields, authorized, Seq::empty()).outcome is NoFiles,
        spec_pipeline_from(cfg, fields, authorized, Seq::empty()).persisted =~= Seq::<
            Seq<u8>,
        >::empty(),
    decreases fields.len(),
{
    if fields.len() > 0 {
        assert(!(fields[0] is File));
        assert(forall|i: int|
            0 <= i < fields.drop_first().len() ==> #[trigger] fields.drop_first()[i] == fields[i
                + 1]);
        match fields.first() {
            Field::Key(_) => {
                lemma_no_files_from(cfg, fields.drop_first(), authorized);
            },
            Field::File { name: _, chunks: _ } => {
                assert(false);
            },
            Field::Ignored => {
                lemma_no_files_from(cfg, fields.drop_first(), authorized);
            },
        }
    }
}

/// Uploading zero file fields fails with the no-files error: a request
/// without a single file field persists nothing and is rejected.
pub proof fn lemma_no_files(cfg: Config, fields: Seq<Field>)
    requires
        cfg.key is None,
        forall|i: int| 0 <= i < fields.len() ==> !(#[trigger] fields[i] is File),
    ensures
        spec_pipeline(cfg, fields).outcome is NoFiles,
        spec_pipeline(cfg, fields).persisted =~= Seq::<Seq<u8>>::empty(),
{
    lemma_no_files_from(cfg, fields, false);
}

} // verus!
