//! Generating the stored name of an uploaded file: a random alphanumeric
//! prefix joined by a dash to the sanitised client name, or to `upload`
//! when the client supplied none.

use crate::slug::{clean_filename, is_ascii_alnum, spec_clean, url_safe, url_safe_char};
use rand::RngExt;
use vstd::prelude::*;
use vstd::string::StringExecFns;

verus! {

/// Every character of the sequence is an ASCII letter or digit.
pub open spec fn alnum_seq(s: Seq<char>) -> bool {
    forall|i: int| 0 <= i < s.len() ==> is_ascii_alnum(#[trigger] s[i])
}

/// Relies on rand's `Alphanumeric` distribution: each sampled byte is an
/// ASCII letter or digit, and `take(len)` yields exactly `len` of them.
#[verifier::external_body]
fn random_string(len: usize) -> (r: String)
    ensures
        r@.len() == len,
        alnum_seq(r@),
{
    rand::rng().sample_iter(rand::distr::Alphanumeric).take(len).map(char::from).collect()
}

/// An ASCII letter or digit is acceptable in a URL path segment.
proof fn lemma_alnum_url_safe(c: char)
    requires
        is_ascii_alnum(c),
    ensures
        url_safe_char(c),
{
    assert('/' as u32 == 47 && '\\' as u32 == 92);
}

/// Generate the stored name for one uploaded file. With a client name it
/// is four random alphanumerics, a dash, then the sanitised client name;
/// without one it is ten random alphanumerics, a dash, then `upload`.
/// Either way the name is safe as one URL path segment.
pub fn stored_name(client_name: Option<&str>) -> (r: String)
    ensures
        url_safe(r@),
        client_name is Some ==> {
            let cleaned = spec_clean(client_name->0@);
            &&& r@.len() == 5 + cleaned.len()
            &&& alnum_seq(r@.subrange(0, 4))
            &&& r@[4] == '-'
            &&& r@.subrange(5, r@.len() as int) == cleaned
        },
        client_name is None ==> {
            &&& r@.len() == 17
            &&& alnum_seq(r@.subrange(0, 10))
            &&& r@[10] == '-'
            &&& r@.subrange(11, 17) == "upload"@
        },
{
    match client_name {
        Some(name) => {
            let prefix = random_string(4);
            let cleaned = clean_filename(name);
            let r = prefix.concat("-").concat(cleaned.as_str());
            proof {
                reveal_strlit("-");
                assert(r@.subrange(0, 4) =~= prefix@);
                assert(r@.subrange(5, r@.len() as int) =~= cleaned@);
                assert forall|i: int| 0 <= i < r@.len() implies url_safe_char(r@[i]) by {
                    if i < 4 {
                        lemma_alnum_url_safe(prefix@[i]);
                    } else if i == 4 {
                        assert('-' as u32 == 45);
                    } else {
                        assert(r@[i] == cleaned@[i - 5]);
                    }
                }
            }
            r
        },
        None => {
            let prefix = random_string(10);
            let r = prefix.concat("-upload");
            proof {
                reveal_strlit("-upload");
                reveal_strlit("upload");
                assert(r@.subrange(0, 10) =~= prefix@);
                assert(r@.subrange(11, 17) =~= "upload"@);
                assert forall|i: int| 0 <= i < r@.len() implies url_safe_char(r@[i]) by {
                    if i < 10 {
                        lemma_alnum_url_safe(prefix@[i]);
                    }
                }
            }
            r
        },
    }
}

} // verus!
