//! Sanitising a client-supplied filename into a URL-path-safe slug:
//! lowercase, keep ASCII alphanumerics and periods, collapse every other
//! run of characters to a single dash, trim dashes at both ends.

use vstd::prelude::*;

verus! {

/// The lowercased form of a text, as `str::to_lowercase` computes it.
pub uninterp spec fn lower_of(s: Seq<char>) -> Seq<char>;

/// Relies on `str::to_lowercase`: the result depends on the characters
/// alone; its chars are then collected into a vector.
#[verifier::external_body]
fn lower_chars(s: &str) -> (r: Vec<char>)
    ensures
        r@ == lower_of(s@),
{
    s.to_lowercase().chars().collect()
}

/// Relies on `String`'s `FromIterator<char>`: collecting chars yields a
/// string whose chars are exactly the input sequence.
#[verifier::external_body]
fn chars_to_string(v: &Vec<char>) -> (r: String)
    ensures
        r@ == v@,
{
    v.iter().collect()
}

/// An ASCII letter or digit.
pub open spec fn is_ascii_alnum(c: char) -> bool {
    (97 <= c as u32 && c as u32 <= 122) || (65 <= c as u32 && c as u32 <= 90) || (48 <= c as u32
        && c as u32 <= 57)
}

/// A character the slug keeps as it stands.
pub open spec fn keep_char(c: char) -> bool {
    is_ascii_alnum(c) || c == '.'
}

/// A character acceptable in a URL path segment: not a path separator
/// and not a control character.
pub open spec fn url_safe_char(c: char) -> bool {
    c != '/' && c != '\\' && c as u32 >= 32 && c as u32 != 127
}

/// Every character of the sequence is acceptable in a URL path segment.
pub open spec fn url_safe(s: Seq<char>) -> bool {
    forall|i: int| 0 <= i < s.len() ==> url_safe_char(s[i])
}

/// The slug before trimming: keep the kept characters, collapse every
/// maximal run of other characters to one dash.
pub open spec fn slug_of(s: Seq<char>) -> Seq<char>
    decreases s.len(),
{
    if s.len() == 0 {
        Seq::empty()
    } else {
        let prefix = slug_of(s.drop_last());
        let c = s.last();
        if keep_char(c) {
            prefix.push(c)
        } else if prefix.len() > 0 && prefix.last() == '-' {
            prefix
        } else {
            prefix.push('-')
        }
    }
}

/// The sequence without its leading dashes.
pub open spec fn drop_leading_dashes(s: Seq<char>) -> Seq<char>
    decreases s.len(),
{
    if s.len() > 0 && s.first() == '-' {
        drop_leading_dashes(s.drop_first())
    } else {
        s
    }
}

/// The sequence without its trailing dashes.
pub open spec fn drop_trailing_dashes(s: Seq<char>) -> Seq<char>
    decreases s.len(),
{
    if s.len() > 0 && s.last() == '-' {
        drop_trailing_dashes(s.drop_last())
    } else {
        s
    }
}

/// The sanitised form of a filename: lowercase it, slug it, trim dashes.
pub open spec fn spec_clean(s: Seq<char>) -> Seq<char> {
    drop_trailing_dashes(drop_leading_dashes(slug_of(lower_of(s))))
}

/// Whether the slug keeps this character, decided exactly as `keep_char`.
fn is_keep(c: char) -> (r: bool)
    ensures
        r == keep_char(c),
{
    let u = c as u32;
    (97 <= u && u <= 122) || (65 <= u && u <= 90) || (48 <= u && u <= 57) || c == '.'
}

/// Every character of the untrimmed slug is a kept character or a dash.
pub proof fn lemma_slug_chars(s: Seq<char>)
    ensures
        forall|i: int| 0 <= i < slug_of(s).len() ==> keep_char(slug_of(s)[i]) || slug_of(s)[i]
            == '-',
    decreases s.len(),
{
    if s.len() > 0 {
        lemma_slug_chars(s.drop_last());
        let prefix = slug_of(s.drop_last());
        let c = s.last();
        assert forall|i: int| 0 <= i < slug_of(s).len() implies keep_char(slug_of(s)[i])
            || slug_of(s)[i] == '-' by {
            if i < prefix.len() {
                assert(keep_char(prefix[i]) || prefix[i] == '-');
            }
        }
    }
}

/// Dropping leading dashes yields a suffix; its characters come from the input.
proof fn lemma_drop_leading_is_suffix(s: Seq<char>)
    ensures
        exists|k: int|
            0 <= k <= s.len() && drop_leading_dashes(s) == s.subrange(k, s.len() as int),
    decreases s.len(),
{
    if s.len() > 0 && s.first() == '-' {
        lemma_drop_leading_is_suffix(s.drop_first());
        let k0 = choose|k: int|
            0 <= k <= s.drop_first().len() && drop_leading_dashes(s.drop_first())
                == s.drop_first().subrange(k, s.drop_first().len() as int);
        assert(s.drop_first().subrange(k0, s.drop_first().len() as int) =~= s.subrange(
            k0 + 1,
            s.len() as int,
        ));
    } else {
        assert(s =~= s.subrange(0, s.len() as int));
    }
}

/// Dropping trailing dashes yields a prefix; its characters come from the input.
proof fn lemma_drop_trailing_is_prefix(s: Seq<char>)
    ensures
        exists|k: int| 0 <= k <= s.len() && drop_trailing_dashes(s) == s.subrange(0, k),
    decreases s.len(),
{
    if s.len() > 0 && s.last() == '-' {
        lemma_drop_trailing_is_prefix(s.drop_last());
        let k0 = choose|k: int|
            0 <= k <= s.drop_last().len() && drop_trailing_dashes(s.drop_last())
                == s.drop_last().subrange(0, k);
        assert(s.drop_last().subrange(0, k0) =~= s.subrange(0, k0));
    } else {
        assert(s =~= s.subrange(0, s.len() as int));
    }
}

/// The sanitised filename is acceptable in a URL path segment: it holds
/// no slash, no backslash and no control character.
pub proof fn lemma_clean_url_safe(s: Seq<char>)
    ensures
        url_safe(spec_clean(s)),
{
    let base = slug_of(lower_of(s));
    lemma_slug_chars(lower_of(s));
    let led = drop_leading_dashes(base);
    lemma_drop_leading_is_suffix(base);
    assert(forall|i: int| 0 <= i < led.len() ==> keep_char(led[i]) || led[i] == '-');
    lemma_drop_trailing_is_prefix(led);
    assert(forall|i: int|
        0 <= i < spec_clean(s).len() ==> keep_char(spec_clean(s)[i]) || spec_clean(s)[i] == '-');
    assert(forall|c: char| keep_char(c) || c == '-' ==> url_safe_char(c)) by {
        assert('.' as u32 == 46 && '-' as u32 == 45 && '/' as u32 == 47 && '\\' as u32 == 92);
    }
}

/// Sanitise a client-supplied filename into a slug that is safe as one
/// URL path segment.
pub fn clean_filename(filename: &str) -> (r: String)
    ensures
        r@ == spec_clean(filename@),
        url_safe(r@),
{
    let lower = lower_chars(filename);
    let mut slug: Vec<char> = Vec::new();
    let mut i: usize = 0;
    while i < lower.len()
        invariant
            i <= lower.len(),
            slug@ == slug_of(lower@.take(i as int)),
        decreases lower.len() - i,
    {
        let c = lower[i];
        proof {
            assert(lower@.take(i + 1).drop_last() =~= lower@.take(i as int));
            assert(lower@.take(i + 1).last() == lower@[i as int]);
        }
        if is_keep(c) {
            slug.push(c);
        } else if slug.len() == 0 || slug[slug.len() - 1] != '-' {
            slug.push('-');
        }
        i += 1;
    }
    proof {
        assert(lower@.take(lower@.len() as int) =~= lower@);
    }
    let ghost full = slug@;
    proof {
        assert(full.subrange(0, full.len() as int) =~= full);
    }
    let mut start: usize = 0;
    while start < slug.len() && slug[start] == '-'
        invariant
            start <= slug.len(),
            slug@ == full,
            drop_leading_dashes(full) == drop_leading_dashes(
                full.subrange(start as int, full.len() as int),
            ),
        decreases slug.len() - start,
    {
        proof {
            assert(full.subrange(start as int, full.len() as int).drop_first() =~= full.subrange(
                start + 1,
                full.len() as int,
            ));
        }
        start += 1;
    }
    let ghost led = drop_leading_dashes(full);
    proof {
        assert(led == full.subrange(start as int, full.len() as int));
    }
    let mut end: usize = slug.len();
    while end > start && slug[end - 1] == '-'
        invariant
            start <= end <= slug.len(),
            slug@ == full,
            led == full.subrange(start as int, full.len() as int),
            drop_trailing_dashes(led) == drop_trailing_dashes(
                full.subrange(start as int, end as int),
            ),
        decreases end,
    {
        proof {
            assert(full.subrange(start as int, end as int).drop_last() =~= full.subrange(
                start as int,
                end - 1,
            ));
        }
        end -= 1;
    }
    proof {
        if end == start {
            assert(full.subrange(start as int, end as int) =~= Seq::<char>::empty());
        }
        assert(drop_trailing_dashes(led) == full.subrange(start as int, end as int));
    }
    let mut out: Vec<char> = Vec::new();
    let mut j: usize = start;
    while j < end
        invariant
            start <= j <= end <= slug.len(),
            slug@ == full,
            out@ == full.subrange(start as int, j as int),
        decreases end - j,
    {
        out.push(slug[j]);
        proof {
            assert(full.subrange(start as int, j + 1) =~= full.subrange(start as int, j as int).push(
                full[j as int],
            ));
        }
        j += 1;
    }
    proof {
        lemma_clean_url_safe(filename@);
    }
    chars_to_string(&out)
}

} // verus!
