//! The signature matcher: decides whether a record's header pattern
//! occurs at the start of a byte buffer, and collects the matching
//! subset of a catalog.

use crate::hex::decode_header;
use crate::hex::spec_decode_header;
use crate::sig::views_of;
use crate::sig::FileSignature;
use crate::sig::SigError;
use crate::sig::SigView;
use vstd::prelude::*;

verus! {

/// The byte pattern a record's header field denotes: an absent header is
/// the empty pattern; `None` reports a malformed header.
pub open spec fn spec_header_pattern(h: Option<Seq<char>>) -> Option<Seq<u8>> {
    match h {
        None => Some(Seq::empty()),
        Some(s) => spec_decode_header(s),
    }
}

/// `pat` occurs byte-for-byte at the start of `buf`.
pub open spec fn spec_prefix_match(buf: Seq<u8>, pat: Seq<u8>) -> bool {
    buf.len() >= pat.len() && (forall|i: int| 0 <= i < pat.len() ==> buf[i] == pat[i])
}

/// The record matches the buffer: its header pattern is well formed and
/// occurs at the start of the buffer.
pub open spec fn spec_sig_matches(buf: Seq<u8>, v: SigView) -> bool {
    match spec_header_pattern(v.header) {
        Some(pat) => spec_prefix_match(buf, pat),
        None => false,
    }
}

/// The subsequence of catalog records that match the buffer, in catalog
/// order.
pub open spec fn spec_match_set(buf: Seq<u8>, cat: Seq<SigView>) -> Seq<SigView>
    decreases cat.len(),
{
    if cat.len() == 0 {
        Seq::empty()
    } else {
        let rest = spec_match_set(buf, cat.drop_last());
        if spec_sig_matches(buf, cat.last()) {
            rest.push(cat.last())
        } else {
            rest
        }
    }
}

/// Prefix matching correctness: a record with a well-formed header
/// pattern matches the buffer exactly when the buffer is at least as
/// long as the pattern and starts with it byte-for-byte.
pub proof fn lemma_prefix_matching(buf: Seq<u8>, v: SigView, pat: Seq<u8>)
    requires
        spec_header_pattern(v.header) == Some(pat),
    ensures
        spec_sig_matches(buf, v) <==> (buf.len() >= pat.len() && buf.subrange(
            0,
            pat.len() as int,
        ) == pat),
{
    if spec_sig_matches(buf, v) {
        assert(buf.subrange(0, pat.len() as int) =~= pat);
    }
    if buf.len() >= pat.len() && buf.subrange(0, pat.len() as int) == pat {
        assert forall|i: int| 0 <= i < pat.len() implies buf[i] == pat[i] by {
            assert(buf.subrange(0, pat.len() as int)[i] == buf[i]);
        }
    }
}

/// A record without a header constraint matches every buffer, the empty
/// buffer included.
pub proof fn lemma_vacuous_header(buf: Seq<u8>, v: SigView)
    requires
        v.header is None,
    ensures
        spec_sig_matches(buf, v),
{
}

/// Test whether a pattern occurs byte-for-byte at the start of a buffer.
pub fn prefix_matches(buffer: &Vec<u8>, pattern: &Vec<u8>) -> (r: bool)
    ensures
        r == spec_prefix_match(buffer@, pattern@),
{
    if pattern.len() > buffer.len() {
        return false;
    }
    let mut i: usize = 0;
    while i < pattern.len()
        invariant
            pattern@.len() <= buffer@.len(),
            i <= pattern@.len(),
            forall|j: int| 0 <= j < i ==> buffer@[j] == pattern@[j],
        decreases pattern@.len() - i,
    {
        if buffer[i] != pattern[i] {
            return false;
        }
        i = i + 1;
    }
    true
}

/// The header pattern bytes of a record; `None` reports a malformed
/// header.
pub fn header_pattern(sig: &FileSignature) -> (r: Option<Vec<u8>>)
    ensures
        (match r {
            Some(v) => spec_header_pattern(sig@.header) == Some(v@),
            None => spec_header_pattern(sig@.header) is None,
        }),
{
    match &sig.header {
        None => {
            let v: Vec<u8> = Vec::new();
            Some(v)
        },
        Some(h) => decode_header(h.as_str()),
    }
}

/// Decide whether one record matches the buffer's prefix; `None` reports
/// a malformed header pattern in the record.
pub fn signature_matches(buffer: &Vec<u8>, sig: &FileSignature) -> (r: Option<bool>)
    ensures
        (match r {
            Some(b) => spec_header_pattern(sig@.header) is Some && b == spec_sig_matches(
                buffer@,
                sig@,
            ),
            None => spec_header_pattern(sig@.header) is None,
        }),
{
    match header_pattern(sig) {
        Some(pat) => Some(prefix_matches(buffer, &pat)),
        None => None,
    }
}

/// Every catalog record whose header matches the buffer's prefix, in
/// catalog order. `Err` carries the index of the first record whose
/// header pattern is malformed; the catalog is rejected as a whole in
/// that case, since it indicates a corrupt signature database.
pub fn find_matches(buffer: &Vec<u8>, catalog: &Vec<FileSignature>) -> (r: Result<
    Vec<FileSignature>,
    SigError,
>)
    ensures
        (match r {
            Ok(ms) => {
                &&& forall|j: int|
                    0 <= j < catalog@.len() ==> spec_header_pattern(
                        #[trigger] views_of(catalog@)[j].header,
                    ) is Some
                &&& views_of(ms@) == spec_match_set(buffer@, views_of(catalog@))
            },
            Err(e) => match e {
                SigError::MalformedSignature { index } => {
                    &&& (index as int) < catalog@.len()
                    &&& spec_header_pattern(views_of(catalog@)[index as int].header) is None
                    &&& forall|j: int|
                        0 <= j < index as int ==> spec_header_pattern(
                            #[trigger] views_of(catalog@)[j].header,
                        ) is Some
                },
                SigError::NoMatchFound => false,
            },
        }),
{
    let mut out: Vec<FileSignature> = Vec::new();
    let mut i: usize = 0;
    while i < catalog.len()
        invariant
            i <= catalog@.len(),
            forall|j: int|
                0 <= j < i ==> spec_header_pattern(
                    #[trigger] views_of(catalog@)[j].header,
                ) is Some,
            views_of(out@) == spec_match_set(buffer@, views_of(catalog@).subrange(0, i as int)),
        decreases catalog@.len() - i,
    {
        let sig = &catalog[i];
        proof {
            assert(views_of(catalog@)[i as int] == catalog@[i as int]@);
        }
        match signature_matches(buffer, sig) {
            None => {
                return Err(SigError::MalformedSignature { index: i });
            },
            Some(m) => {
                let ghost prev = out@;
                if m {
                    out.push(sig.clone());
                    proof {
                        assert(views_of(out@) =~= views_of(prev).push(catalog@[i as int]@));
                    }
                }
                proof {
                    let ghost cv = views_of(catalog@);
                    assert(cv.subrange(0, (i + 1) as int).drop_last() =~= cv.subrange(0, i as int));
                    assert(cv.subrange(0, (i + 1) as int).last() == cv[i as int]);
                    assert(views_of(out@) == spec_match_set(
                        buffer@,
                        cv.subrange(0, (i + 1) as int),
                    ));
                }
            },
        }
        i = i + 1;
    }
    proof {
        assert(views_of(catalog@).subrange(0, catalog@.len() as int) =~= views_of(catalog@));
    }
    Ok(out)
}

} // verus!
