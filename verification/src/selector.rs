//! The best-match selector: reduces the set of matching records to one
//! primary result by a deterministic tie-break rule (trailer presence
//! first, then header token count), and to the remaining secondary
//! results.

use crate::hex::spec_token_count;
use crate::hex::token_count;
use crate::matcher::find_matches;
use crate::matcher::spec_header_pattern;
use crate::matcher::spec_match_set;
use crate::sig::views_of;
use crate::sig::FileSignature;
use crate::sig::SigError;
use crate::sig::SigView;
use vstd::prelude::*;

verus! {

/// Number of header tokens a record carries; an absent header counts as
/// zero.
pub open spec fn sig_header_tokens(v: SigView) -> nat {
    match v.header {
        None => 0,
        Some(s) => spec_token_count(s),
    }
}

/// The tie-break rule: candidate `c` displaces the running best `b` when
/// `c` has a trailer and `b` has none, or otherwise when `c` carries
/// strictly more header tokens. Equality never displaces, so earlier
/// records win exact ties.
pub open spec fn spec_improves(c: SigView, b: SigView) -> bool {
    if c.trailer is Some && b.trailer is None {
        true
    } else {
        sig_header_tokens(c) > sig_header_tokens(b)
    }
}

/// Index of the best record among the first `n` of `s`: a left fold that
/// starts with the first record and replaces it only on strict
/// improvement.
pub open spec fn spec_best_index_upto(s: Seq<SigView>, n: int) -> int
    decreases n,
{
    if n <= 1 {
        0
    } else {
        let b = spec_best_index_upto(s, n - 1);
        if spec_improves(s[n - 1], s[b]) {
            n - 1
        } else {
            b
        }
    }
}

/// Index of the best record of a non-empty sequence.
pub open spec fn spec_best_index(s: Seq<SigView>) -> int {
    spec_best_index_upto(s, s.len() as int)
}

/// The best index lies among the records folded over.
pub proof fn lemma_best_index_in_range(s: Seq<SigView>, n: int)
    requires
        1 <= n,
    ensures
        0 <= spec_best_index_upto(s, n) < n,
    decreases n,
{
    if n > 1 {
        lemma_best_index_in_range(s, n - 1);
    }
}

/// The records of `s` not structurally equal to `b`, in order.
pub open spec fn spec_remove_equal(s: Seq<SigView>, b: SigView) -> Seq<SigView>
    decreases s.len(),
{
    if s.len() == 0 {
        Seq::empty()
    } else {
        let rest = spec_remove_equal(s.drop_last(), b);
        if s.last() == b {
            rest
        } else {
            rest.push(s.last())
        }
    }
}

/// The secondary results of a non-empty match set: every record not
/// structurally equal to the selected best, in catalog order.
pub open spec fn spec_secondary(s: Seq<SigView>) -> Seq<SigView>
    recommends
        s.len() > 0,
{
    spec_remove_equal(s, s[spec_best_index(s)])
}

/// Number of header tokens of a record.
pub fn header_token_count(sig: &FileSignature) -> (n: usize)
    ensures
        n as nat == sig_header_tokens(sig@),
{
    match &sig.header {
        None => 0,
        Some(h) => token_count(h.as_str()),
    }
}

/// Decide the tie-break rule between a candidate and the running best.
pub fn sig_improves(c: &FileSignature, best: &FileSignature) -> (r: bool)
    ensures
        r == spec_improves(c@, best@),
{
    if c.trailer.is_some() && best.trailer.is_none() {
        true
    } else {
        header_token_count(c) > header_token_count(best)
    }
}

/// Choose the best match of a non-empty match set: fold the tie-break
/// rule left over the records, then list every record not structurally
/// equal to the winner as a secondary result, in order.
/// `Err(NoMatchFound)` reports an empty match set.
pub fn select_best(matches: &Vec<FileSignature>) -> (r: Result<
    (FileSignature, Vec<FileSignature>),
    SigError,
>)
    ensures
        (match r {
            Ok(p) => {
                &&& matches@.len() > 0
                &&& p.0@ == views_of(matches@)[spec_best_index(views_of(matches@))]
                &&& views_of(p.1@) == spec_secondary(views_of(matches@))
            },
            Err(e) => e == SigError::NoMatchFound && matches@.len() == 0,
        }),
{
    if matches.len() == 0 {
        return Err(SigError::NoMatchFound);
    }
    let ghost vs = views_of(matches@);
    let mut best: usize = 0;
    let mut i: usize = 1;
    while i < matches.len()
        invariant
            1 <= i <= vs.len(),
            vs == views_of(matches@),
            best < i,
            best as int == spec_best_index_upto(vs, i as int),
        decreases vs.len() - i,
    {
        proof {
            assert(vs[i as int] == matches@[i as int]@);
            assert(vs[best as int] == matches@[best as int]@);
        }
        if sig_improves(&matches[i], &matches[best]) {
            best = i;
        }
        i = i + 1;
    }
    let primary = matches[best].clone();
    proof {
        assert(primary@ == vs[spec_best_index(vs)]);
    }
    let mut sec: Vec<FileSignature> = Vec::new();
    let mut j: usize = 0;
    while j < matches.len()
        invariant
            j <= vs.len(),
            vs == views_of(matches@),
            vs.len() > 0,
            primary@ == vs[spec_best_index(vs)],
            views_of(sec@) == spec_remove_equal(vs.subrange(0, j as int), primary@),
        decreases vs.len() - j,
    {
        let m = &matches[j];
        let ghost prev = sec@;
        let equal = m.eq(&primary);
        if !equal {
            sec.push(m.clone());
        }
        proof {
            assert(vs.subrange(0, (j + 1) as int).drop_last() =~= vs.subrange(0, j as int));
            assert(vs.subrange(0, (j + 1) as int).last() == vs[j as int]);
            assert(vs[j as int] == matches@[j as int]@);
            if !equal {
                assert(views_of(sec@) =~= views_of(prev).push(vs[j as int]));
            }
            assert(views_of(sec@) == spec_remove_equal(vs.subrange(0, (j + 1) as int), primary@));
        }
        j = j + 1;
    }
    proof {
        assert(vs.subrange(0, vs.len() as int) =~= vs);
    }
    Ok((primary, sec))
}

/// Classify a buffer against a catalog: collect every record whose
/// header pattern matches the buffer's prefix, then choose the most
/// specific one; the remaining matches are the secondary results, in
/// catalog order. `Err(MalformedSignature)` reports the first record
/// whose header is not well-formed hex; `Err(NoMatchFound)` reports that
/// no record matched.
pub fn classify(buffer: &Vec<u8>, catalog: &Vec<FileSignature>) -> (r: Result<
    (FileSignature, Vec<FileSignature>),
    SigError,
>)
    ensures
        (match r {
            Ok(p) => {
                let ms = spec_match_set(buffer@, views_of(catalog@));
                &&& forall|j: int|
                    0 <= j < catalog@.len() ==> spec_header_pattern(
                        #[trigger] views_of(catalog@)[j].header,
                    ) is Some
                &&& ms.len() > 0
                &&& p.0@ == ms[spec_best_index(ms)]
                &&& views_of(p.1@) == spec_secondary(ms)
            },
            Err(e) => match e {
                SigError::MalformedSignature { index } => {
                    &&& (index as int) < catalog@.len()
                    &&& spec_header_pattern(views_of(catalog@)[index as int].header) is None
                    &&& forall|j: int|
                        0 <= j < index as int ==> spec_header_pattern(
                            #[trigger] views_of(catalog@)[j].header,
                        ) is Some
                },
                SigError::NoMatchFound => {
                    &&& forall|j: int|
                        0 <= j < catalog@.len() ==> spec_header_pattern(
                            #[trigger] views_of(catalog@)[j].header,
                        ) is Some
                    &&& spec_match_set(buffer@, views_of(catalog@)).len() == 0
                },
            },
        }),
{
    match find_matches(buffer, catalog) {
        Err(e) => Err(e),
        Ok(ms) => match select_best(&ms) {
            Ok(p) => Ok(p),
            Err(e) => Err(e),
        },
    }
}

/// Trailer priority: of two matches where only the later carries a
/// trailer, the later is selected, whatever the header lengths.
pub proof fn lemma_trailer_priority(a: SigView, b: SigView)
    requires
        a.trailer is None,
        b.trailer is Some,
    ensures
        spec_best_index(seq![a, b]) == 1,
{
    let s = seq![a, b];
    assert(spec_best_index_upto(s, 1) == 0);
    assert(spec_improves(s[1], s[0]));
}

/// Trailer priority with the trailer-bearing match first: it stays
/// selected as long as the later match carries no more header tokens.
pub proof fn lemma_trailer_priority_first(a: SigView, b: SigView)
    requires
        a.trailer is Some,
        b.trailer is None,
        sig_header_tokens(b) <= sig_header_tokens(a),
    ensures
        spec_best_index(seq![a, b]) == 0,
{
    let s = seq![a, b];
    assert(spec_best_index_upto(s, 1) == 0);
    assert(!spec_improves(s[1], s[0]));
}

/// Header-length priority and stability on ties: of two matches with
/// equal trailer presence, the one with strictly more header tokens is
/// selected; when the counts are equal too, the first stays.
pub proof fn lemma_header_length_priority(a: SigView, b: SigView)
    requires
        (a.trailer is Some) == (b.trailer is Some),
    ensures
        spec_best_index(seq![a, b]) == (if sig_header_tokens(b) > sig_header_tokens(a) {
            1int
        } else {
            0int
        }),
{
    let s = seq![a, b];
    assert(spec_best_index_upto(s, 1) == 0);
    assert(spec_improves(s[1], s[0]) == (sig_header_tokens(b) > sig_header_tokens(a)));
}

} // verus!
