//! Extension-list formatting: splitting the pipe-delimited extension
//! field of a record and rendering the pieces as a human-readable
//! conjunction.

use crate::hex::push_char;
use vstd::prelude::*;
use vstd::string::StrSliceExecFns;
use vstd::string::StringExecFns;

verus! {

/// The pieces of the suffix of `s` starting at `i`, split on `sep`.
/// Splitting always yields at least one piece; the empty string yields
/// one empty piece.
pub open spec fn spec_split_from(s: Seq<char>, sep: char, i: int) -> Seq<Seq<char>>
    decreases s.len() - i,
{
    if i >= s.len() {
        seq![Seq::<char>::empty()]
    } else if s[i] == sep {
        seq![Seq::<char>::empty()].add(spec_split_from(s, sep, i + 1))
    } else {
        let rest = spec_split_from(s, sep, i + 1);
        seq![seq![s[i]].add(rest[0])].add(rest.drop_first())
    }
}

/// The pieces of `s` split on `sep`.
pub open spec fn spec_split(s: Seq<char>, sep: char) -> Seq<Seq<char>> {
    spec_split_from(s, sep, 0)
}

/// Splitting yields at least one piece.
pub proof fn lemma_split_from_len(s: Seq<char>, sep: char, i: int)
    ensures
        spec_split_from(s, sep, i).len() >= 1,
    decreases s.len() - i,
{
    if i < s.len() {
        lemma_split_from_len(s, sep, i + 1);
    }
}

/// The view of each string of a vector.
pub open spec fn string_views(v: Seq<String>) -> Seq<Seq<char>> {
    v.map_values(|s: String| s@)
}

/// Split a string on the pipe character, the delimiter of the extension
/// field of a signature record.
pub fn split_extensions(ext: &str) -> (r: Vec<String>)
    ensures
        string_views(r@) == spec_split(ext@, '|'),
{
    let n = ext.unicode_len();
    let mut pieces: Vec<String> = Vec::new();
    let mut cur = String::new();
    let mut i: usize = 0;
    loop
        invariant
            i <= n,
            n == ext@.len(),
            ({
                let rest = spec_split_from(ext@, '|', i as int);
                spec_split(ext@, '|') == string_views(pieces@).add(
                    seq![cur@.add(rest[0])].add(rest.drop_first()),
                )
            }),
        decreases n - i,
    {
        let ghost rest = spec_split_from(ext@, '|', i as int);
        let ghost pv = string_views(pieces@);
        let ghost cv = cur@;
        if i >= n {
            proof {
                assert(rest =~= seq![Seq::<char>::empty()]);
                assert(cv.add(rest[0]) =~= cv);
                assert(seq![cv.add(rest[0])].add(rest.drop_first()) =~= seq![cv]);
            }
            pieces.push(cur);
            proof {
                assert(string_views(pieces@) =~= pv.push(cv));
                assert(pv.add(seq![cv]) =~= pv.push(cv));
            }
            return pieces;
        }
        let c = ext.get_char(i);
        let ghost rest1 = spec_split_from(ext@, '|', i + 1);
        proof {
            lemma_split_from_len(ext@, '|', i + 1);
        }
        if c == '|' {
            pieces.push(cur);
            cur = String::new();
            proof {
                assert(rest == seq![Seq::<char>::empty()].add(rest1));
                assert(cv.add(rest[0]) =~= cv);
                assert(rest.drop_first() =~= rest1);
                assert(string_views(pieces@) =~= pv.push(cv));
                assert(cur@.add(rest1[0]) =~= rest1[0]);
                assert(rest1 =~= seq![rest1[0]].add(rest1.drop_first()));
                // both sides list the pieces before position i + 1, then
                // the piece under construction, then the pieces after it
                assert(pv.add(seq![cv.add(rest[0])].add(rest.drop_first())) =~= pv.push(cv).add(
                    seq![cur@.add(rest1[0])].add(rest1.drop_first()),
                ));
            }
            i = i + 1;
        } else {
            push_char(&mut cur, c);
            proof {
                assert(rest == seq![seq![ext@[i as int]].add(rest1[0])].add(rest1.drop_first()));
                assert(cur@ =~= cv.push(c));
                assert(cv.add(rest[0]) =~= cur@.add(rest1[0]));
                assert(rest.drop_first() =~= rest1.drop_first());
                assert(pv.add(seq![cv.add(rest[0])].add(rest.drop_first())) =~= pv.add(
                    seq![cur@.add(rest1[0])].add(rest1.drop_first()),
                ));
            }
            i = i + 1;
        }
    }
}

/// The comma-joined rendering of the first `n` pieces: each piece
/// followed by a comma and a space.
pub open spec fn spec_comma_join_upto(exts: Seq<Seq<char>>, n: int) -> Seq<char>
    decreases n,
{
    if n <= 0 {
        Seq::empty()
    } else {
        spec_comma_join_upto(exts, n - 1).add(exts[n - 1]).add(", "@)
    }
}

/// The human-readable conjunction of a list of extensions: one extension
/// verbatim, two joined by "or", three or more comma-separated with an
/// "or" before the last; an empty list, or a sole empty extension, reads
/// "variable or empty extension".
pub open spec fn spec_human_readable(exts: Seq<Seq<char>>) -> Seq<char> {
    if exts.len() == 0 || (exts.len() == 1 && exts[0].len() == 0) {
        "variable or empty extension"@
    } else if exts.len() == 1 {
        exts[0]
    } else if exts.len() == 2 {
        exts[0].add(" or "@).add(exts[1])
    } else {
        spec_comma_join_upto(exts, exts.len() - 1).add("or "@).add(exts.last())
    }
}

/// Render a list of filename extensions as a human-readable conjunction.
pub fn vec_to_human_readable_string(vec: &Vec<String>) -> (r: String)
    ensures
        r@ == spec_human_readable(string_views(vec@)),
{
    let ghost vs = string_views(vec@);
    if vec.len() == 0 || (vec.len() == 1 && vec[0].as_str().is_empty()) {
        return String::from_str("variable or empty extension");
    }
    if vec.len() == 1 {
        return vec[0].clone();
    }
    if vec.len() == 2 {
        let mut s = vec[0].clone();
        s.append(" or ");
        s.append(vec[1].as_str());
        return s;
    }
    let mut s = String::new();
    let mut i: usize = 0;
    while i < vec.len() - 1
        invariant
            vs == string_views(vec@),
            vec@.len() >= 3,
            i <= vec@.len() - 1,
            s@ == spec_comma_join_upto(vs, i as int),
        decreases vec@.len() - i,
    {
        s.append(vec[i].as_str());
        s.append(", ");
        i = i + 1;
    }
    s.append("or ");
    s.append(vec[vec.len() - 1].as_str());
    s
}

} // verus!
