//! The signature record type, its mathematical view, and the error type.

use vstd::prelude::*;

verus! {

/// One catalog entry describing a file format: the header bytes expected
/// at the start of a file (hex tokens), an optional trailer pattern
/// (carried as metadata and used only for tie-breaking), and descriptive
/// fields.
#[derive(Debug)]
pub struct FileSignature {
    /// Whitespace-delimited two-digit hex tokens expected at the start of
    /// the file; `None` means no header constraint (matches everything).
    pub header: Option<String>,
    /// Byte pattern expected at the end of the file. Presence only raises
    /// the record's priority during best-match selection; the bytes are
    /// never compared against the buffer.
    pub trailer: Option<String>,
    /// Byte offset metadata; not used by the matching algorithm.
    pub offset: u64,
    /// Pipe-delimited filename extensions associated with the format.
    pub ext: String,
    /// Short classification string, e.g. "image" or "archive".
    pub category: String,
    /// Human-readable name of the format.
    pub desc: String,
}

/// The mathematical value of a [`FileSignature`]: every field as a plain
/// sequence value. Two records are structurally equal exactly when their
/// views are equal.
#[verifier::ext_equal]
pub struct SigView {
    pub header: Option<Seq<char>>,
    pub trailer: Option<Seq<char>>,
    pub offset: u64,
    pub ext: Seq<char>,
    pub category: Seq<char>,
    pub desc: Seq<char>,
}

pub open spec fn view_of_opt_string(s: Option<String>) -> Option<Seq<char>> {
    match s {
        Some(x) => Some(x@),
        None => None,
    }
}

impl View for FileSignature {
    type V = SigView;

    open spec fn view(&self) -> SigView {
        SigView {
            header: view_of_opt_string(self.header),
            trailer: view_of_opt_string(self.trailer),
            offset: self.offset,
            ext: self.ext@,
            category: self.category@,
            desc: self.desc@,
        }
    }
}

/// The sequence of views of a sequence of records.
pub open spec fn views_of(cat: Seq<FileSignature>) -> Seq<SigView> {
    cat.map_values(|s: FileSignature| s@)
}

fn opt_string_eq(a: &Option<String>, b: &Option<String>) -> (r: bool)
    ensures
        r == (view_of_opt_string(*a) == view_of_opt_string(*b)),
{
    match (a, b) {
        (Some(x), Some(y)) => x.eq(y),
        (None, None) => true,
        _ => false,
    }
}

fn opt_string_clone(a: &Option<String>) -> (r: Option<String>)
    ensures
        view_of_opt_string(r) == view_of_opt_string(*a),
{
    match a {
        Some(x) => Some(x.clone()),
        None => None,
    }
}

impl Clone for FileSignature {
    /// A clone has the same view as the original.
    fn clone(&self) -> (r: Self)
        ensures
            r@ == self@,
    {
        let r = FileSignature {
            header: opt_string_clone(&self.header),
            trailer: opt_string_clone(&self.trailer),
            offset: self.offset,
            ext: self.ext.clone(),
            category: self.category.clone(),
            desc: self.desc.clone(),
        };
        assert(r@ =~= self@);
        r
    }
}

impl PartialEq for FileSignature {
    /// Structural equality: field by field, strings by contents.
    fn eq(&self, other: &FileSignature) -> (r: bool) {
        let r = opt_string_eq(&self.header, &other.header)
            && opt_string_eq(&self.trailer, &other.trailer) && self.offset == other.offset
            && self.ext == other.ext && self.category == other.category
            && self.desc == other.desc;
        proof {
            if r {
                assert(self@ =~= other@);
            } else {
                assert(self@ != other@);
            }
        }
        r
    }
}

impl vstd::std_specs::cmp::PartialEqSpecImpl for FileSignature {
    open spec fn obeys_eq_spec() -> bool {
        true
    }

    open spec fn eq_spec(&self, other: &FileSignature) -> bool {
        self@ == other@
    }
}

/// Why signature matching or selection failed.
#[derive(Debug, Clone, Copy, PartialEq, Eq, Structural)]
pub enum SigError {
    /// A catalog record's header holds a token that is not exactly two
    /// hexadecimal digits; `index` is the position of the first such
    /// record in the catalog handed in.
    MalformedSignature { index: usize },
    /// No catalog record matched the buffer.
    NoMatchFound,
}

} // verus!
