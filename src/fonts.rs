//! Registering a font file: whether it is loaded already.
use vstd::prelude::*;

verus! {

/// Where a loaded font face came from.
#[derive(PartialEq, Eq, Clone, Debug)]
pub enum FontSource {
    /// Font data held in memory.
    Binary,
    /// A font file read from disk.
    File(String),
    /// A font file mapped into memory.
    SharedFile(String),
}

/// What registering a font file comes to.
#[derive(PartialEq, Eq, Clone, Debug)]
pub enum FontRegistration {
    /// A face from that file is loaded already: nothing to do.
    AlreadyRegistered,
    /// The file is to be loaded from this path.
    LoadFile(String),
}

/// Whether `source` is the file at `path`.
pub open spec fn is_file_at(source: FontSource, path: Seq<char>) -> bool {
    match source {
        FontSource::Binary => false,
        FontSource::File(p) => p@ == path,
        FontSource::SharedFile(p) => p@ == path,
    }
}

fn same_path(a: &String, b: &str) -> (r: bool)
    ensures
        r == (a@ == b@),
{
    let s: &str = a.as_str();
    let n = s.unicode_len();
    if n != b.unicode_len() {
        return false;
    }
    let mut i: usize = 0;
    while i < n
        invariant
            s@ == a@,
            n == a@.len() == b@.len(),
            i <= n,
            forall|j: int| 0 <= j < i ==> a@[j] == b@[j],
        decreases n - i,
    {
        if s.get_char(i) != b.get_char(i) {
            assert(a@[i as int] != b@[i as int]);
            return false;
        }
        i = i + 1;
    }
    assert(a@ =~= b@);
    true
}

/// Decides how to register the font file at `requested_path` (already made
/// canonical) given the sources of the faces loaded so far: a file that a
/// loaded face came from is not loaded twice.
pub fn register_font_from_path(loaded: &Vec<FontSource>, requested_path: &str) -> (r:
    FontRegistration)
    ensures
        (r == FontRegistration::AlreadyRegistered) <==> exists|i: int|
            0 <= i < loaded@.len() && is_file_at(#[trigger] loaded@[i], requested_path@),
        r matches FontRegistration::LoadFile(p) ==> p@ == requested_path@,
{
    let mut i: usize = 0;
    while i < loaded.len()
        invariant
            i <= loaded@.len(),
            forall|j: int| 0 <= j < i ==> !is_file_at(#[trigger] loaded@[j], requested_path@),
        decreases loaded.len() - i,
    {
        let found = match &loaded[i] {
            FontSource::Binary => false,
            FontSource::File(p) => same_path(p, requested_path),
            FontSource::SharedFile(p) => same_path(p, requested_path),
        };
        if found {
            return FontRegistration::AlreadyRegistered;
        }
        i = i + 1;
    }
    FontRegistration::LoadFile(requested_path.to_string())
}

} // verus!
