//! The files that a component brings along, and the grammar of their paths.

use vstd::prelude::*;
use vstd::string::*;
use crate::model::InitialComponentFilePermissions;
use crate::text::chars_of;

verus! {

/// The segment that follows the separator at position `i` is `.` or `..`.
pub open spec fn is_dot_segment(s: Seq<char>, i: int) -> bool {
    &&& 0 <= i && i + 1 < s.len()
    &&& s[i] == '/'
    &&& s[i + 1] == '.'
    &&& (i + 2 == s.len() || s[i + 2] == '/' || (s[i + 2] == '.' && (i + 3 == s.len() || s[i
        + 3] == '/')))
}

/// The grammar of a path inside a worker's sandbox: it starts at the root
/// and none of its segments is `.` or `..`.
pub open spec fn valid_path(s: Seq<char>) -> bool {
    &&& s.len() > 0
    &&& s[0] == '/'
    &&& forall|i: int| 0 <= i < s.len() ==> !is_dot_segment(s, i)
}

fn dot_segment_at(s: &Vec<char>, i: usize) -> (r: bool)
    requires
        i < s.len(),
    ensures
        r == is_dot_segment(s@, i as int),
{
    let n: usize = s.len();
    if s[i] != '/' || n - i < 2 || s[i + 1] != '.' {
        return false;
    }
    if n - i == 2 || s[i + 2] == '/' {
        return true;
    }
    s[i + 2] == '.' && (n - i == 3 || s[i + 3] == '/')
}

/// Decides whether a text is a path of the grammar.
pub fn is_valid_path(s: &str) -> (r: bool)
    ensures
        r == valid_path(s@),
{
    let chars = chars_of(s);
    if chars.len() == 0 || chars[0] != '/' {
        return false;
    }
    let mut i: usize = 0;
    while i < chars.len()
        invariant
            i <= chars.len(),
            chars@ == s@,
            forall|j: int| 0 <= j < i ==> !is_dot_segment(s@, j),
        decreases chars.len() - i,
    {
        if dot_segment_at(&chars, i) {
            return false;
        }
        i = i + 1;
    }
    true
}

/// An absolute path inside a worker's sandbox.
#[derive(Debug, PartialEq, Eq)]
pub struct InitialComponentFilePath {
    path: String,
}

impl View for InitialComponentFilePath {
    type V = Seq<char>;

    closed spec fn view(&self) -> Seq<char> {
        self.path@
    }
}

impl Clone for InitialComponentFilePath {
    fn clone(&self) -> (r: Self)
        ensures
            r@ == self@,
    {
        proof {
            use_type_invariant(self);
        }
        InitialComponentFilePath { path: self.path.clone() }
    }
}

impl InitialComponentFilePath {
    #[verifier::type_invariant]
    spec fn well_formed(&self) -> bool {
        valid_path(self.path@)
    }

    /// The path that a text denotes; none where the text is not of the
    /// grammar.
    pub fn from_str(s: &str) -> (r: Option<InitialComponentFilePath>)
        ensures
            r is Some <==> valid_path(s@),
            r matches Some(p) ==> p@ == s@,
    {
        if is_valid_path(s) {
            Some(InitialComponentFilePath { path: String::from_str(s) })
        } else {
            None
        }
    }

    /// The text of the path, which is always of the grammar.
    pub fn as_str(&self) -> (r: &str)
        ensures
            r@ == self@,
            valid_path(r@),
    {
        proof {
            use_type_invariant(self);
        }
        self.path.as_str()
    }
}

/// A file that is placed in a worker's sandbox when the worker starts.
#[derive(Clone, Debug, PartialEq, Eq)]
pub struct InitialComponentFile {
    pub key: String,
    pub path: InitialComponentFilePath,
    pub permissions: InitialComponentFilePermissions,
}

/// Mathematical value of an [`InitialComponentFile`].
pub struct FileView {
    pub key: Seq<char>,
    pub path: Seq<char>,
    pub permissions: InitialComponentFilePermissions,
}

impl View for InitialComponentFile {
    type V = FileView;

    open spec fn view(&self) -> FileView {
        FileView { key: self.key@, path: self.path@, permissions: self.permissions }
    }
}

/// The values of a list of files, in order.
pub open spec fn file_views(files: Seq<InitialComponentFile>) -> Seq<FileView> {
    files.map_values(|f: InitialComponentFile| f@)
}

} // verus!
