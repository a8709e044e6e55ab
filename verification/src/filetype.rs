//! The kind of file being edited, derived from the file name's
//! extension. It is used only to label the document for rendering and
//! highlighting; it carries no editing semantics.

use vstd::prelude::*;

verus! {

/// A human-readable label for the document's file kind.
pub struct FileType {
    name: String,
}

/// The index of the last `'.'` in a name, or `-1` when there is none.
pub open spec fn last_dot_pos(s: Seq<char>) -> int
    decreases s.len(),
{
    if s.len() == 0 {
        -1
    } else if s.last() == '.' {
        s.len() - 1
    } else {
        last_dot_pos(s.drop_last())
    }
}

/// The file name's extension: what follows the last `'.'`, or the whole
/// name when it has no dot at all.
pub open spec fn spec_extension(s: Seq<char>) -> Seq<char> {
    if last_dot_pos(s) >= 0 {
        s.skip(last_dot_pos(s) + 1)
    } else {
        s
    }
}

/// The label assigned to each known extension; anything else is unknown.
pub open spec fn spec_type_label(ext: Seq<char>) -> Seq<char> {
    if ext == "rs"@ {
        "Rust"@
    } else if ext == "toml"@ {
        "TOML"@
    } else if ext == "md"@ {
        "Markdown"@
    } else if ext == "txt"@ {
        "Plain text"@
    } else if ext == "c"@ {
        "C"@
    } else if ext == "cpp"@ {
        "C++"@
    } else if ext == "h"@ {
        "C header"@
    } else if ext == "hpp"@ {
        "C++ header"@
    } else if ext == "py"@ {
        "Python"@
    } else if ext == "js"@ {
        "JavaScript"@
    } else if ext == "html"@ {
        "HTML"@
    } else if ext == "css"@ {
        "CSS"@
    } else if ext == "json"@ {
        "JSON"@
    } else if ext == "sh"@ {
        "Shell script"@
    } else if ext == "go"@ {
        "Go"@
    } else if ext == "java"@ {
        "Java"@
    } else {
        "Unknown or no file type"@
    }
}

proof fn lemma_last_dot_found(s: Seq<char>, k: int)
    requires
        0 <= k < s.len(),
        s[k] == '.',
        forall|j: int| k < j < s.len() ==> s[j] != '.',
    ensures
        last_dot_pos(s) == k,
    decreases s.len(),
{
    if k < s.len() - 1 {
        assert(s.last() != '.');
        lemma_last_dot_found(s.drop_last(), k);
    }
}

proof fn lemma_no_dot(s: Seq<char>)
    requires
        forall|j: int| 0 <= j < s.len() ==> s[j] != '.',
    ensures
        last_dot_pos(s) == -1,
    decreases s.len(),
{
    if s.len() > 0 {
        lemma_no_dot(s.drop_last());
    }
}

/// Character-by-character equality of two string slices.
#[verifier::loop_isolation(false)]
pub fn str_eq(a: &str, b: &str) -> (r: bool)
    ensures
        r == (a@ == b@),
{
    let n = a.unicode_len();
    let m = b.unicode_len();
    if n != m {
        return false;
    }
    let mut i: usize = 0;
    while i < n
        invariant
            0 <= i <= n,
            forall|j: int| 0 <= j < i ==> a@[j] == b@[j],
        decreases n - i,
    {
        if a.get_char(i) != b.get_char(i) {
            return false;
        }
        i += 1;
    }
    proof {
        assert(a@ =~= b@);
    }
    true
}

/// The position of the last `'.'` of a name, if it has one.
#[verifier::loop_isolation(false)]
fn find_last_dot(s: &str) -> (r: Option<usize>)
    ensures
        match r {
            Some(d) => (d as int) < s@.len() && last_dot_pos(s@) == d as int,
            None => last_dot_pos(s@) == -1,
        },
{
    let n = s.unicode_len();
    let mut i = n;
    while i > 0
        invariant
            0 <= i <= n,
            forall|j: int| i <= j < n ==> s@[j] != '.',
        decreases i,
    {
        if s.get_char(i - 1) == '.' {
            proof {
                lemma_last_dot_found(s@, i - 1);
            }
            return Some(i - 1);
        }
        i -= 1;
    }
    proof {
        lemma_no_dot(s@);
    }
    None
}

impl FileType {
    /// The label's characters.
    pub closed spec fn spec_name(&self) -> Seq<char> {
        self.name@
    }

    /// The label as an owned string.
    pub fn name(&self) -> (r: String)
        ensures
            r@ == self.spec_name(),
    {
        self.name.clone()
    }

    /// The file type labelled by the name's extension.
    pub fn from(file_name: &str) -> (r: Self)
        ensures
            r.spec_name() == spec_type_label(spec_extension(file_name@)),
    {
        let n = file_name.unicode_len();
        let ext: &str = match find_last_dot(file_name) {
            Some(d) => {
                proof {
                    assert(file_name@.subrange(d + 1, n as int) =~= file_name@.skip(d + 1));
                }
                file_name.substring_char(d + 1, n)
            },
            None => file_name,
        };
        let label: &str = if str_eq(ext, "rs") {
            "Rust"
        } else if str_eq(ext, "toml") {
            "TOML"
        } else if str_eq(ext, "md") {
            "Markdown"
        } else if str_eq(ext, "txt") {
            "Plain text"
        } else if str_eq(ext, "c") {
            "C"
        } else if str_eq(ext, "cpp") {
            "C++"
        } else if str_eq(ext, "h") {
            "C header"
        } else if str_eq(ext, "hpp") {
            "C++ header"
        } else if str_eq(ext, "py") {
            "Python"
        } else if str_eq(ext, "js") {
            "JavaScript"
        } else if str_eq(ext, "html") {
            "HTML"
        } else if str_eq(ext, "css") {
            "CSS"
        } else if str_eq(ext, "json") {
            "JSON"
        } else if str_eq(ext, "sh") {
            "Shell script"
        } else if str_eq(ext, "go") {
            "Go"
        } else if str_eq(ext, "java") {
            "Java"
        } else {
            "Unknown or no file type"
        };
        Self { name: label.to_owned() }
    }
}

impl Default for FileType {
    /// The label of an unrecognised or absent extension.
    fn default() -> (r: Self)
        ensures
            r.spec_name() == "Unknown or no file type"@,
    {
        Self { name: "Unknown or no file type".to_owned() }
    }
}

} // verus!
