//! Path names built as strings: joining a directory and a name, and the
//! default `.blob` extension.

use vstd::prelude::*;
use vstd::string::{StrSliceExecFns, StringExecFns};

verus! {

/// The extension given to a name that has none.
pub open spec fn blob_suffix() -> Seq<char> {
    seq!['.', 'b', 'l', 'o', 'b']
}

/// The last component of `name` has an extension: a `.` in it that does not
/// open the component.
pub open spec fn has_extension(name: Seq<char>) -> bool
    decreases name.len(),
{
    if name.len() == 0 {
        false
    } else if name.last() == '/' {
        false
    } else if name.last() == '.' && name.drop_last().len() > 0 && name.drop_last().last() != '/' {
        true
    } else {
        has_extension(name.drop_last())
    }
}

/// `name` as it is if it has an extension, else with `.blob` appended.
pub open spec fn with_default_extension(name: Seq<char>) -> Seq<char> {
    if has_extension(name) {
        name
    } else {
        name + blob_suffix()
    }
}

/// `name` placed under `dir`, with one `/` between them unless `dir` is empty
/// or already ends with one.
pub open spec fn joined(dir: Seq<char>, name: Seq<char>) -> Seq<char> {
    if dir.len() == 0 || dir.last() == '/' {
        dir + name
    } else {
        dir + seq!['/'] + name
    }
}

/// Whether the last component of `name` has an extension.
pub fn name_has_extension(name: &str) -> (r: bool)
    ensures
        r == has_extension(name@),
{
    let mut i: usize = name.unicode_len();
    proof {
        assert(name@.take(i as int) =~= name@);
    }
    while i > 0
        invariant
            i <= name@.len(),
            has_extension(name@) == has_extension(name@.take(i as int)),
        decreases i,
    {
        let c = name.get_char(i - 1);
        proof {
            assert(name@.take(i as int).drop_last() =~= name@.take(i - 1));
        }
        if c == '/' {
            return false;
        }
        if c == '.' && i > 1 {
            let p = name.get_char(i - 2);
            if p != '/' {
                return true;
            }
        }
        i = i - 1;
    }
    proof {
        assert(name@.take(0) =~= Seq::<char>::empty());
    }
    false
}

/// `dir` and `name` joined into one path.
pub fn join_path(dir: &str, name: &str) -> (r: String)
    ensures
        r@ == joined(dir@, name@),
{
    let mut path = String::from_str(dir);
    let n: usize = dir.unicode_len();
    if n > 0 && dir.get_char(n - 1) != '/' {
        path.append("/");
        proof {
            reveal_strlit("/");
        }
    }
    path.append(name);
    proof {
        assert(joined(dir@, name@) =~= path@);
    }
    path
}

/// `name` with `.blob` appended, whatever it already holds.
pub fn blob_filename(name: &str) -> (r: String)
    ensures
        r@ == name@ + blob_suffix(),
{
    let mut file = String::from_str(name);
    file.append(".blob");
    proof {
        reveal_strlit(".blob");
        assert(file@ =~= name@ + blob_suffix());
    }
    file
}

/// Where the plain folder backend writes a blob named `filename` under
/// `dest_dir`: the name keeps its extension, or gets `.blob` if it has none.
pub fn local_blob_path(dest_dir: &str, filename: &str) -> (r: String)
    ensures
        r@ == joined(dest_dir@, with_default_extension(filename@)),
{
    if name_has_extension(filename) {
        join_path(dest_dir, filename)
    } else {
        let file = blob_filename(filename);
        join_path(dest_dir, file.as_str())
    }
}

} // verus!
