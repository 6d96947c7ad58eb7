//! The parts of a file system path that the browser reads: its final
//! component, its parent, joining, and whether it names a `.log` file.
use vstd::prelude::*;

verus! {

/// What `Path::file_name` returns for a path: its final component when that
/// is a normal name.
pub uninterp spec fn path_file_name_of(p: Seq<char>) -> Option<Seq<char>>;

/// What `Path::parent` returns for a path: the path without its final
/// component, if it has one.
pub uninterp spec fn path_parent_of(p: Seq<char>) -> Option<Seq<char>>;

/// What `Path::join` returns for a base path and a pushed path.
pub uninterp spec fn path_join_of(base: Seq<char>, name: Seq<char>) -> Seq<char>;

/// `Path::file_name` on `p`, as text. The contract names the result; how
/// `Path` splits a text into components (separators, `.` and `..`) is not
/// stated.
#[verifier::external_body]
pub(crate) fn path_file_name(p: &str) -> (r: Option<String>)
    ensures
        match r {
            Some(n) => path_file_name_of(p@) == Some(n@),
            None => path_file_name_of(p@) is None,
        },
{
    std::path::Path::new(p).file_name().map(|n| n.to_string_lossy().to_string())
}

/// `Path::parent` on `p`, as text. Its documentation promises `None` for the
/// empty path and for the root `/`; beyond that the result is only named.
#[verifier::external_body]
pub(crate) fn path_parent(p: &str) -> (r: Option<String>)
    ensures
        match r {
            Some(q) => path_parent_of(p@) == Some(q@),
            None => path_parent_of(p@) is None,
        },
        p@ == Seq::<char>::empty() ==> r is None,
        p@ == seq!['/'] ==> r is None,
{
    std::path::Path::new(p).parent().map(|q| q.to_string_lossy().to_string())
}

/// `base` followed by the separator that `Path::join` puts before a
/// relative name: a `/` unless `base` is empty or already ends in one.
pub open spec fn join_prefix(base: Seq<char>) -> Seq<char> {
    if base.len() > 0 && base.last() != '/' {
        base.push('/')
    } else {
        base
    }
}

/// `Path::join` of `base` and `name`, as text. The contract names the
/// result, and states what `Path::join` and `PathBuf::push` document for a
/// relative `name` (one not starting with `/`): it is added after `base`,
/// with one separator between them unless `base` is empty or ends in one.
/// How an absolute `name` replaces `base` is only named.
#[verifier::external_body]
pub(crate) fn path_join(base: &str, name: &str) -> (r: String)
    ensures
        r@ == path_join_of(base@, name@),
        name@.len() > 0 && name@[0] != '/' ==> r@ == join_prefix(base@) + name@,
{
    std::path::Path::new(base).join(name).to_string_lossy().to_string()
}

/// A file name has extension `log` (as `Path::extension` reads it): it ends
/// in `.log` and something comes before that dot.
pub open spec fn has_log_extension(name: Seq<char>) -> bool {
    name.len() > 4 && name.subrange(name.len() - 4, name.len() as int) == seq!['.', 'l', 'o', 'g']
}

/// Whether a file name has extension `log`.
pub fn is_log_file_name(name: &str) -> (r: bool)
    ensures
        r == has_log_extension(name@),
{
    let cs = crate::text::chars_of(name);
    let n = cs.len();
    if n <= 4 {
        return false;
    }
    let r = cs[n - 4] == '.' && cs[n - 3] == 'l' && cs[n - 2] == 'o' && cs[n - 1] == 'g';
    proof {
        let tail = name@.subrange(n - 4, n as int);
        if r {
            assert(tail =~= seq!['.', 'l', 'o', 'g']);
        } else {
            assert(tail != seq!['.', 'l', 'o', 'g']) by {
                if tail == seq!['.', 'l', 'o', 'g'] {
                    assert(tail[0] == name@[n - 4]);
                    assert(tail[1] == name@[n - 3]);
                    assert(tail[2] == name@[n - 2]);
                    assert(tail[3] == name@[n - 1]);
                }
            }
        }
    }
    r
}

/// The name under which a path is listed: its file name, or nothing.
pub open spec fn base_name(p: Seq<char>) -> Seq<char> {
    match path_file_name_of(p) {
        Some(n) => n,
        None => Seq::empty(),
    }
}

/// The file name of a path's grandparent, if it has one.
pub open spec fn grandparent_name(p: Seq<char>) -> Option<Seq<char>> {
    match path_parent_of(p) {
        Some(parent) => match path_parent_of(parent) {
            Some(gp) => path_file_name_of(gp),
            None => None,
        },
        None => None,
    }
}

/// The name a discovered log is shown under: `grandparent/file` when the
/// grandparent has a name, else just the file name.
pub open spec fn display_name_of(p: Seq<char>) -> Seq<char> {
    match grandparent_name(p) {
        Some(g) => g + seq!['/'] + base_name(p),
        None => base_name(p),
    }
}

/// The file name of `p`, or the empty text.
pub fn base_name_of(p: &str) -> (r: String)
    ensures
        r@ == base_name(p@),
{
    match path_file_name(p) {
        Some(n) => n,
        None => String::new(),
    }
}

/// The name a discovered log is shown under (see `display_name_of`).
pub fn display_name(p: &str) -> (r: String)
    ensures
        r@ == display_name_of(p@),
{
    let name = base_name_of(p);
    match path_parent(p) {
        Some(parent) => match path_parent(parent.as_str()) {
            Some(gp) => match path_file_name(gp.as_str()) {
                Some(g) => {
                    let mut r = crate::text::join2(g.as_str(), "/");
                    proof {
                        reveal_strlit("/");
                    }
                    r = crate::text::join2(r.as_str(), name.as_str());
                    r
                },
                None => name,
            },
            None => name,
        },
        None => name,
    }
}

} // verus!
