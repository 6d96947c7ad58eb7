//! Where logs come from: the entries of a directory listing, the `.log`
//! files found by walking local directories, and those a remote `find`
//! reports; each list is ordered by name with repeated paths dropped.
use vstd::prelude::*;
use vstd::string::*;
use crate::order::{lemma_sort_by_map, sort_by, sort_keyed};
use crate::path::{
    base_name, base_name_of, display_name, display_name_of, has_log_extension, is_log_file_name,
};
use crate::text::{chars_of, join2, lines_of, text_eq, text_lines, text_lt, trim_text, trimmed};

verus! {

broadcast use vstd::string::group_string_axioms;

// ---------------------------------------------------------------------------
// Types
// ---------------------------------------------------------------------------

/// Where a log lives: on this machine, or on the named remote host.
#[derive(Debug, PartialEq)]
pub enum LogLocation {
    Local,
    Remote(String),
}

/// The mathematical value of a `LogLocation`.
pub enum LocationView {
    Local,
    Remote(Seq<char>),
}

impl View for LogLocation {
    type V = LocationView;

    open spec fn view(&self) -> LocationView {
        match self {
            LogLocation::Local => LocationView::Local,
            LogLocation::Remote(h) => LocationView::Remote(h@),
        }
    }
}

impl Clone for LogLocation {
    fn clone(&self) -> (r: Self)
        ensures
            r == *self,
    {
        match self {
            LogLocation::Local => LogLocation::Local,
            LogLocation::Remote(h) => LogLocation::Remote(h.clone()),
        }
    }
}

/// A log file the browser can open.
#[derive(Debug)]
pub struct LogSource {
    pub name: String,
    pub path: String,
    pub location: LogLocation,
}

/// The mathematical value of a `LogSource`.
pub struct LogSourceView {
    pub name: Seq<char>,
    pub path: Seq<char>,
    pub location: LocationView,
}

impl View for LogSource {
    type V = LogSourceView;

    open spec fn view(&self) -> LogSourceView {
        LogSourceView { name: self.name@, path: self.path@, location: self.location@ }
    }
}

impl Clone for LogSource {
    fn clone(&self) -> (r: Self)
        ensures
            r == *self,
    {
        LogSource {
            name: self.name.clone(),
            path: self.path.clone(),
            location: self.location.clone(),
        }
    }
}

/// An entry shown while browsing a directory: a sub-directory (by path) or
/// a log file.
#[derive(Debug)]
pub enum FsEntry {
    Directory(String),
    LogFile(LogSource),
}

/// The mathematical value of an `FsEntry`.
pub enum FsEntryView {
    Directory(Seq<char>),
    LogFile(LogSourceView),
}

impl View for FsEntry {
    type V = FsEntryView;

    open spec fn view(&self) -> FsEntryView {
        match self {
            FsEntry::Directory(p) => FsEntryView::Directory(p@),
            FsEntry::LogFile(s) => FsEntryView::LogFile(s@),
        }
    }
}

impl Clone for FsEntry {
    fn clone(&self) -> (r: Self)
        ensures
            r == *self,
    {
        match self {
            FsEntry::Directory(p) => FsEntry::Directory(p.clone()),
            FsEntry::LogFile(s) => FsEntry::LogFile(s.clone()),
        }
    }
}

/// What a directory entry is.
#[derive(Debug, Clone, Copy, PartialEq, Eq, Structural)]
pub enum EntryKind {
    Directory,
    File,
    Other,
}

/// One entry of a directory listing: its file name, its full path and its
/// kind.
pub struct DirItem {
    pub name: String,
    pub path: String,
    pub kind: EntryKind,
}

/// One entry met while walking a directory tree: its path, its depth below
/// the walk's root (the root is depth 0), whether it is a file, and whether
/// it can be opened for reading.
pub struct WalkItem {
    pub path: String,
    pub depth: usize,
    pub is_file: bool,
    pub readable: bool,
}

/// The views of a list of log sources.
pub open spec fn source_views(s: Seq<LogSource>) -> Seq<LogSourceView> {
    s.map_values(|x: LogSource| x@)
}

/// The views of a list of directory entries.
pub open spec fn entry_views(s: Seq<FsEntry>) -> Seq<FsEntryView> {
    s.map_values(|x: FsEntry| x@)
}

/// The key a list of log sources is ordered by: the shown name.
pub open spec fn name_key() -> spec_fn(LogSourceView) -> Seq<char> {
    |v: LogSourceView| v.name
}

// ---------------------------------------------------------------------------
// Names that are skipped
// ---------------------------------------------------------------------------

/// Directory names that are never entered: dependency, build and system
/// directories.
pub open spec fn ignored_dir_name(n: Seq<char>) -> bool {
    ||| n == "node_modules"@
    ||| n == "vendor"@
    ||| n == "target"@
    ||| n == "Library"@
    ||| n == "Applications"@
    ||| n == "System"@
    ||| n == "bin"@
    ||| n == "sbin"@
    ||| n == "dev"@
    ||| n == "proc"@
    ||| n == "sys"@
}

/// A hidden name starts with a dot.
pub open spec fn is_hidden(n: Seq<char>) -> bool {
    n.len() > 0 && n[0] == '.'
}

/// A walk does not enter or report an entry whose name is hidden (other
/// than `.` itself) or an ignored directory name.
pub open spec fn ignored_name(n: Seq<char>) -> bool {
    (is_hidden(n) && n != "."@) || ignored_dir_name(n)
}

fn is_ignored_dir_name(n: &str) -> (r: bool)
    ensures
        r == ignored_dir_name(n@),
{
    text_eq(n, "node_modules") || text_eq(n, "vendor") || text_eq(n, "target") || text_eq(
        n,
        "Library",
    ) || text_eq(n, "Applications") || text_eq(n, "System") || text_eq(n, "bin") || text_eq(
        n,
        "sbin",
    ) || text_eq(n, "dev") || text_eq(n, "proc") || text_eq(n, "sys")
}

fn is_hidden_name(n: &str) -> (r: bool)
    ensures
        r == is_hidden(n@),
{
    let cs = chars_of(n);
    cs.len() > 0 && cs[0] == '.'
}

/// Whether a walk skips the entry named `name` (and all below it).
pub fn is_ignored(name: &str) -> (r: bool)
    ensures
        r == ignored_name(name@),
{
    (is_hidden_name(name) && !text_eq(name, ".")) || is_ignored_dir_name(name)
}

// ---------------------------------------------------------------------------
// Ordering and de-duplication
// ---------------------------------------------------------------------------

/// `s` with each item dropped whose path equals that of the item just
/// before it (`Vec::dedup_by` on the path).
pub open spec fn dedup_by_path(s: Seq<LogSourceView>) -> Seq<LogSourceView>
    decreases s.len(),
{
    if s.len() <= 1 {
        s
    } else if s.last().path == s[s.len() - 2].path {
        dedup_by_path(s.drop_last())
    } else {
        dedup_by_path(s.drop_last()).push(s.last())
    }
}

/// How a list of found logs is presented: stably sorted by name, then with
/// consecutive repeats of a path dropped.
pub open spec fn ordered_sources(s: Seq<LogSourceView>) -> Seq<LogSourceView> {
    dedup_by_path(sort_by(s, name_key()))
}

/// After de-duplication no two neighbouring sources share a path, and a
/// non-empty list keeps its last path.
pub proof fn lemma_dedup_adjacent_distinct(s: Seq<LogSourceView>)
    ensures
        forall|k: int|
            0 <= k < dedup_by_path(s).len() - 1 ==> #[trigger] dedup_by_path(s)[k].path
                != dedup_by_path(s)[k + 1].path,
        s.len() > 0 ==> dedup_by_path(s).len() > 0 && dedup_by_path(s).last().path
            == s.last().path,
        dedup_by_path(s).len() <= s.len(),
    decreases s.len(),
{
    if s.len() > 1 {
        lemma_dedup_adjacent_distinct(s.drop_last());
    }
}

fn sort_sources(v: Vec<LogSource>) -> (r: Vec<LogSource>)
    ensures
        source_views(r@) == sort_by(source_views(v@), name_key()),
{
    let ghost key = |x: LogSource| x.name@;
    let mut keyed: Vec<(Vec<char>, LogSource)> = Vec::new();
    let mut src = v;
    let ghost orig = src@;
    let mut rev: Vec<LogSource> = Vec::new();
    while src.len() > 0
        invariant
            src.len() + rev.len() == orig.len(),
            forall|i: int| 0 <= i < src.len() ==> #[trigger] src@[i] == orig[i],
            forall|i: int| 0 <= i < rev.len() ==> #[trigger] rev@[i] == orig[orig.len() - 1 - i],
        decreases src.len(),
    {
        let x = src.pop().unwrap();
        rev.push(x);
    }
    while rev.len() > 0
        invariant
            rev.len() + keyed.len() == orig.len(),
            key == (|x: LogSource| x.name@),
            forall|i: int| 0 <= i < rev.len() ==> #[trigger] rev@[i] == orig[orig.len() - 1 - i],
            forall|i: int| 0 <= i < keyed.len() ==> (#[trigger] keyed@[i]).1 == orig[i],
            forall|i: int| 0 <= i < keyed.len() ==> (#[trigger] keyed@[i]).0@ == key(keyed@[i].1),
        decreases rev.len(),
    {
        let x = rev.pop().unwrap();
        let k = chars_of(x.name.as_str());
        keyed.push((k, x));
    }
    proof {
        assert(keyed@.map_values(|p: (Vec<char>, LogSource)| p.1) =~= orig);
    }
    let r = sort_keyed(keyed, Ghost(key));
    proof {
        lemma_sort_by_map(orig, |x: LogSource| x@, key, name_key());
        assert(orig.map_values(|x: LogSource| x@) == source_views(orig));
    }
    r
}

fn dedup_sources(v: Vec<LogSource>) -> (r: Vec<LogSource>)
    ensures
        source_views(r@) == dedup_by_path(source_views(v@)),
{
    let ghost s = source_views(v@);
    let mut out: Vec<LogSource> = Vec::new();
    let n = v.len();
    let mut i: usize = 0;
    while i < n
        invariant
            n == v.len(),
            i <= n,
            s == source_views(v@),
            source_views(out@) == dedup_by_path(s.take(i as int)),
        decreases n - i,
    {
        let keep = i == 0 || !text_eq(v[i].path.as_str(), v[i - 1].path.as_str());
        proof {
            let t = s.take(i + 1);
            assert(t.drop_last() =~= s.take(i as int));
            assert(t.last() == v@[i as int]@);
            if i > 0 {
                assert(t[t.len() - 2] == v@[i - 1]@);
            } else {
                assert(s.take(0) =~= Seq::<LogSourceView>::empty());
            }
        }
        if keep {
            let ghost old_out = out@;
            out.push(v[i].clone());
            proof {
                assert(source_views(out@) =~= source_views(old_out).push(v@[i as int]@));
            }
        }
        i = i + 1;
    }
    proof {
        assert(s.take(n as int) =~= s);
    }
    out
}

/// Orders found logs by name and drops consecutive repeats of a path.
fn order_sources(v: Vec<LogSource>) -> (r: Vec<LogSource>)
    ensures
        source_views(r@) == ordered_sources(source_views(v@)),
{
    let sorted = sort_sources(v);
    dedup_sources(sorted)
}

/// Every item de-duplication keeps comes from the list, and a sorted list
/// stays sorted.
pub proof fn lemma_dedup_subsequence(s: Seq<LogSourceView>)
    ensures
        forall|k: int| 0 <= k < dedup_by_path(s).len() ==> s.contains(#[trigger] dedup_by_path(s)[k]),
        crate::order::sorted_by(s, name_key()) ==> crate::order::sorted_by(
            dedup_by_path(s),
            name_key(),
        ),
    decreases s.len(),
{
    if s.len() > 1 {
        let t = s.drop_last();
        lemma_dedup_subsequence(t);
        let d = dedup_by_path(t);
        assert forall|k: int| 0 <= k < d.len() implies s.contains(#[trigger] d[k]) by {
            assert(t.contains(d[k]));
            let j = choose|j: int| 0 <= j < t.len() && t[j] == d[k];
            assert(s[j] == d[k]);
        }
        assert(s[s.len() - 1] == s.last());
        if crate::order::sorted_by(s, name_key()) {
            assert(crate::order::sorted_by(t, name_key())) by {
                assert forall|i: int, j: int| 0 <= i < j < t.len() implies !crate::text::text_lt(
                    name_key()(t[j]),
                    name_key()(t[i]),
                ) by {
                    assert(t[i] == s[i] && t[j] == s[j]);
                }
            }
            if s.last().path != s[s.len() - 2].path {
                let r = d.push(s.last());
                assert forall|i: int, j: int| 0 <= i < j < r.len() implies !crate::text::text_lt(
                    name_key()(r[j]),
                    name_key()(r[i]),
                ) by {
                    if j == r.len() - 1 {
                        assert(t.contains(r[i]));
                        let m = choose|m: int| 0 <= m < t.len() && t[m] == r[i];
                        assert(s[m] == r[i]);
                        assert(s[s.len() - 1] == r[j]);
                    } else {
                        assert(r[i] == d[i] && r[j] == d[j]);
                    }
                }
            }
        }
    }
}

/// Found logs are presented sorted by name, with no two neighbours sharing
/// a path, and every presented log is one that was found.
pub proof fn lemma_ordered_sources(s: Seq<LogSourceView>)
    ensures
        crate::order::sorted_by(ordered_sources(s), name_key()),
        forall|k: int|
            0 <= k < ordered_sources(s).len() - 1 ==> #[trigger] ordered_sources(s)[k].path
                != ordered_sources(s)[k + 1].path,
        forall|k: int|
            0 <= k < ordered_sources(s).len() ==> s.contains(#[trigger] ordered_sources(s)[k]),
{
    let t = sort_by(s, name_key());
    crate::order::lemma_sort_by_sorted(s, name_key());
    crate::order::lemma_sort_by_permutes(s, name_key());
    lemma_dedup_subsequence(t);
    lemma_dedup_adjacent_distinct(t);
    assert forall|k: int| 0 <= k < ordered_sources(s).len() implies s.contains(
        #[trigger] ordered_sources(s)[k],
    ) by {
        let x = ordered_sources(s)[k];
        assert(t.contains(x));
        assert(t.to_multiset().count(x) > 0) by {
            broadcast use vstd::seq_lib::group_to_multiset_ensures;
        }
        assert(s.to_multiset().count(x) > 0);
        broadcast use vstd::seq_lib::group_to_multiset_ensures;
    }
}

/// A directory's sub-directories are shown before its logs.
pub proof fn lemma_listed_dirs_first(items: Seq<DirItem>, i: int, j: int)
    requires
        0 <= i < j < listed_entries(items).len(),
        listed_entries(items)[j] is Directory,
    ensures
        listed_entries(items)[i] is Directory,
{
    let dirs = sort_by(
        items.filter(|it: DirItem| lists_as_dir(it)).map_values(|it: DirItem| it.path@),
        |p: Seq<char>| p,
    );
    let logs = sort_by(
        items.filter(|it: DirItem| lists_as_log(it)).map_values(
            |it: DirItem| LogSourceView { name: it.name@, path: it.path@, location: LocationView::Local },
        ),
        name_key(),
    );
    let dv = dirs.map_values(|p: Seq<char>| FsEntryView::Directory(p));
    let lv = logs.map_values(|s: LogSourceView| FsEntryView::LogFile(s));
    assert(listed_entries(items) == dv + lv);
    if j >= dv.len() {
        assert((dv + lv)[j] == lv[j - dv.len()]);
    }
    assert((dv + lv)[i] == dv[i]);
}

/// The text a listing entry is ordered by: a directory's path, a log's name.
pub open spec fn listing_key(e: FsEntryView) -> Seq<char> {
    match e {
        FsEntryView::Directory(p) => p,
        FsEntryView::LogFile(s) => s.name,
    }
}

/// Within a directory's listing the sub-directories are in order of their
/// paths and the logs in order of their names.
pub proof fn lemma_listing_sorted(items: Seq<DirItem>, i: int, j: int)
    requires
        0 <= i < j < listed_entries(items).len(),
    ensures
        (listed_entries(items)[i] is Directory) == (listed_entries(items)[j] is Directory)
            ==> !text_lt(listing_key(listed_entries(items)[j]), listing_key(listed_entries(items)[i])),
{
    let dsrc = items.filter(|it: DirItem| lists_as_dir(it)).map_values(|it: DirItem| it.path@);
    let lsrc = items.filter(|it: DirItem| lists_as_log(it)).map_values(
        |it: DirItem| LogSourceView { name: it.name@, path: it.path@, location: LocationView::Local },
    );
    let dirs = sort_by(dsrc, |p: Seq<char>| p);
    let logs = sort_by(lsrc, name_key());
    crate::order::lemma_sort_by_sorted(dsrc, |p: Seq<char>| p);
    crate::order::lemma_sort_by_sorted(lsrc, name_key());
    let dv = dirs.map_values(|p: Seq<char>| FsEntryView::Directory(p));
    let lv = logs.map_values(|s: LogSourceView| FsEntryView::LogFile(s));
    assert(listed_entries(items) == dv + lv);
    if j < dv.len() {
        assert((dv + lv)[i] == dv[i]);
        assert((dv + lv)[j] == dv[j]);
        assert(dv[i] == FsEntryView::Directory(dirs[i]));
        assert(dv[j] == FsEntryView::Directory(dirs[j]));
        assert(!text_lt((|p: Seq<char>| p)(dirs[j]), (|p: Seq<char>| p)(dirs[i])));
    } else if i >= dv.len() {
        let (a, b) = (i - dv.len(), j - dv.len());
        assert((dv + lv)[i] == lv[a]);
        assert((dv + lv)[j] == lv[b]);
        assert(lv[a] == FsEntryView::LogFile(logs[a]));
        assert(lv[b] == FsEntryView::LogFile(logs[b]));
        assert(!text_lt(name_key()(logs[b]), name_key()(logs[a])));
    } else {
        assert((dv + lv)[i] == dv[i]);
        assert((dv + lv)[j] == lv[j - dv.len()]);
    }
}

// ---------------------------------------------------------------------------
// Listing one directory
// ---------------------------------------------------------------------------

/// A listing entry shown as a sub-directory: visible, a directory, and not
/// an ignored name.
pub open spec fn lists_as_dir(it: DirItem) -> bool {
    !is_hidden(it.name@) && it.kind == EntryKind::Directory && !ignored_dir_name(it.name@)
}

/// A listing entry shown as a log: visible, a file, with extension `log`.
pub open spec fn lists_as_log(it: DirItem) -> bool {
    !is_hidden(it.name@) && it.kind == EntryKind::File && has_log_extension(it.name@)
}

/// Walks skip exactly the hidden names other than `.` and the eleven
/// dependency, build and system directory names (`node_modules`, `vendor`,
/// `target`, `Library`, `Applications`, `System`, `bin`, `sbin`, `dev`,
/// `proc`, `sys`); every other name is entered.
pub proof fn lemma_walk_skips(n: Seq<char>)
    ensures
        ignored_name(n) <==> ((n.len() > 0 && n[0] == '.' && n != "."@) || n == "node_modules"@
            || n == "vendor"@ || n == "target"@ || n == "Library"@ || n == "Applications"@ || n
            == "System"@ || n == "bin"@ || n == "sbin"@ || n == "dev"@ || n == "proc"@ || n
            == "sys"@),
{
}

proof fn lemma_sort_keeps<T>(s: Seq<T>, key: spec_fn(T) -> Seq<char>, x: T)
    requires
        s.contains(x),
    ensures
        sort_by(s, key).contains(x),
{
    crate::order::lemma_sort_by_permutes(s, key);
    broadcast use vstd::seq_lib::group_to_multiset_ensures;
    assert(s.to_multiset().count(x) > 0);
    assert(sort_by(s, key).to_multiset().count(x) > 0);
}

proof fn lemma_map_keeps<A, B>(s: Seq<A>, f: spec_fn(A) -> B, x: A)
    requires
        s.contains(x),
    ensures
        s.map_values(f).contains(f(x)),
{
    let j = choose|j: int| 0 <= j < s.len() && s[j] == x;
    assert(s.map_values(f)[j] == f(x));
}

/// A listing misses nothing it should show: every visible sub-directory
/// whose name is not one of the eleven skipped names (`node_modules`,
/// `vendor`, `target`, `Library`, `Applications`, `System`, `bin`, `sbin`,
/// `dev`, `proc`, `sys`) is shown, and every visible file with extension
/// `log` is shown as a local log named by its file name.
pub proof fn lemma_listing_complete(items: Seq<DirItem>)
    ensures
        forall|k: int|
            0 <= k < items.len() && (#[trigger] items[k]).kind == EntryKind::Directory && !(
            items[k].name@.len() > 0 && items[k].name@[0] == '.') && !(items[k].name@
                == "node_modules"@ || items[k].name@ == "vendor"@ || items[k].name@ == "target"@
                || items[k].name@ == "Library"@ || items[k].name@ == "Applications"@
                || items[k].name@ == "System"@ || items[k].name@ == "bin"@ || items[k].name@
                == "sbin"@ || items[k].name@ == "dev"@ || items[k].name@ == "proc"@
                || items[k].name@ == "sys"@) ==> listed_entries(items).contains(
                FsEntryView::Directory(items[k].path@),
            ),
        forall|k: int|
            0 <= k < items.len() && (#[trigger] items[k]).kind == EntryKind::File && !(
            items[k].name@.len() > 0 && items[k].name@[0] == '.') && has_log_extension(
                items[k].name@,
            ) ==> listed_entries(items).contains(
                FsEntryView::LogFile(
                    LogSourceView {
                        name: items[k].name@,
                        path: items[k].path@,
                        location: LocationView::Local,
                    },
                ),
            ),
{
    let dir_pred = |it: DirItem| lists_as_dir(it);
    let log_pred = |it: DirItem| lists_as_log(it);
    let dmap = |it: DirItem| it.path@;
    let lmap = |it: DirItem|
        LogSourceView { name: it.name@, path: it.path@, location: LocationView::Local };
    let dirs = sort_by(items.filter(dir_pred).map_values(dmap), |p: Seq<char>| p);
    let logs = sort_by(items.filter(log_pred).map_values(lmap), name_key());
    let dv = dirs.map_values(|p: Seq<char>| FsEntryView::Directory(p));
    let lv = logs.map_values(|s: LogSourceView| FsEntryView::LogFile(s));
    assert(listed_entries(items) == dv + lv);
    assert forall|k: int|
        0 <= k < items.len() && (#[trigger] items[k]).kind == EntryKind::Directory && !(
        items[k].name@.len() > 0 && items[k].name@[0] == '.') && !(items[k].name@
            == "node_modules"@ || items[k].name@ == "vendor"@ || items[k].name@ == "target"@
            || items[k].name@ == "Library"@ || items[k].name@ == "Applications"@ || items[k].name@
            == "System"@ || items[k].name@ == "bin"@ || items[k].name@ == "sbin"@ || items[k].name@
            == "dev"@ || items[k].name@ == "proc"@ || items[k].name@ == "sys"@) implies listed_entries(
        items,
    ).contains(FsEntryView::Directory(items[k].path@)) by {
        assert(dir_pred(items[k]));
        items.lemma_filter_contains(dir_pred, k);
        lemma_map_keeps(items.filter(dir_pred), dmap, items[k]);
        lemma_sort_keeps(items.filter(dir_pred).map_values(dmap), |p: Seq<char>| p, items[k].path@);
        lemma_map_keeps(dirs, |p: Seq<char>| FsEntryView::Directory(p), items[k].path@);
        let j = choose|j: int| 0 <= j < dv.len() && dv[j] == FsEntryView::Directory(items[k].path@);
        assert((dv + lv)[j] == dv[j]);
    }
    assert forall|k: int|
        0 <= k < items.len() && (#[trigger] items[k]).kind == EntryKind::File && !(
        items[k].name@.len() > 0 && items[k].name@[0] == '.') && has_log_extension(
            items[k].name@,
        ) implies listed_entries(items).contains(
        FsEntryView::LogFile(
            LogSourceView { name: items[k].name@, path: items[k].path@, location: LocationView::Local },
        ),
    ) by {
        let v = LogSourceView { name: items[k].name@, path: items[k].path@, location: LocationView::Local };
        assert(log_pred(items[k]));
        items.lemma_filter_contains(log_pred, k);
        lemma_map_keeps(items.filter(log_pred), lmap, items[k]);
        lemma_sort_keeps(items.filter(log_pred).map_values(lmap), name_key(), v);
        lemma_map_keeps(logs, |s: LogSourceView| FsEntryView::LogFile(s), v);
        let j = choose|j: int| 0 <= j < lv.len() && lv[j] == FsEntryView::LogFile(v);
        assert((dv + lv)[dv.len() + j] == lv[j]);
    }
}

/// What `list_dir` shows: the sub-directories first, sorted by path (all of
/// one listing share their parent, so this is the order of their names),
/// then the logs sorted by name; hidden entries, ignored directories and
/// other files are left out.
pub open spec fn listed_entries(items: Seq<DirItem>) -> Seq<FsEntryView> {
    let dirs = sort_by(items.filter(|it: DirItem| lists_as_dir(it)).map_values(|it: DirItem| it.path@), |p: Seq<char>| p);
    let logs = sort_by(
        items.filter(|it: DirItem| lists_as_log(it)).map_values(
            |it: DirItem| LogSourceView { name: it.name@, path: it.path@, location: LocationView::Local },
        ),
        name_key(),
    );
    dirs.map_values(|p: Seq<char>| FsEntryView::Directory(p)) + logs.map_values(
        |s: LogSourceView| FsEntryView::LogFile(s),
    )
}

/// The entries shown for a directory whose listing is `items`.
pub fn list_dir(items: &Vec<DirItem>) -> (r: Vec<FsEntry>)
    ensures
        entry_views(r@) == listed_entries(items@),
{
    let ghost dir_pred = |it: DirItem| lists_as_dir(it);
    let ghost log_pred = |it: DirItem| lists_as_log(it);
    let ghost dir_map = |it: DirItem| it.path@;
    let ghost log_map = |it: DirItem|
        LogSourceView { name: it.name@, path: it.path@, location: LocationView::Local };
    let mut dirs: Vec<(Vec<char>, String)> = Vec::new();
    let mut logs: Vec<LogSource> = Vec::new();
    let n = items.len();
    for i in 0..n
        invariant
            n == items.len(),
            dir_pred == (|it: DirItem| lists_as_dir(it)),
            log_pred == (|it: DirItem| lists_as_log(it)),
            dir_map == (|it: DirItem| it.path@),
            log_map == (|it: DirItem|
                LogSourceView { name: it.name@, path: it.path@, location: LocationView::Local }),
            dirs@.map_values(|p: (Vec<char>, String)| p.1@) == items@.take(i as int).filter(
                dir_pred,
            ).map_values(dir_map),
            forall|k: int| 0 <= k < dirs.len() ==> (#[trigger] dirs@[k]).0@ == dirs@[k].1@,
            source_views(logs@) == items@.take(i as int).filter(log_pred).map_values(log_map),
    {
        let it = &items[i];
        let hidden = is_hidden_name(it.name.as_str());
        let is_dir = !hidden && it.kind == EntryKind::Directory && !is_ignored_dir_name(
            it.name.as_str(),
        );
        let is_log = !hidden && it.kind == EntryKind::File && is_log_file_name(it.name.as_str());
        proof {
            let t = items@.take(i as int);
            assert(items@.take(i + 1) =~= t.push(items@[i as int]));
            t.lemma_filter_push(items@[i as int], dir_pred);
            t.lemma_filter_push(items@[i as int], log_pred);
        }
        if is_dir {
            let ghost before = dirs@.map_values(|p: (Vec<char>, String)| p.1@);
            let k = chars_of(it.path.as_str());
            dirs.push((k, it.path.clone()));
            proof {
                assert(dirs@.map_values(|p: (Vec<char>, String)| p.1@) =~= before.push(
                    items@[i as int].path@,
                ));
                let f = items@.take(i as int).filter(dir_pred);
                assert(f.push(items@[i as int]).map_values(dir_map) =~= f.map_values(dir_map).push(
                    dir_map(items@[i as int]),
                ));
            }
        } else {
            proof {
                assert(!dir_pred(items@[i as int]));
            }
        }
        if is_log {
            let ghost before = source_views(logs@);
            logs.push(
                LogSource {
                    name: it.name.clone(),
                    path: it.path.clone(),
                    location: LogLocation::Local,
                },
            );
            proof {
                assert(source_views(logs@) =~= before.push(log_map(items@[i as int])));
                let f = items@.take(i as int).filter(log_pred);
                assert(f.push(items@[i as int]).map_values(log_map) =~= f.map_values(log_map).push(
                    log_map(items@[i as int]),
                ));
            }
        } else {
            proof {
                assert(!log_pred(items@[i as int]));
            }
        }
    }
    proof {
        assert(items@.take(n as int) =~= items@);
    }
    let ghost dir_strings = dirs@.map_values(|p: (Vec<char>, String)| p.1);
    let sorted_dirs = sort_keyed(dirs, Ghost(|s: String| s@));
    proof {
        lemma_sort_by_map(dir_strings, |s: String| s@, |s: String| s@, |p: Seq<char>| p);
        assert(dir_strings.map_values(|s: String| s@) =~= items@.filter(dir_pred).map_values(
            dir_map,
        ));
    }
    let sorted_logs = sort_sources(logs);
    let mut out: Vec<FsEntry> = Vec::new();
    let ghost dv = sorted_dirs@.map_values(|s: String| s@);
    for j in 0..sorted_dirs.len()
        invariant
            dv == sorted_dirs@.map_values(|s: String| s@),
            entry_views(out@) == dv.take(j as int).map_values(
                |p: Seq<char>| FsEntryView::Directory(p),
            ),
    {
        let ghost before = entry_views(out@);
        out.push(FsEntry::Directory(sorted_dirs[j].clone()));
        proof {
            assert(dv.take(j + 1) =~= dv.take(j as int).push(dv[j as int]));
            assert(entry_views(out@) =~= before.push(FsEntryView::Directory(dv[j as int])));
            assert(dv.take(j + 1).map_values(|p: Seq<char>| FsEntryView::Directory(p))
                =~= dv.take(j as int).map_values(|p: Seq<char>| FsEntryView::Directory(p)).push(
                FsEntryView::Directory(dv[j as int]),
            ));
        }
    }
    proof {
        assert(dv.take(sorted_dirs.len() as int) =~= dv);
    }
    let ghost head = entry_views(out@);
    let ghost lv = source_views(sorted_logs@);
    for j in 0..sorted_logs.len()
        invariant
            lv == source_views(sorted_logs@),
            entry_views(out@) == head + lv.take(j as int).map_values(
                |s: LogSourceView| FsEntryView::LogFile(s),
            ),
    {
        let ghost before = entry_views(out@);
        out.push(FsEntry::LogFile(sorted_logs[j].clone()));
        proof {
            assert(lv.take(j + 1) =~= lv.take(j as int).push(lv[j as int]));
            assert(entry_views(out@) =~= before.push(FsEntryView::LogFile(lv[j as int])));
            assert(lv.take(j + 1).map_values(|s: LogSourceView| FsEntryView::LogFile(s))
                =~= lv.take(j as int).map_values(|s: LogSourceView| FsEntryView::LogFile(s)).push(
                FsEntryView::LogFile(lv[j as int]),
            ));
        }
    }
    proof {
        assert(lv.take(sorted_logs.len() as int) =~= lv);
        assert(entry_views(out@) =~= listed_entries(items@));
    }
    out
}

// ---------------------------------------------------------------------------
// Walking local directories
// ---------------------------------------------------------------------------

/// How deep `shallow_scan` looks below the scanned directory.
pub const SHALLOW_SCAN_DEPTH: usize = 3;

/// A walked entry that a shallow scan reports: a file at most
/// `SHALLOW_SCAN_DEPTH` levels down whose name has extension `log`.
pub open spec fn shallow_keeps(it: WalkItem) -> bool {
    it.is_file && it.depth <= SHALLOW_SCAN_DEPTH && has_log_extension(base_name(it.path@))
}

/// A walked entry that discovery reports: a readable file whose name has
/// extension `log`, at any depth.
pub open spec fn discovery_keeps(it: WalkItem) -> bool {
    it.is_file && it.readable && has_log_extension(base_name(it.path@))
}

/// The local log a shallow scan makes of a walked file: named by its file name.
pub open spec fn shallow_view(it: WalkItem) -> LogSourceView {
    LogSourceView { name: base_name(it.path@), path: it.path@, location: LocationView::Local }
}

/// The local log discovery makes of a walked file: named `grandparent/file`
/// where the grandparent has a name.
pub open spec fn discovery_view(it: WalkItem) -> LogSourceView {
    LogSourceView { name: display_name_of(it.path@), path: it.path@, location: LocationView::Local }
}

/// What a shallow scan reports for the walked entries `items`.
pub open spec fn shallow_scan_result(items: Seq<WalkItem>) -> Seq<LogSourceView> {
    ordered_sources(
        items.filter(|it: WalkItem| shallow_keeps(it)).map_values(|it: WalkItem| shallow_view(it)),
    )
}

/// What discovery reports for the walked entries `items` of all scanned roots.
pub open spec fn discovery_result(items: Seq<WalkItem>) -> Seq<LogSourceView> {
    ordered_sources(
        items.filter(|it: WalkItem| discovery_keeps(it)).map_values(
            |it: WalkItem| discovery_view(it),
        ),
    )
}

fn collect_walked(items: &Vec<WalkItem>, shallow: bool) -> (r: Vec<LogSource>)
    ensures
        shallow ==> source_views(r@) == items@.filter(|it: WalkItem| shallow_keeps(it)).map_values(
            |it: WalkItem| shallow_view(it),
        ),
        !shallow ==> source_views(r@) == items@.filter(|it: WalkItem| discovery_keeps(it)).map_values(
            |it: WalkItem| discovery_view(it),
        ),
{
    let ghost pred = if shallow {
        |it: WalkItem| shallow_keeps(it)
    } else {
        |it: WalkItem| discovery_keeps(it)
    };
    let ghost f = if shallow {
        |it: WalkItem| shallow_view(it)
    } else {
        |it: WalkItem| discovery_view(it)
    };
    let mut out: Vec<LogSource> = Vec::new();
    let n = items.len();
    for i in 0..n
        invariant
            n == items.len(),
            pred == (if shallow {
                |it: WalkItem| shallow_keeps(it)
            } else {
                |it: WalkItem| discovery_keeps(it)
            }),
            f == (if shallow {
                |it: WalkItem| shallow_view(it)
            } else {
                |it: WalkItem| discovery_view(it)
            }),
            source_views(out@) == items@.take(i as int).filter(pred).map_values(f),
    {
        let it = &items[i];
        let name = base_name_of(it.path.as_str());
        let keep = it.is_file && (if shallow {
            it.depth <= SHALLOW_SCAN_DEPTH
        } else {
            it.readable
        }) && is_log_file_name(
            name.as_str(),
        );
        proof {
            let t = items@.take(i as int);
            assert(items@.take(i + 1) =~= t.push(items@[i as int]));
            t.lemma_filter_push(items@[i as int], pred);
        }
        if keep {
            let shown = if shallow {
                name
            } else {
                display_name(it.path.as_str())
            };
            let ghost before = source_views(out@);
            out.push(LogSource { name: shown, path: it.path.clone(), location: LogLocation::Local });
            proof {
                assert(source_views(out@) =~= before.push(f(items@[i as int])));
                let g = items@.take(i as int).filter(pred);
                assert(g.push(items@[i as int]).map_values(f) =~= g.map_values(f).push(
                    f(items@[i as int]),
                ));
            }
        } else {
            proof {
                assert(!pred(items@[i as int]));
            }
        }
    }
    proof {
        assert(items@.take(n as int) =~= items@);
    }
    out
}

/// Some source of `s` has path `p`.
pub open spec fn has_path(s: Seq<LogSourceView>, p: Seq<char>) -> bool {
    exists|k: int| 0 <= k < s.len() && #[trigger] s[k].path == p
}

proof fn lemma_dedup_paths(s: Seq<LogSourceView>)
    ensures
        forall|p: Seq<char>| has_path(dedup_by_path(s), p) <==> has_path(s, p),
    decreases s.len(),
{
    if s.len() > 1 {
        let t = s.drop_last();
        lemma_dedup_paths(t);
        let d = dedup_by_path(t);
        assert forall|p: Seq<char>| has_path(dedup_by_path(s), p) <==> has_path(s, p) by {
            if has_path(s, p) {
                let k = choose|k: int| 0 <= k < s.len() && #[trigger] s[k].path == p;
                if k < t.len() {
                    assert(t[k] == s[k]);
                }
            }
            if has_path(t, p) {
                let k = choose|k: int| 0 <= k < t.len() && #[trigger] t[k].path == p;
                assert(s[k] == t[k]);
            }
            if s.last().path == s[s.len() - 2].path {
                if s.last().path == p {
                    assert(t[t.len() - 1] == s[s.len() - 2]);
                }
            } else {
                let e = d.push(s.last());
                if has_path(e, p) {
                    let k = choose|k: int| 0 <= k < e.len() && #[trigger] e[k].path == p;
                    if k < d.len() {
                        assert(e[k] == d[k]);
                    }
                }
                if has_path(d, p) {
                    let k = choose|k: int| 0 <= k < d.len() && #[trigger] d[k].path == p;
                    assert(e[k] == d[k]);
                }
                if s.last().path == p {
                    assert(e[d.len() as int] == s.last());
                }
            }
        }
    }
}

proof fn lemma_ordered_paths(s: Seq<LogSourceView>)
    ensures
        forall|p: Seq<char>| has_path(ordered_sources(s), p) <==> has_path(s, p),
{
    let t = sort_by(s, name_key());
    lemma_dedup_paths(t);
    crate::order::lemma_sort_by_permutes(s, name_key());
    broadcast use vstd::seq_lib::group_to_multiset_ensures;
    assert forall|p: Seq<char>| has_path(t, p) <==> has_path(s, p) by {
        if has_path(t, p) {
            let k = choose|k: int| 0 <= k < t.len() && #[trigger] t[k].path == p;
            assert(t.contains(t[k]));
            assert(s.to_multiset().count(t[k]) > 0);
            assert(s.contains(t[k]));
            let j = choose|j: int| 0 <= j < s.len() && s[j] == t[k];
            assert(s[j].path == p);
        }
        if has_path(s, p) {
            let k = choose|k: int| 0 <= k < s.len() && #[trigger] s[k].path == p;
            assert(s.contains(s[k]));
            assert(t.to_multiset().count(s[k]) > 0);
            assert(t.contains(s[k]));
            let j = choose|j: int| 0 <= j < t.len() && t[j] == s[k];
            assert(t[j].path == p);
        }
    }
}

proof fn lemma_scan_filters_agree(items: Seq<WalkItem>)
    requires
        forall|i: int| 0 <= i < items.len() && (#[trigger] items[i]).is_file ==> items[i].readable,
    ensures
        items.filter(|it: WalkItem| shallow_keeps(it)) == items.filter(
            |it: WalkItem| it.depth <= SHALLOW_SCAN_DEPTH,
        ).filter(|it: WalkItem| discovery_keeps(it)),
    decreases items.len(),
{
    let sk = |it: WalkItem| shallow_keeps(it);
    let le = |it: WalkItem| it.depth <= SHALLOW_SCAN_DEPTH;
    let dk = |it: WalkItem| discovery_keeps(it);
    if items.len() == 0 {
        assert(items.filter(sk) =~= Seq::<WalkItem>::empty());
        assert(items.filter(le) =~= Seq::<WalkItem>::empty());
        assert(items.filter(le).filter(dk) =~= Seq::<WalkItem>::empty());
    } else {
        let t = items.drop_last();
        let x = items.last();
        assert forall|i: int| 0 <= i < t.len() && (#[trigger] t[i]).is_file implies t[i].readable by {
            assert(t[i] == items[i]);
        }
        lemma_scan_filters_agree(t);
        assert(items =~= t.push(x));
        t.lemma_filter_push(x, sk);
        t.lemma_filter_push(x, le);
        t.filter(le).lemma_filter_push(x, dk);
    }
}

/// A shallow scan and discovery over the same walk of readable files agree
/// on the logs they report: the paths a shallow scan reports are exactly
/// those discovery reports for the entries at most `SHALLOW_SCAN_DEPTH`
/// levels down. (Discovery leaves out files it cannot read; a shallow scan
/// lists them.)
pub proof fn lemma_scans_agree(items: Seq<WalkItem>)
    requires
        forall|i: int| 0 <= i < items.len() && (#[trigger] items[i]).is_file ==> items[i].readable,
    ensures
        forall|p: Seq<char>|
            has_path(shallow_scan_result(items), p) <==> has_path(
                discovery_result(items.filter(|it: WalkItem| it.depth <= SHALLOW_SCAN_DEPTH)),
                p,
            ),
{
    let a = items.filter(|it: WalkItem| shallow_keeps(it));
    let b = items.filter(|it: WalkItem| it.depth <= SHALLOW_SCAN_DEPTH).filter(
        |it: WalkItem| discovery_keeps(it),
    );
    lemma_scan_filters_agree(items);
    assert(a == b);
    let sa = a.map_values(|it: WalkItem| shallow_view(it));
    let sb = b.map_values(|it: WalkItem| discovery_view(it));
    lemma_ordered_paths(sa);
    lemma_ordered_paths(sb);
    assert(shallow_scan_result(items) == ordered_sources(sa));
    assert(discovery_result(items.filter(|it: WalkItem| it.depth <= SHALLOW_SCAN_DEPTH))
        == ordered_sources(sb));
    let ds = discovery_result(items.filter(|it: WalkItem| it.depth <= SHALLOW_SCAN_DEPTH));
    assert forall|p: Seq<char>| has_path(shallow_scan_result(items), p) <==> has_path(ds, p) by {
        assert(has_path(ordered_sources(sa), p) <==> has_path(sa, p));
        assert(has_path(ordered_sources(sb), p) <==> has_path(sb, p));
        if has_path(sa, p) {
            let k = choose|k: int| 0 <= k < sa.len() && #[trigger] sa[k].path == p;
            assert(sb[k].path == b[k].path@);
        }
        if has_path(sb, p) {
            let k = choose|k: int| 0 <= k < sb.len() && #[trigger] sb[k].path == p;
            assert(sa[k].path == a[k].path@);
        }
    }
}

proof fn lemma_kept_path_reported(
    items: Seq<WalkItem>,
    k: int,
    pred: spec_fn(WalkItem) -> bool,
    view: spec_fn(WalkItem) -> LogSourceView,
)
    requires
        0 <= k < items.len(),
        pred(items[k]),
        view(items[k]).path == items[k].path@,
    ensures
        has_path(ordered_sources(items.filter(pred).map_values(view)), items[k].path@),
{
    let f = items.filter(pred);
    items.lemma_filter_contains(pred, k);
    let j = choose|j: int| 0 <= j < f.len() && f[j] == items[k];
    let m = f.map_values(view);
    assert(m[j].path == items[k].path@);
    assert(has_path(m, items[k].path@));
    lemma_ordered_paths(m);
}

/// Discovery misses no log: every walked readable file whose name has
/// extension `log` is reported, however deep below its root it lies.
pub proof fn lemma_discovery_complete(items: Seq<WalkItem>)
    ensures
        forall|k: int|
            0 <= k < items.len() && (#[trigger] items[k]).is_file && items[k].readable
                && has_log_extension(base_name(items[k].path@)) ==> has_path(
                discovery_result(items),
                items[k].path@,
            ),
{
    assert forall|k: int|
        0 <= k < items.len() && (#[trigger] items[k]).is_file && items[k].readable
            && has_log_extension(base_name(items[k].path@)) implies has_path(
            discovery_result(items),
            items[k].path@,
        ) by {
        lemma_kept_path_reported(
            items,
            k,
            |it: WalkItem| discovery_keeps(it),
            |it: WalkItem| discovery_view(it),
        );
    }
}

/// A shallow scan misses no log within reach: every walked file at most
/// `SHALLOW_SCAN_DEPTH` levels down whose name has extension `log` is
/// reported.
pub proof fn lemma_shallow_scan_complete(items: Seq<WalkItem>)
    ensures
        forall|k: int|
            0 <= k < items.len() && (#[trigger] items[k]).is_file && items[k].depth <= 3
                && has_log_extension(base_name(items[k].path@)) ==> has_path(
                shallow_scan_result(items),
                items[k].path@,
            ),
{
    assert forall|k: int|
        0 <= k < items.len() && (#[trigger] items[k]).is_file && items[k].depth <= 3
            && has_log_extension(base_name(items[k].path@)) implies has_path(
            shallow_scan_result(items),
            items[k].path@,
        ) by {
        lemma_kept_path_reported(
            items,
            k,
            |it: WalkItem| shallow_keeps(it),
            |it: WalkItem| shallow_view(it),
        );
    }
}

/// The logs found by a shallow scan, given the entries of a walk of the
/// scanned directory (which skips ignored names, see `is_ignored`): files
/// with extension `log` at most `SHALLOW_SCAN_DEPTH` levels down, named by
/// file name, ordered by name, consecutive repeats of a path dropped.
pub fn shallow_scan(items: &Vec<WalkItem>) -> (r: Vec<LogSource>)
    ensures
        source_views(r@) == shallow_scan_result(items@),
        forall|k: int|
            0 <= k < items@.len() && (#[trigger] items@[k]).is_file && items@[k].depth <= 3
                && has_log_extension(base_name(items@[k].path@)) ==> has_path(
                source_views(r@),
                items@[k].path@,
            ),
{
    let found = collect_walked(items, true);
    let r = order_sources(found);
    proof {
        lemma_shallow_scan_complete(items@);
    }
    r
}

/// The logs discovered under the configured roots, given the entries of
/// walks of those roots (which skip ignored names): readable files with
/// extension `log`, named `grandparent/file`, ordered by name, consecutive repeats of
/// a path dropped.
pub fn discover_sources(items: &Vec<WalkItem>) -> (r: Vec<LogSource>)
    ensures
        source_views(r@) == discovery_result(items@),
        forall|k: int|
            0 <= k < items@.len() && (#[trigger] items@[k]).is_file && items@[k].readable
                && has_log_extension(base_name(items@[k].path@)) ==> has_path(
                source_views(r@),
                items@[k].path@,
            ),
{
    let found = collect_walked(items, false);
    let r = order_sources(found);
    proof {
        lemma_discovery_complete(items@);
    }
    r
}

// ---------------------------------------------------------------------------
// Remote hosts
// ---------------------------------------------------------------------------

/// The directories searched for logs on a remote host.
pub open spec fn remote_scan_roots() -> Seq<Seq<char>> {
    seq!["/var/log"@, "/var/www"@, "/opt"@, "/home"@]
}

/// The shell command that lists the `.log` files under `root`.
pub open spec fn find_command_text(root: Seq<char>) -> Seq<char> {
    "find "@ + root + " -type f -name '*.log' 2>/dev/null"@
}

fn find_command(root: &str) -> (r: String)
    ensures
        r@ == find_command_text(root@),
{
    let a = join2("find ", root);
    join2(a.as_str(), " -type f -name '*.log' 2>/dev/null")
}

/// The commands run on a remote host to find its logs, one per searched
/// root, in order.
pub fn remote_scan_commands() -> (r: Vec<String>)
    ensures
        r@.map_values(|c: String| c@) == remote_scan_roots().map_values(
            |root: Seq<char>| find_command_text(root),
        ),
{
    let mut r: Vec<String> = Vec::new();
    r.push(find_command("/var/log"));
    r.push(find_command("/var/www"));
    r.push(find_command("/opt"));
    r.push(find_command("/home"));
    proof {
        assert(r@.map_values(|c: String| c@) =~= remote_scan_roots().map_values(
            |root: Seq<char>| find_command_text(root),
        ));
    }
    r
}

/// The paths a `find` output lists: its lines, trimmed, without the empty ones.
pub open spec fn listed_paths(output: Seq<char>) -> Seq<Seq<char>> {
    text_lines(output).map_values(|l: Seq<char>| trimmed(l)).filter(|t: Seq<char>| t.len() > 0)
}

/// The paths listed by all outputs, in order.
pub open spec fn all_listed_paths(outputs: Seq<Seq<char>>) -> Seq<Seq<char>>
    decreases outputs.len(),
{
    if outputs.len() == 0 {
        Seq::empty()
    } else {
        all_listed_paths(outputs.drop_last()) + listed_paths(outputs.last())
    }
}

/// The remote log a listed path stands for on host `host`.
pub open spec fn remote_view(path: Seq<char>, host: Seq<char>) -> LogSourceView {
    LogSourceView { name: display_name_of(path), path, location: LocationView::Remote(host) }
}

/// What `scan_remote` reports for the outputs of the `find` commands that
/// succeeded on host `host`.
pub open spec fn remote_scan_result(outputs: Seq<Seq<char>>, host: Seq<char>) -> Seq<LogSourceView> {
    ordered_sources(all_listed_paths(outputs).map_values(|p: Seq<char>| remote_view(p, host)))
}

proof fn lemma_empty_output_inserted(outputs: Seq<Seq<char>>, i: int)
    requires
        0 <= i <= outputs.len(),
    ensures
        all_listed_paths(outputs.insert(i, Seq::<char>::empty())) == all_listed_paths(outputs),
    decreases outputs.len(),
{
    let e = Seq::<char>::empty();
    let o = outputs.insert(i, e);
    assert(text_lines(e) == Seq::<Seq<char>>::empty());
    assert(listed_paths(e) =~= Seq::<Seq<char>>::empty()) by {
        let m = text_lines(e).map_values(|l: Seq<char>| trimmed(l));
        assert(m =~= Seq::<Seq<char>>::empty());
        assert(m.filter(|t: Seq<char>| t.len() > 0) =~= Seq::<Seq<char>>::empty());
    }
    if i == outputs.len() {
        assert(o.drop_last() =~= outputs);
        assert(o.last() == e);
        assert(all_listed_paths(outputs) + listed_paths(e) =~= all_listed_paths(outputs));
    } else {
        lemma_empty_output_inserted(outputs.drop_last(), i);
        assert(o.drop_last() =~= outputs.drop_last().insert(i, e));
        assert(o.last() == outputs.last());
    }
}

/// A `find` command that failed (or printed nothing) adds no log: leaving
/// its output out, or putting an empty output in its place, gives the same
/// logs; with no output at all there are none.
pub proof fn lemma_failed_command_adds_nothing(outputs: Seq<Seq<char>>, i: int, host: Seq<char>)
    requires
        0 <= i <= outputs.len(),
    ensures
        remote_scan_result(outputs.insert(i, Seq::<char>::empty()), host) == remote_scan_result(
            outputs,
            host,
        ),
        remote_scan_result(Seq::<Seq<char>>::empty(), host) == Seq::<LogSourceView>::empty(),
{
    lemma_empty_output_inserted(outputs, i);
    let none = Seq::<Seq<char>>::empty();
    assert(all_listed_paths(none) == Seq::<Seq<char>>::empty());
    let m = all_listed_paths(none).map_values(|p: Seq<char>| remote_view(p, host));
    assert(m =~= Seq::<LogSourceView>::empty());
    assert(sort_by(m, name_key()) == m);
    assert(dedup_by_path(m) == m);
}

fn collect_listed(output: &str, host: &str, out: &mut Vec<LogSource>)
    ensures
        source_views(final(out)@) == source_views(old(out)@) + listed_paths(output@).map_values(
            |p: Seq<char>| remote_view(p, host@),
        ),
{
    let lines = lines_of(output);
    let ghost ls = lines@.map_values(|l: String| l@);
    let ghost tr = ls.map_values(|l: Seq<char>| trimmed(l));
    let ghost pred = |t: Seq<char>| t.len() > 0;
    let ghost f = |p: Seq<char>| remote_view(p, host@);
    let ghost start = source_views(out@);
    for i in 0..lines.len()
        invariant
            ls == lines@.map_values(|l: String| l@),
            ls == text_lines(output@),
            tr == ls.map_values(|l: Seq<char>| trimmed(l)),
            pred == (|t: Seq<char>| t.len() > 0),
            f == (|p: Seq<char>| remote_view(p, host@)),
            source_views(out@) == start + tr.take(i as int).filter(pred).map_values(f),
    {
        let t = trim_text(lines[i].as_str());
        proof {
            let tk = tr.take(i as int);
            assert(tr.take(i + 1) =~= tk.push(tr[i as int]));
            tk.lemma_filter_push(tr[i as int], pred);
            assert(t@ == tr[i as int]);
        }
        if !t.as_str().is_empty() {
            let name = display_name(t.as_str());
            let ghost before = source_views(out@);
            out.push(
                LogSource {
                    name,
                    path: t,
                    location: LogLocation::Remote(crate::text::to_owned_string(host)),
                },
            );
            proof {
                let g = tr.take(i as int).filter(pred);
                assert(g.push(tr[i as int]).map_values(f) =~= g.map_values(f).push(f(tr[i as int])));
                assert(source_views(out@) =~= before.push(f(tr[i as int])));
            }
        }
    }
    proof {
        assert(tr.take(lines.len() as int) =~= tr);
        assert(tr.filter(pred) == listed_paths(output@));
    }
}

/// The logs of a remote host, given the outputs of the `find` commands of
/// `remote_scan_commands` that succeeded there: each non-empty trimmed line
/// is a log path, named `grandparent/file`; ordered by name, consecutive
/// repeats of a path dropped.
pub fn scan_remote(outputs: &Vec<String>, host_name: &str) -> (r: Vec<LogSource>)
    ensures
        source_views(r@) == remote_scan_result(outputs@.map_values(|o: String| o@), host_name@),
{
    let ghost os = outputs@.map_values(|o: String| o@);
    let ghost f = |p: Seq<char>| remote_view(p, host_name@);
    let mut found: Vec<LogSource> = Vec::new();
    for i in 0..outputs.len()
        invariant
            os == outputs@.map_values(|o: String| o@),
            f == (|p: Seq<char>| remote_view(p, host_name@)),
            source_views(found@) == all_listed_paths(os.take(i as int)).map_values(f),
    {
        let ghost before = source_views(found@);
        collect_listed(outputs[i].as_str(), host_name, &mut found);
        proof {
            let tk = os.take(i + 1);
            assert(tk.drop_last() =~= os.take(i as int));
            assert(tk.last() == outputs@[i as int]@);
            let a = all_listed_paths(os.take(i as int));
            let b = listed_paths(outputs@[i as int]@);
            assert((a + b).map_values(f) =~= a.map_values(f) + b.map_values(f));
        }
    }
    proof {
        assert(os.take(outputs.len() as int) =~= os);
    }
    order_sources(found)
}

} // verus!
