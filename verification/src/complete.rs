//! Tab completion of a typed path: which directory is listed, which of its
//! entries are candidates, and what the typed text completes to.
use vstd::prelude::*;
use vstd::string::*;
use crate::log_source::{is_hidden, DirItem, EntryKind};
use crate::path::{
    join_prefix, path_file_name, path_file_name_of, path_join, path_join_of, path_parent, path_parent_of,
};
use crate::text::{chars_of, starts_with_text, string_from_chars, text_starts_with};

verus! {

broadcast use vstd::string::group_string_axioms;

/// The directory listed to complete `input`, and the prefix its entries
/// must start with: a text ending in `/` lists itself with no prefix; any
/// other lists its parent (or `/` when it has none) with its file name (or
/// nothing) as prefix.
pub open spec fn completion_target_of(input: Seq<char>) -> (Seq<char>, Seq<char>) {
    if input.len() > 0 && input.last() == '/' {
        (input, Seq::empty())
    } else {
        (
            match path_parent_of(input) {
                Some(p) => p,
                None => seq!['/'],
            },
            match path_file_name_of(input) {
                Some(n) => n,
                None => Seq::empty(),
            },
        )
    }
}

/// The directory to list and the prefix to match when completing `input`.
pub fn completion_target(input: &str) -> (r: (String, String))
    ensures
        (r.0@, r.1@) == completion_target_of(input@),
{
    let cs = chars_of(input);
    if cs.len() > 0 && cs[cs.len() - 1] == '/' {
        (String::from_str(input), String::new())
    } else {
        let dir = match path_parent(input) {
            Some(p) => p,
            None => {
                let s = String::from_str("/");
                proof {
                    reveal_strlit("/");
                    assert(s@ =~= seq!['/']);
                }
                s
            },
        };
        let prefix = match path_file_name(input) {
            Some(n) => n,
            None => String::new(),
        };
        (dir, prefix)
    }
}

/// A listed entry is a candidate: its name starts with the prefix and is
/// not hidden.
pub open spec fn is_candidate(it: DirItem, prefix: Seq<char>) -> bool {
    starts_with_text(it.name@, prefix) && !is_hidden(it.name@)
}

/// The text a candidate completes to: the directory joined with its name,
/// with a trailing `/` for a directory.
pub open spec fn candidate_text(dir: Seq<char>, it: DirItem) -> Seq<char> {
    let p = path_join_of(dir, it.name@);
    if it.kind == EntryKind::Directory {
        p + seq!['/']
    } else {
        p
    }
}

/// The completion texts of a listing of `dir`, in listing order.
pub open spec fn candidates_of(dir: Seq<char>, prefix: Seq<char>, items: Seq<DirItem>) -> Seq<
    Seq<char>,
> {
    items.filter(|it: DirItem| is_candidate(it, prefix)).map_values(
        |it: DirItem| candidate_text(dir, it),
    )
}

/// `p` is a prefix of every candidate.
pub open spec fn common_to_all(p: Seq<char>, cands: Seq<Seq<char>>) -> bool {
    forall|i: int| 0 <= i < cands.len() ==> starts_with_text(#[trigger] cands[i], p)
}

/// `p` is the longest common prefix of the (non-empty) list `cands`.
pub open spec fn is_longest_common_prefix(p: Seq<char>, cands: Seq<Seq<char>>) -> bool {
    &&& cands.len() > 0
    &&& p.len() <= cands[0].len()
    &&& p == cands[0].subrange(0, p.len() as int)
    &&& common_to_all(p, cands)
    &&& (p.len() == cands[0].len() || !common_to_all(
        cands[0].subrange(0, p.len() as int + 1),
        cands,
    ))
}

/// What `input` completes to, given the candidates: nothing when there are
/// none, the candidate when there is one, else their longest common prefix.
pub open spec fn completion_of(cands: Seq<Seq<char>>, lcp: Seq<char>) -> Option<Seq<char>> {
    if cands.len() == 0 {
        None
    } else if cands.len() == 1 {
        Some(cands[0])
    } else {
        Some(lcp)
    }
}

/// The longest common prefix of a non-empty list of texts.
pub open spec fn lcp_of(cands: Seq<Seq<char>>) -> Seq<char> {
    choose|p: Seq<char>| is_longest_common_prefix(p, cands)
}

/// What a typed path completes to among the candidates `cands`.
pub open spec fn completion_result(cands: Seq<Seq<char>>) -> Option<Seq<char>> {
    completion_of(cands, lcp_of(cands))
}

/// The longest common prefix is unique.
pub proof fn lemma_longest_common_prefix_unique(p: Seq<char>, q: Seq<char>, cands: Seq<Seq<char>>)
    requires
        is_longest_common_prefix(p, cands),
        is_longest_common_prefix(q, cands),
    ensures
        p == q,
{
    if p.len() < q.len() {
        assert(common_to_all(cands[0].subrange(0, p.len() as int + 1), cands)) by {
            assert forall|i: int| 0 <= i < cands.len() implies starts_with_text(
                #[trigger] cands[i],
                cands[0].subrange(0, p.len() as int + 1),
            ) by {
                assert(starts_with_text(cands[i], q));
                assert(cands[i].subrange(0, p.len() as int + 1) =~= q.subrange(0, p.len() as int + 1));
                assert(cands[0].subrange(0, p.len() as int + 1) =~= q.subrange(0, p.len() as int + 1));
            }
        }
    } else if q.len() < p.len() {
        assert(common_to_all(cands[0].subrange(0, q.len() as int + 1), cands)) by {
            assert forall|i: int| 0 <= i < cands.len() implies starts_with_text(
                #[trigger] cands[i],
                cands[0].subrange(0, q.len() as int + 1),
            ) by {
                assert(starts_with_text(cands[i], p));
                assert(cands[i].subrange(0, q.len() as int + 1) =~= p.subrange(0, q.len() as int + 1));
                assert(cands[0].subrange(0, q.len() as int + 1) =~= p.subrange(0, q.len() as int + 1));
            }
        }
    } else {
        assert(p =~= q);
    }
}

/// Every listed name is a plain relative name, as a directory listing
/// gives them: not empty and not starting with `/`.
pub open spec fn plain_names(items: Seq<DirItem>) -> bool {
    forall|i: int| 0 <= i < items.len() ==> (#[trigger] items[i]).name@.len() > 0 && items[i].name@[0] != '/'
}

/// A prefix common to all candidates is also a prefix of their longest
/// common prefix.
proof fn lemma_lcp_keeps_prefix(lcp: Seq<char>, cands: Seq<Seq<char>>, p: Seq<char>)
    requires
        is_longest_common_prefix(lcp, cands),
        common_to_all(p, cands),
    ensures
        starts_with_text(lcp, p),
{
    assert(starts_with_text(cands[0], p));
    if lcp.len() < p.len() {
        let n = lcp.len() as int;
        assert(lcp.len() < cands[0].len());
        assert(common_to_all(cands[0].subrange(0, n + 1), cands)) by {
            assert(cands[0].subrange(0, n + 1) =~= p.subrange(0, n + 1));
            assert forall|i: int| 0 <= i < cands.len() implies starts_with_text(
                #[trigger] cands[i],
                cands[0].subrange(0, n + 1),
            ) by {
                assert(starts_with_text(cands[i], p));
                assert(cands[i].subrange(0, n + 1) =~= p.subrange(0, n + 1));
            }
        }
        assert(false);
    }
    assert(lcp.subrange(0, p.len() as int) =~= cands[0].subrange(0, p.len() as int));
}

/// The longest common prefix of a non-empty list of texts.
fn longest_common_prefix(cands: &Vec<Vec<char>>) -> (r: Vec<char>)
    requires
        cands.len() > 0,
    ensures
        is_longest_common_prefix(r@, cands@.map_values(|c: Vec<char>| c@)),
{
    let ghost cs = cands@.map_values(|c: Vec<char>| c@);
    let first = &cands[0];
    let mut k: usize = 0;
    proof {
        assert forall|i: int| 0 <= i < cs.len() implies starts_with_text(
            #[trigger] cs[i],
            cs[0].subrange(0, 0),
        ) by {
            assert(cs[i].subrange(0, 0) =~= cs[0].subrange(0, 0));
        }
    }
    loop
        invariant
            cs == cands@.map_values(|c: Vec<char>| c@),
            cands.len() > 0,
            first@ == cs[0],
            k <= first.len(),
            common_to_all(cs[0].subrange(0, k as int), cs),
        ensures
            k <= first.len(),
            common_to_all(cs[0].subrange(0, k as int), cs),
            k == first.len() || !common_to_all(cs[0].subrange(0, k + 1), cs),
        decreases first.len() - k,
    {
        if k == first.len() {
            break;
        }
        let c = first[k];
        let mut j: usize = 0;
        let mut all = true;
        while j < cands.len()
            invariant
                cs == cands@.map_values(|c: Vec<char>| c@),
                k < first.len(),
                first@ == cs[0],
                c == cs[0][k as int],
                j <= cands.len(),
                common_to_all(cs[0].subrange(0, k as int), cs),
                all ==> forall|i: int| 0 <= i < j ==> k < (#[trigger] cs[i]).len() && cs[i][k as int] == c,
                !all ==> !common_to_all(cs[0].subrange(0, k + 1), cs),
            decreases cands.len() - j,
        {
            if all {
                let m = &cands[j];
                if !(k < m.len() && m[k] == c) {
                    all = false;
                    proof {
                        let pre = cs[0].subrange(0, k + 1);
                        if starts_with_text(cs[j as int], pre) {
                            assert(pre[k as int] == c);
                            assert(cs[j as int].subrange(0, k + 1)[k as int] == cs[j as int][k as int]);
                        }
                    }
                }
            }
            j = j + 1;
        }
        if !all {
            break;
        }
        proof {
            let pre = cs[0].subrange(0, k + 1);
            assert forall|i: int| 0 <= i < cs.len() implies starts_with_text(#[trigger] cs[i], pre) by {
                assert(starts_with_text(cs[i], cs[0].subrange(0, k as int)));
                assert(cs[i].subrange(0, k + 1) =~= cs[i].subrange(0, k as int).push(cs[i][k as int]));
                assert(pre =~= cs[0].subrange(0, k as int).push(c));
            }
        }
        k = k + 1;
    }
    let mut r: Vec<char> = Vec::new();
    let mut i: usize = 0;
    while i < k
        invariant
            k <= first.len(),
            i <= k,
            r@ == first@.subrange(0, i as int),
        decreases k - i,
    {
        r.push(first[i]);
        i = i + 1;
        proof {
            assert(first@.subrange(0, i as int) =~= first@.subrange(0, i - 1).push(first@[i - 1]));
        }
    }
    r
}

/// What a typed path completes to, given the listing `items` of `dir` and
/// the `prefix` the candidates must start with.
fn complete_in(dir: &str, prefix: &str, items: &Vec<DirItem>) -> (r: Option<String>)
    ensures
        match r {
            Some(t) => completion_result(candidates_of(dir@, prefix@, items@)) == Some(t@),
            None => completion_result(candidates_of(dir@, prefix@, items@)) is None,
        },
        plain_names(items@) ==> (r matches Some(t) ==> starts_with_text(
            t@,
            join_prefix(dir@) + prefix@,
        )),
{
    let ghost start = join_prefix(dir@) + prefix@;
    let ghost pred = |it: DirItem| is_candidate(it, prefix@);
    let ghost f = |it: DirItem| candidate_text(dir@, it);
    let mut cands: Vec<Vec<char>> = Vec::new();
    for i in 0..items.len()
        invariant
            pred == (|it: DirItem| is_candidate(it, prefix@)),
            f == (|it: DirItem| candidate_text(dir@, it)),
            cands@.map_values(|c: Vec<char>| c@) == items@.take(i as int).filter(pred).map_values(f),
            start == join_prefix(dir@) + prefix@,
            plain_names(items@) ==> forall|j: int| 0 <= j < cands@.len() ==> starts_with_text(
                (#[trigger] cands@[j])@,
                start,
            ),
    {
        let it = &items[i];
        let keep = text_starts_with(it.name.as_str(), prefix) && !{
            let n = chars_of(it.name.as_str());
            n.len() > 0 && n[0] == '.'
        };
        proof {
            let t = items@.take(i as int);
            assert(items@.take(i + 1) =~= t.push(items@[i as int]));
            t.lemma_filter_push(items@[i as int], pred);
        }
        if keep {
            let joined = path_join(dir, it.name.as_str());
            let mut c = chars_of(joined.as_str());
            if it.kind == EntryKind::Directory {
                c.push('/');
            }
            proof {
                if plain_names(items@) {
                    let name = it.name@;
                    assert(name.len() > 0 && name[0] != '/');
                    assert(joined@ == join_prefix(dir@) + name);
                    assert(starts_with_text(name, prefix@));
                    let jp = join_prefix(dir@);
                    assert((jp + name).subrange(0, start.len() as int) =~= jp + name.subrange(
                        0,
                        prefix@.len() as int,
                    ));
                    assert(starts_with_text(joined@, start));
                    assert(c@.subrange(0, start.len() as int) =~= joined@.subrange(
                        0,
                        start.len() as int,
                    ));
                }
            }
            let ghost before = cands@.map_values(|c: Vec<char>| c@);
            let ghost old_cands = cands@;
            cands.push(c);
            proof {
                assert forall|j: int| 0 <= j < cands@.len() && plain_names(items@) implies starts_with_text(
                    (#[trigger] cands@[j])@,
                    start,
                ) by {
                    if j < old_cands.len() {
                        assert(cands@[j] == old_cands[j]);
                    }
                }
                assert(c@ == f(items@[i as int]));
                let g = items@.take(i as int).filter(pred);
                assert(g.push(items@[i as int]).map_values(f) =~= g.map_values(f).push(
                    f(items@[i as int]),
                ));
                assert(cands@.map_values(|c: Vec<char>| c@) =~= before.push(c@));
            }
        } else {
            proof {
                assert(!pred(items@[i as int]));
            }
        }
    }
    let ghost cs = cands@.map_values(|c: Vec<char>| c@);
    proof {
        assert(items@.take(items.len() as int) =~= items@);
        assert(cs == candidates_of(dir@, prefix@, items@));
    }
    proof {
        if plain_names(items@) {
            assert forall|j: int| 0 <= j < cs.len() implies starts_with_text(#[trigger] cs[j], start) by {
                assert(cs[j] == cands@[j]@);
            }
        }
    }
    if cands.len() == 0 {
        None
    } else if cands.len() == 1 {
        let t = string_from_chars(cands[0].as_slice());
        Some(t)
    } else {
        let lcp = longest_common_prefix(&cands);
        let t = string_from_chars(lcp.as_slice());
        proof {
            lemma_longest_common_prefix_unique(lcp_of(cs), lcp@, cs);
            if plain_names(items@) {
                lemma_lcp_keeps_prefix(lcp@, cs, start);
            }
        }
        Some(t)
    }
}

/// Tab completion of a typed path: what `input` completes to, given the
/// listing `items` of the directory `completion_target` chooses for it. With
/// no candidate there is nothing; with one, it is the completion; with
/// several, it is their longest common prefix. When the listed names are
/// plain (as a directory listing gives them), the completion extends the
/// listed directory, its separator and the typed prefix; so a text ending
/// in `/` is only ever extended.
pub fn tab_complete(input: &str, items: &Vec<DirItem>) -> (r: Option<String>)
    ensures
        ({
            let target = completion_target_of(input@);
            match r {
                Some(t) => completion_result(candidates_of(target.0, target.1, items@))
                    == Some(t@),
                None => completion_result(candidates_of(target.0, target.1, items@)) is None,
            }
        }),
        ({
            let target = completion_target_of(input@);
            plain_names(items@) ==> (r matches Some(t) ==> starts_with_text(
                t@,
                join_prefix(target.0) + target.1,
            ))
        }),
        plain_names(items@) && input@.len() > 0 && input@.last() == '/' ==> (r matches Some(t)
            ==> starts_with_text(t@, input@)),
{
    let (dir, prefix) = completion_target(input);
    let r = complete_in(dir.as_str(), prefix.as_str(), items);
    proof {
        if input@.len() > 0 && input@.last() == '/' {
            assert(join_prefix(input@) == input@);
            assert(input@ + prefix@ =~= input@);
        }
    }
    r
}

} // verus!
