//! The search path: its directories, the candidate files for a program,
//! and names that complete a partial word.

use vstd::prelude::*;
use vstd::string::*;
use crate::text::{chars_of, join_with};

verus! {

/// The path that `std::path::Path::join` makes of `base` and `name`.
pub uninterp spec fn joined_path(base: Seq<char>, name: Seq<char>) -> Seq<char>;

/// `std::path::Path::join` on two UTF-8 paths, read back as a string: the
/// result is named `joined_path`; of it, only what the documentation says
/// for an absolute `name` (on Unix, one that starts with `/`) is stated:
/// it replaces `base`. How a separator is put between the two is left unsaid.
#[verifier::external_body]
pub(crate) fn join_path(base: &str, name: &str) -> (r: String)
    ensures
        r@ == joined_path(base@, name@),
        name@.len() > 0 && name@[0] == '/' ==> r@ == name@,
{
    std::path::Path::new(base).join(name).to_string_lossy().into_owned()
}

/// No piece of `ws` holds the separator `sep`.
pub open spec fn free_of(ws: Seq<Seq<char>>, sep: char) -> bool {
    forall|k: int| 0 <= k < ws.len() ==> !(#[trigger] ws[k]).contains(sep)
}

/// The pieces of `s` between the occurrences of `sep`, read from left to
/// right: each `sep` closes a piece and opens the next.
pub open spec fn split_on(s: Seq<char>, sep: char) -> Seq<Seq<char>>
    decreases s.len(),
{
    if s.len() == 0 {
        seq![seq![]]
    } else {
        let p = split_on(s.drop_last(), sep);
        if s.last() == sep {
            p.push(seq![])
        } else {
            p.update(p.len() - 1, p.last().push(s.last()))
        }
    }
}

/// The pieces of a split are at least one, none holds the separator, and
/// joined back with it they give the split text.
pub proof fn lemma_split_on_joins(s: Seq<char>, sep: char)
    ensures
        split_on(s, sep).len() >= 1,
        free_of(split_on(s, sep), sep),
        join_with(split_on(s, sep), sep) == s,
    decreases s.len(),
{
    if s.len() == 0 {
        assert(join_with(seq![seq![]], sep) =~= s);
        assert forall|k: int| 0 <= k < split_on(s, sep).len() implies !(#[trigger] split_on(s, sep)[k]).contains(sep) by {
            let e: Seq<char> = seq![];
            assert(split_on(s, sep)[k] == e);
        }
    } else {
        let q = s.drop_last();
        let c = s.last();
        lemma_split_on_joins(q, sep);
        let p = split_on(q, sep);
        let r = split_on(s, sep);
        if c == sep {
            assert(r.drop_last() =~= p);
            assert(join_with(r, sep) =~= join_with(p, sep).push(sep) + seq![]);
            assert(join_with(r, sep) =~= s);
            assert forall|k: int| 0 <= k < r.len() implies !(#[trigger] r[k]).contains(sep) by {
                if k < p.len() {
                    assert(r[k] == p[k]);
                } else {
                    let e: Seq<char> = seq![];
                    assert(r[k] == e);
                }
            }
        } else {
            let last = p.last().push(c);
            assert(r.drop_last() =~= p.drop_last());
            assert(r.last() == last);
            if p.len() == 1 {
                assert(join_with(p, sep) == p[0]);
                assert(s =~= q.push(c));
                assert(r.len() == 1);
                assert(join_with(r, sep) == r[0]);
                assert(r[0] == last);
            } else {
                assert(join_with(r, sep) =~= join_with(p.drop_last(), sep).push(sep) + last);
                assert(q == join_with(p.drop_last(), sep).push(sep) + p.last());
                assert(s =~= q.push(c));
                assert(join_with(r, sep) =~= s);
            }
            assert forall|k: int| 0 <= k < r.len() implies !(#[trigger] r[k]).contains(sep) by {
                if k < p.len() - 1 {
                    assert(r[k] == p[k]);
                } else {
                    assert(r[k] == last);
                    assert(!p[k].contains(sep));
                    if last.contains(sep) {
                        let j = choose|j: int| 0 <= j < last.len() && last[j] == sep;
                        assert(p[k][j] == sep);
                    }
                }
            }
        }
    }
}

/// The directories of a `:`-separated search path, in order (what
/// `str::split(':')` yields). An empty path is one empty directory name.
pub fn split_path(path: &str) -> (dirs: Vec<String>)
    ensures
        dirs.deep_view() == split_on(path@, ':'),
        dirs@.len() >= 1,
        free_of(dirs.deep_view(), ':'),
        join_with(dirs.deep_view(), ':') == path@,
{
    let cs = chars_of(path);
    let n = cs.len();
    let mut dirs: Vec<String> = Vec::new();
    let mut cur = String::new();
    let mut i: usize = 0;
    assert(dirs.deep_view().push(cur@) =~= split_on(path@.take(0), ':'));
    while i < n
        invariant
            cs@ == path@,
            n == path@.len(),
            i <= n,
            dirs.deep_view().push(cur@) == split_on(path@.take(i as int), ':'),
        decreases n - i,
    {
        let c = cs[i];
        let ghost old_dirs = dirs.deep_view();
        let ghost old_cur = cur@;
        assert(path@.take(i + 1).drop_last() =~= path@.take(i as int));
        if c == ':' {
            dirs.push(cur);
            cur = String::new();
            assert(dirs.deep_view().push(cur@) =~= old_dirs.push(old_cur).push(seq![]));
        } else {
            cur.push(c);
            assert(dirs.deep_view().push(cur@) =~= old_dirs.push(old_cur).update(
                old_dirs.len() as int,
                old_cur.push(c),
            ));
        }
        i = i + 1;
    }
    let ghost old_dirs = dirs.deep_view();
    dirs.push(cur);
    assert(path@.take(n as int) =~= path@);
    proof {
        lemma_split_on_joins(path@, ':');
    }
    dirs
}

/// The files that stand for `program` on a search path, in the order in
/// which they are tried: each directory of the path joined with the program.
pub fn lookup_candidates(program: &str, path: &str) -> (files: Vec<String>)
    ensures
        files.deep_view() == split_on(path@, ':').map_values(
            |dir: Seq<char>| joined_path(dir, program@),
        ),
{
    let dirs = split_path(path);
    let n = dirs.len();
    let mut files: Vec<String> = Vec::new();
    let mut i: usize = 0;
    while i < n
        invariant
            n == dirs@.len(),
            i <= n,
            dirs.deep_view() == split_on(path@, ':'),
            files.deep_view() == dirs.deep_view().take(i as int).map_values(
                |dir: Seq<char>| joined_path(dir, program@),
            ),
        decreases n - i,
    {
        let f = join_path(dirs[i].as_str(), program);
        let ghost before = files.deep_view();
        files.push(f);
        assert(dirs.deep_view()[i as int] == dirs@[i as int]@);
        assert(files.deep_view() =~= before.push(f@));
        assert(files.deep_view() =~= dirs.deep_view().take(i + 1).map_values(
            |dir: Seq<char>| joined_path(dir, program@),
        ));
        i = i + 1;
    }
    assert(dirs.deep_view().take(n as int) =~= dirs.deep_view());
    files
}

/// Whether a file with these properties can be run: a regular file with at
/// least one execute permission bit set.
pub fn is_executable(is_file: bool, mode: u32) -> (r: bool)
    ensures
        r == (is_file && mode & 0o111u32 != 0),
{
    is_file && mode & 0o111u32 != 0
}

/// `i` is the first place among the first `n` at which `runnable` holds.
pub open spec fn is_first_runnable(runnable: Seq<bool>, n: int, i: int) -> bool {
    &&& 0 <= i < n
    &&& runnable[i]
    &&& forall|j: int| 0 <= j < i ==> !#[trigger] runnable[j]
}

/// The file that a search of the path settles on: the first of `files`
/// whose flag in `runnable` (whether it is an executable file) is set.
/// Files without a flag count as not runnable.
pub fn first_executable(files: Vec<String>, runnable: Vec<bool>) -> (r: Option<String>)
    ensures
        match r {
            Some(file) => exists|i: int|
                is_first_runnable(runnable@, vstd::math::min(files@.len() as int, runnable@.len() as int), i)
                    && file@ == #[trigger] files@[i]@,
            None => forall|i: int|
                0 <= i < vstd::math::min(files@.len() as int, runnable@.len() as int) ==> !#[trigger] runnable@[i],
        },
{
    let n = if files.len() < runnable.len() { files.len() } else { runnable.len() };
    let mut i: usize = 0;
    while i < n
        invariant
            n == vstd::math::min(files@.len() as int, runnable@.len() as int),
            i <= n,
            forall|j: int| 0 <= j < i ==> !#[trigger] runnable@[j],
        decreases n - i,
    {
        if runnable[i] {
            let file = files[i].clone();
            assert(is_first_runnable(runnable@, n as int, i as int));
            assert(file@ == files@[i as int]@);
            return Some(file);
        }
        i = i + 1;
    }
    None
}

} // verus!
