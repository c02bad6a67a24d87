//! Tab completion: builtin names and executable names that extend the word
//! being typed.

use vstd::prelude::*;
use vstd::string::*;
use vstd::utf8::{decode_utf8, encode_utf8, is_char_boundary, encode_utf8_decode_utf8, encode_utf8_valid_utf8};
use crate::text::{chars_of, has_prefix, is_whitespace, unicode_white_space};
use crate::command::{builtins, builtin_names};

verus! {

/// The text of `line` before byte offset `pos`, or nothing when `pos` is not
/// a character boundary of `line` (what `str::get(..pos)` with a fallback to
/// `""` gives).
pub open spec fn line_prefix(line: Seq<char>, pos: int) -> Seq<char> {
    let bytes = encode_utf8(line);
    if is_char_boundary(bytes, pos) {
        decode_utf8(bytes.subrange(0, pos))
    } else {
        seq![]
    }
}

/// `s` holds a whitespace character.
pub open spec fn has_whitespace(s: Seq<char>) -> bool {
    exists|i: int| 0 <= i < s.len() && unicode_white_space(#[trigger] s[i])
}

/// The builtin names that begin with `prefix`, in order.
pub open spec fn builtin_completions(prefix: Seq<char>) -> Seq<Seq<char>> {
    builtin_names().filter(|b: Seq<char>| prefix.is_prefix_of(b))
}

/// The text of `line` before byte offset `pos`.
fn prefix_of_line(line: &str, pos: usize) -> (p: &str)
    ensures
        p@ == line_prefix(line@, pos as int),
{
    proof {
        encode_utf8_valid_utf8(line@);
    }
    let cut = if line.is_char_boundary(pos) { pos } else { 0 };
    let (p, _) = line.split_at(cut);
    proof {
        encode_utf8_decode_utf8(p@);
        if cut == 0 {
            assert(p.spec_bytes() =~= Seq::<u8>::empty());
            assert(encode_utf8(Seq::<char>::empty()) =~= Seq::<u8>::empty());
            encode_utf8_decode_utf8(Seq::<char>::empty());
            assert(decode_utf8(encode_utf8(line@).subrange(0, 0)) =~= seq![]);
        }
    }
    p
}

/// Whether `s` holds a whitespace character.
fn contains_whitespace(s: &str) -> (r: bool)
    ensures
        r == has_whitespace(s@),
{
    let cs = chars_of(s);
    let n = cs.len();
    let mut i: usize = 0;
    while i < n
        invariant
            n == cs@.len(),
            cs@ == s@,
            i <= n,
            forall|k: int| 0 <= k < i ==> !unicode_white_space(#[trigger] s@[k]),
        decreases n - i,
    {
        if is_whitespace(cs[i]) {
            return true;
        }
        i = i + 1;
    }
    false
}

/// Completes a builtin name: `pos` is the cursor's byte offset in `line`.
/// When the text before the cursor holds whitespace the word is not a
/// command name, and the answer is `(pos, [])`; otherwise it is `0` and the
/// builtins that begin with that text, in their order.
pub fn complete_builtin(line: &str, pos: usize) -> (r: (usize, Vec<&'static str>))
    ensures
        has_whitespace(line_prefix(line@, pos as int)) ==> r.0 == pos && r.1@.len() == 0,
        !has_whitespace(line_prefix(line@, pos as int)) ==> r.0 == 0 && r.1@.map_values(
            |b: &str| b@,
        ) == builtin_completions(line_prefix(line@, pos as int)),
{
    let prefix = prefix_of_line(line, pos);
    if contains_whitespace(prefix) {
        return (pos, Vec::new());
    }
    let names = builtins();
    let ghost pred = |b: Seq<char>| prefix@.is_prefix_of(b);
    let ghost views = names@.map_values(|b: &str| b@);
    let n = names.len();
    let mut matches: Vec<&'static str> = Vec::new();
    let mut i: usize = 0;
    assert(views.take(0) =~= Seq::<Seq<char>>::empty());
    assert(matches@.map_values(|b: &str| b@) =~= Seq::<Seq<char>>::empty());
    while i < n
        invariant
            n == names@.len(),
            views == names@.map_values(|b: &str| b@),
            pred == (|b: Seq<char>| prefix@.is_prefix_of(b)),
            i <= n,
            matches@.map_values(|b: &str| b@) == views.take(i as int).filter(pred),
        decreases n - i,
    {
        let ghost before = matches@;
        let b = names[i];
        proof {
            reveal_with_fuel(Seq::<_>::filter, 1);
            assert(views.take(i + 1).drop_last() =~= views.take(i as int));
            assert(views[i as int] == b@);
        }
        if has_prefix(b, prefix) {
            matches.push(b);
            assert(matches@.map_values(|b: &str| b@) =~= before.map_values(|b: &str| b@).push(b@));
        }
        i = i + 1;
    }
    assert(views.take(n as int) =~= views);
    (0, matches)
}

/// The names among `names` that begin with `word`, in their order.
pub fn matching_names(names: Vec<String>, word: &str) -> (r: Vec<String>)
    ensures
        r.deep_view() == names.deep_view().filter(|n: Seq<char>| word@.is_prefix_of(n)),
{
    let ghost pred = |n: Seq<char>| word@.is_prefix_of(n);
    let ghost views = names.deep_view();
    let n = names.len();
    let mut out: Vec<String> = Vec::new();
    let mut i: usize = 0;
    assert(views.take(0) =~= Seq::<Seq<char>>::empty());
    assert(out.deep_view() =~= Seq::<Seq<char>>::empty());
    while i < n
        invariant
            n == names@.len(),
            views == names.deep_view(),
            pred == (|n: Seq<char>| word@.is_prefix_of(n)),
            i <= n,
            out.deep_view() == views.take(i as int).filter(pred),
        decreases n - i,
    {
        let ghost before = out.deep_view();
        proof {
            reveal_with_fuel(Seq::<_>::filter, 1);
            assert(views.take(i + 1).drop_last() =~= views.take(i as int));
            assert(views[i as int] == names@[i as int]@);
        }
        if has_prefix(names[i].as_str(), word) {
            out.push(names[i].clone());
            assert(out.deep_view() =~= before.push(views[i as int]));
        }
        i = i + 1;
    }
    assert(views.take(n as int) =~= views);
    out
}

/// A completion offered to the line editor: what is shown, and what
/// replaces the word.
pub struct Candidate {
    pub display: String,
    pub replacement: String,
}

/// The completions for a list of names: each name is shown as it is and
/// inserted with a space after it; the builtins come first, then the other
/// names, each list in its order.
pub fn candidates(builtin: &Vec<&str>, others: &Vec<String>) -> (r: Vec<Candidate>)
    ensures
        r@.len() == builtin@.len() + others@.len(),
        forall|k: int|
            0 <= k < builtin@.len() ==> (#[trigger] r@[k]).display@ == builtin@[k]@
                && r@[k].replacement@ == builtin@[k]@.push(' '),
        forall|k: int|
            0 <= k < others@.len() ==> (#[trigger] r@[builtin@.len() + k]).display@
                == others@[k]@ && r@[builtin@.len() + k].replacement@ == others@[k]@.push(' '),
{
    let mut r: Vec<Candidate> = Vec::new();
    let nb = builtin.len();
    let mut i: usize = 0;
    while i < nb
        invariant
            nb == builtin@.len(),
            i <= nb,
            r@.len() == i,
            forall|k: int|
                0 <= k < i ==> (#[trigger] r@[k]).display@ == builtin@[k]@
                    && r@[k].replacement@ == builtin@[k]@.push(' '),
        decreases nb - i,
    {
        let name = builtin[i];
        let mut replacement = String::from_str(name);
        replacement.push(' ');
        r.push(Candidate { display: String::from_str(name), replacement });
        i = i + 1;
    }
    let no = others.len();
    let mut j: usize = 0;
    while j < no
        invariant
            nb == builtin@.len(),
            no == others@.len(),
            j <= no,
            r@.len() == nb + j,
            forall|k: int|
                0 <= k < nb ==> (#[trigger] r@[k]).display@ == builtin@[k]@
                    && r@[k].replacement@ == builtin@[k]@.push(' '),
            forall|k: int|
                0 <= k < j ==> (#[trigger] r@[nb + k]).display@ == others@[k]@
                    && r@[nb + k].replacement@ == others@[k]@.push(' '),
        decreases no - j,
    {
        let name = others[j].as_str();
        let mut replacement = String::from_str(name);
        replacement.push(' ');
        r.push(Candidate { display: String::from_str(name), replacement });
        assert(r@[nb + j].display@ == others@[j as int]@);
        j = j + 1;
    }
    r
}

} // verus!
