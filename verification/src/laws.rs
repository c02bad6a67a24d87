//! Properties of the shell as a whole.

use vstd::prelude::*;
use crate::text::{trim, trim_start, trim_end, unicode_white_space};
use crate::text::join_with;
use crate::command::{command_step, cd_target_spec, Action, StepView, builtin_names};
use crate::redirect::RedirectView;
use crate::redirect::{split_redirect_spec, redirect_op, is_first_op, syntax_error_message};
use crate::completion::builtin_completions;
use crate::lexer::{LexState, lex, lex_run, lex_step, lex_init};

verus! {

/// Every character of `s` is whitespace.
pub open spec fn all_whitespace(s: Seq<char>) -> bool {
    forall|i: int| 0 <= i < s.len() ==> unicode_white_space(#[trigger] s[i])
}

proof fn lemma_trim_start_skips(a: Seq<char>, c: Seq<char>)
    requires
        all_whitespace(a),
    ensures
        trim_start(a + c) == trim_start(c),
    decreases a.len(),
{
    if a.len() == 0 {
        assert(a + c =~= c);
    } else {
        assert((a + c)[0] == a[0]);
        assert((a + c).drop_first() =~= a.drop_first() + c);
        lemma_trim_start_skips(a.drop_first(), c);
    }
}

proof fn lemma_trim_end_skips(c: Seq<char>, b: Seq<char>)
    requires
        all_whitespace(b),
    ensures
        trim_end(c + b) == trim_end(c),
    decreases b.len(),
{
    if b.len() == 0 {
        assert(c + b =~= c);
    } else {
        assert((c + b).last() == b.last());
        assert((c + b).drop_last() =~= c + b.drop_last());
        lemma_trim_end_skips(c, b.drop_last());
    }
}

proof fn lemma_trim_start_append(c: Seq<char>, b: Seq<char>)
    ensures
        trim_start(c).len() > 0 ==> trim_start(c + b) == trim_start(c) + b,
        trim_start(c).len() == 0 ==> trim_start(c + b) == trim_start(b),
    decreases c.len(),
{
    if c.len() == 0 {
        assert(c + b =~= b);
    } else {
        assert((c + b)[0] == c[0]);
        if unicode_white_space(c[0]) {
            assert((c + b).drop_first() =~= c.drop_first() + b);
            lemma_trim_start_append(c.drop_first(), b);
        }
    }
}

proof fn lemma_trim_start_whitespace(b: Seq<char>)
    requires
        all_whitespace(b),
    ensures
        trim_start(b).len() == 0,
    decreases b.len(),
{
    if b.len() > 0 {
        lemma_trim_start_whitespace(b.drop_first());
    }
}

/// Whitespace around a text does not change what trimming leaves.
pub proof fn lemma_trim_surrounded(a: Seq<char>, c: Seq<char>, b: Seq<char>)
    requires
        all_whitespace(a),
        all_whitespace(b),
    ensures
        trim(a + c + b) == trim(c),
{
    assert(a + c + b =~= a + (c + b));
    lemma_trim_start_skips(a, c + b);
    lemma_trim_start_append(c, b);
    if trim_start(c).len() > 0 {
        lemma_trim_end_skips(trim_start(c), b);
    } else {
        lemma_trim_start_whitespace(b);
        assert(trim_start(c + b) =~= trim_start(c));
    }
}

proof fn lemma_trim_start_shape(s: Seq<char>) -> (k: int)
    ensures
        0 <= k <= s.len(),
        trim_start(s) == s.skip(k),
        all_whitespace(s.take(k)),
        k < s.len() ==> !unicode_white_space(s[k]),
    decreases s.len(),
{
    if s.len() > 0 && unicode_white_space(s[0]) {
        let k = lemma_trim_start_shape(s.drop_first());
        assert(s.drop_first().skip(k) =~= s.skip(k + 1));
        assert forall|i: int| 0 <= i < k + 1 implies unicode_white_space(#[trigger] s.take(k + 1)[i]) by {
            if i > 0 {
                assert(s.take(k + 1)[i] == s.drop_first().take(k)[i - 1]);
            }
        }
        assert(k + 1 < s.len() ==> s[k + 1] == s.drop_first()[k]);
        k + 1
    } else {
        assert(s.skip(0) =~= s);
        0
    }
}

proof fn lemma_trim_end_shape(s: Seq<char>) -> (m: int)
    ensures
        0 <= m <= s.len(),
        trim_end(s) == s.take(m),
        all_whitespace(s.skip(m)),
        m > 0 ==> !unicode_white_space(s[m - 1]),
    decreases s.len(),
{
    if s.len() > 0 && unicode_white_space(s.last()) {
        let m = lemma_trim_end_shape(s.drop_last());
        assert(s.drop_last().take(m) =~= s.take(m));
        assert forall|i: int| 0 <= i < s.len() - m implies unicode_white_space(#[trigger] s.skip(m)[i]) by {
            if i < s.len() - 1 - m {
                assert(s.skip(m)[i] == s.drop_last().skip(m)[i]);
            }
        }
        m
    } else {
        assert(s.take(s.len() as int) =~= s);
        s.len() as int
    }
}

/// Trimming removes whitespace at both ends and nothing else: the result is
/// the part of `s` between `r.0` and `r.1`, everything outside it is
/// whitespace, and when it is not empty it neither begins nor ends with
/// whitespace.
pub proof fn law_trim_removes_edge_whitespace(s: Seq<char>) -> (r: (int, int))
    ensures
        0 <= r.0 <= r.1 <= s.len(),
        trim(s) == s.subrange(r.0, r.1),
        all_whitespace(s.take(r.0)),
        all_whitespace(s.skip(r.1)),
        r.0 < r.1 ==> !unicode_white_space(s[r.0]) && !unicode_white_space(s[r.1 - 1]),
{
    let k = lemma_trim_start_shape(s);
    let t = s.skip(k);
    let m = lemma_trim_end_shape(t);
    assert(t.take(m) =~= s.subrange(k, k + m));
    assert(t.skip(m) =~= s.skip(k + m));
    if m > 0 {
        assert(t[0] == s[k]);
        assert(t[m - 1] == s[k + m - 1]);
    }
    (k, k + m)
}

/// A command line means the same with whitespace before and after it (the
/// line editor's trailing newline among it).
pub proof fn law_surrounding_whitespace_ignored(
    before: Seq<char>,
    command: Seq<char>,
    after: Seq<char>,
    home: Seq<char>,
)
    requires
        all_whitespace(before),
        all_whitespace(after),
    ensures
        command_step(before + command + after, home) == command_step(command, home),
{
    lemma_trim_surrounded(before, command, after);
}

/// The lexer's state after `b`, starting from `st`.
pub open spec fn lex_from(st: LexState, b: Seq<char>) -> LexState
    decreases b.len(),
{
    if b.len() == 0 {
        st
    } else {
        lex_step(lex_from(st, b.drop_last()), b.last())
    }
}

/// Lexing `a + b` is lexing `b` from where `a` left off.
pub proof fn lemma_lex_concat(a: Seq<char>, b: Seq<char>)
    ensures
        lex_run(a + b) == lex_from(lex_run(a), b),
    decreases b.len(),
{
    if b.len() == 0 {
        assert(a + b =~= a);
    } else {
        assert((a + b).drop_last() =~= a + b.drop_last());
        assert((a + b).last() == b.last());
        lemma_lex_concat(a, b.drop_last());
    }
}

/// A character with no meaning to the lexer: not a quote, not a backslash,
/// not whitespace.
pub open spec fn is_plain(c: char) -> bool {
    c != '\'' && c != '"' && c != '\\' && !unicode_white_space(c)
}

/// Every character of `w` is plain.
pub open spec fn plain_word(w: Seq<char>) -> bool {
    forall|i: int| 0 <= i < w.len() ==> is_plain(#[trigger] w[i])
}

/// Outside quotes and escapes, plain characters extend the current word.
proof fn lemma_lex_plain(st: LexState, w: Seq<char>)
    requires
        !st.single,
        !st.double,
        !st.escape,
        plain_word(w),
    ensures
        lex_from(st, w) == (LexState { cur: st.cur + w, active: st.active || w.len() > 0, ..st }),
    decreases w.len(),
{
    if w.len() == 0 {
        assert(st.cur + w =~= st.cur);
    } else {
        let p = w.drop_last();
        assert(plain_word(p)) by {
            assert forall|i: int| 0 <= i < p.len() implies is_plain(#[trigger] p[i]) by {
                assert(p[i] == w[i]);
            }
        }
        assert(is_plain(w[w.len() - 1]));
        lemma_lex_plain(st, p);
        assert(st.cur + p.push(w.last()) =~= st.cur + w);
    }
}

/// Inside single quotes, everything up to the next single quote is taken
/// as it is.
proof fn lemma_lex_in_single(st: LexState, x: Seq<char>)
    requires
        st.single,
        !st.double,
        !st.escape,
        st.active,
        !x.contains('\''),
    ensures
        lex_from(st, x) == (LexState { cur: st.cur + x, ..st }),
    decreases x.len(),
{
    if x.len() == 0 {
        assert(st.cur + x =~= st.cur);
    } else {
        let p = x.drop_last();
        assert(!p.contains('\'')) by {
            if p.contains('\'') {
                let k = choose|k: int| 0 <= k < p.len() && p[k] == '\'';
                assert(x[k] == '\'');
            }
        }
        assert(x[x.len() - 1] != '\'');
        lemma_lex_in_single(st, p);
        assert(st.cur + p.push(x.last()) =~= st.cur + x);
    }
}

/// Inside double quotes, text with no double quote and no backslash is taken
/// as it is.
proof fn lemma_lex_in_double(st: LexState, x: Seq<char>)
    requires
        !st.single,
        st.double,
        !st.escape,
        st.active,
        !x.contains('"'),
        !x.contains('\\'),
    ensures
        lex_from(st, x) == (LexState { cur: st.cur + x, ..st }),
    decreases x.len(),
{
    if x.len() == 0 {
        assert(st.cur + x =~= st.cur);
    } else {
        let p = x.drop_last();
        assert(!p.contains('"') && !p.contains('\\')) by {
            if p.contains('"') {
                let k = choose|k: int| 0 <= k < p.len() && p[k] == '"';
                assert(x[k] == '"');
            }
            if p.contains('\\') {
                let k = choose|k: int| 0 <= k < p.len() && p[k] == '\\';
                assert(x[k] == '\\');
            }
        }
        assert(x[x.len() - 1] != '"' && x[x.len() - 1] != '\\');
        lemma_lex_in_double(st, p);
        assert(st.cur + p.push(x.last()) =~= st.cur + x);
    }
}

/// Text in single quotes is one word, exactly as written, whatever it holds
/// (spaces, double quotes, backslashes, redirection operators) but a single
/// quote.
pub proof fn law_single_quotes_literal(x: Seq<char>)
    requires
        !x.contains('\''),
    ensures
        lex(seq!['\''] + x + seq!['\'']) == seq![x],
{
    let q: Seq<char> = seq!['\''];
    assert(q.drop_last() =~= Seq::<char>::empty());
    assert(lex_run(Seq::<char>::empty()) == lex_init());
    let st = lex_run(q);
    lemma_lex_concat(q, x);
    lemma_lex_in_single(st, x);
    let s = q + x + q;
    assert(s.drop_last() =~= q + x);
    assert(s.last() == '\'');
    assert(lex_run(q + x).cur =~= x);
}

/// Text in double quotes with no double quote or backslash in it is one
/// word, exactly as written.
pub proof fn law_double_quotes_literal(x: Seq<char>)
    requires
        !x.contains('"'),
        !x.contains('\\'),
    ensures
        lex(seq!['"'] + x + seq!['"']) == seq![x],
{
    let q: Seq<char> = seq!['"'];
    assert(q.drop_last() =~= Seq::<char>::empty());
    assert(lex_run(Seq::<char>::empty()) == lex_init());
    let st = lex_run(q);
    lemma_lex_concat(q, x);
    lemma_lex_in_double(st, x);
    let s = q + x + q;
    assert(s.drop_last() =~= q + x);
    assert(s.last() == '"');
    assert(lex_run(q + x).cur =~= x);
}

proof fn lemma_lex_joined(ws: Seq<Seq<char>>, sep: char)
    requires
        ws.len() > 0,
        unicode_white_space(sep),
        forall|k: int| 0 <= k < ws.len() ==> (#[trigger] ws[k]).len() > 0 && plain_word(ws[k]),
    ensures
        lex_run(join_with(ws, sep)) == (LexState {
            words: ws.drop_last(),
            cur: ws.last(),
            single: false,
            double: false,
            active: true,
            escape: false,
        }),
    decreases ws.len(),
{
    assert(lex_run(Seq::<char>::empty()) == lex_init());
    if ws.len() == 1 {
        let w = ws[0];
        assert(Seq::<char>::empty() + w =~= w);
        lemma_lex_concat(Seq::<char>::empty(), w);
        lemma_lex_plain(lex_init(), w);
        assert(Seq::<char>::empty() + w =~= w);
        assert(ws.drop_last() =~= Seq::<Seq<char>>::empty());
    } else {
        let prev = ws.drop_last();
        assert forall|k: int| 0 <= k < prev.len() implies (#[trigger] prev[k]).len() > 0 && plain_word(prev[k]) by {
            assert(prev[k] == ws[k]);
        }
        lemma_lex_joined(prev, sep);
        let j = join_with(prev, sep).push(sep);
        assert(j.drop_last() =~= join_with(prev, sep));
        assert(j.last() == sep);
        assert(lex_run(j) == lex_step(lex_run(join_with(prev, sep)), sep));
        let st = lex_run(j);
        assert(st.words =~= prev.drop_last().push(prev.last()));
        assert(prev.drop_last().push(prev.last()) =~= prev);
        lemma_lex_concat(j, ws.last());
        assert(ws.last() == ws[ws.len() - 1]);
        lemma_lex_plain(st, ws.last());
        assert(st.cur + ws.last() =~= ws.last());
    }
}

/// Words with no quote, backslash or whitespace in them, joined by a
/// whitespace character, lex back to the same words: the lexer undoes what
/// `echo` does to such words.
pub proof fn law_lex_inverts_join(ws: Seq<Seq<char>>, sep: char)
    requires
        unicode_white_space(sep),
        forall|k: int| 0 <= k < ws.len() ==> (#[trigger] ws[k]).len() > 0 && plain_word(ws[k]),
    ensures
        lex(join_with(ws, sep)) == ws,
{
    if ws.len() == 0 {
        assert(lex_run(Seq::<char>::empty()) == lex_init());
    } else {
        lemma_lex_joined(ws, sep);
        assert(ws.drop_last().push(ws.last()) =~= ws);
    }
}

/// The shell stops only on `exit`: a command line ends the shell exactly
/// when it is well formed and its first word (the redirection taken out) is
/// `exit`.
pub proof fn law_exit_only_by_exit(command: Seq<char>, home: Seq<char>)
    ensures
        (command_step(command, home) matches StepView::Done(r) && r.action == Action::Exit) <==> (
        split_redirect_spec(lex(trim(command))) matches Ok((args, _)) && args.len() > 0 && args[0]
            == "exit"@),
{
}

/// How a word list is split: with no operator the words stay as they are;
/// otherwise the command is the words before the first operator (none of
/// which is an operator), the file is the word after it, and an operator
/// in the last place is refused with a message that names it.
pub proof fn law_redirect_split(toks: Seq<Seq<char>>)
    ensures
        match split_redirect_spec(toks) {
            Ok((cmd, None)) => cmd == toks && forall|i: int|
                0 <= i < toks.len() ==> redirect_op(#[trigger] toks[i]) is None,
            Ok((cmd, Some(r))) => {
                &&& cmd.len() + 1 < toks.len()
                &&& cmd == toks.take(cmd.len() as int)
                &&& forall|i: int| 0 <= i < cmd.len() ==> redirect_op(#[trigger] cmd[i]) is None
                &&& redirect_op(toks[cmd.len() as int]) == Some((r.kind, r.append))
                &&& r.path == toks[cmd.len() as int + 1]
            },
            Err(msg) => {
                &&& toks.len() > 0
                &&& redirect_op(toks.last()) is Some
                &&& forall|i: int| 0 <= i < toks.len() - 1 ==> redirect_op(#[trigger] toks[i]) is None
                &&& msg == syntax_error_message(toks.last())
            },
        },
{
    if exists|i: int| is_first_op(toks, i) {
        let i = choose|i: int| is_first_op(toks, i);
        if i + 1 < toks.len() {
            let cmd = toks.take(i);
            assert forall|j: int| 0 <= j < cmd.len() implies redirect_op(#[trigger] cmd[j]) is None by {
                assert(cmd[j] == toks[j]);
            }
        } else {
            assert(toks.last() == toks[i]);
        }
    } else {
        assert forall|i: int| 0 <= i < toks.len() implies redirect_op(#[trigger] toks[i]) is None by {
            if redirect_op(toks[i]) is Some {
                lemma_first_op_exists(toks, i);
            }
        }
    }
}

/// Where some word is an operator, there is a first one.
proof fn lemma_first_op_exists(toks: Seq<Seq<char>>, i: int)
    requires
        0 <= i < toks.len(),
        redirect_op(toks[i]) is Some,
    ensures
        exists|k: int| is_first_op(toks, k),
    decreases i,
{
    if forall|j: int| 0 <= j < i ==> redirect_op(#[trigger] toks[j]) is None {
        assert(is_first_op(toks, i));
    } else {
        let j = choose|j: int| 0 <= j < i && redirect_op(#[trigger] toks[j]) is Some;
        lemma_first_op_exists(toks, j);
    }
}

/// Completion offers exactly the builtins that begin with the typed text.
pub proof fn law_builtin_completions(prefix: Seq<char>, name: Seq<char>)
    ensures
        builtin_completions(prefix).contains(name) <==> (builtin_names().contains(name)
            && prefix.is_prefix_of(name)),
{
    let pred = |b: Seq<char>| prefix.is_prefix_of(b);
    let names = builtin_names();
    broadcast use vstd::seq_lib::group_filter_ensures;

    if builtin_completions(prefix).contains(name) {
        names.lemma_filter_contains_rev(pred, name);
        let k = choose|k: int| 0 <= k < names.filter(pred).len() && names.filter(pred)[k] == name;
        assert(pred(names.filter(pred)[k]));
    }
    if names.contains(name) && prefix.is_prefix_of(name) {
        let k = choose|k: int| 0 <= k < names.len() && names[k] == name;
        assert(pred(names[k]));
    }
}

/// The maximal runs of non-whitespace characters of `s`, in order (what
/// `str::split_whitespace` yields).
pub open spec fn fields(s: Seq<char>) -> Seq<Seq<char>>
    decreases s.len(),
{
    if s.len() == 0 {
        seq![]
    } else {
        let p = s.drop_last();
        let c = s.last();
        if unicode_white_space(c) {
            fields(p)
        } else if p.len() > 0 && !unicode_white_space(p.last()) {
            let f = fields(p);
            f.update(f.len() - 1, f.last().push(c))
        } else {
            fields(p).push(seq![c])
        }
    }
}

/// `s` holds no quote and no backslash.
pub open spec fn quote_free(s: Seq<char>) -> bool {
    !s.contains('\'') && !s.contains('"') && !s.contains('\\')
}

/// The lexer's state on quote-free text: no quote or escape is open; a word
/// is being built exactly when the text ends in a non-whitespace character,
/// and the words so far are the text's fields.
proof fn lemma_lex_quote_free(s: Seq<char>)
    requires
        quote_free(s),
    ensures
        !lex_run(s).single && !lex_run(s).double && !lex_run(s).escape,
        s.len() > 0 && !unicode_white_space(s.last()) ==> {
            &&& lex_run(s).active
            &&& fields(s).len() > 0
            &&& lex_run(s).words == fields(s).drop_last()
            &&& lex_run(s).cur == fields(s).last()
        },
        !(s.len() > 0 && !unicode_white_space(s.last())) ==> {
            &&& !lex_run(s).active
            &&& lex_run(s).cur == Seq::<char>::empty()
            &&& lex_run(s).words == fields(s)
        },
    decreases s.len(),
{
    if s.len() > 0 {
        let p = s.drop_last();
        let c = s.last();
        assert(quote_free(p)) by {
            if p.contains('\'') {
                let k = choose|k: int| 0 <= k < p.len() && p[k] == '\'';
                assert(s[k] == '\'');
            }
            if p.contains('"') {
                let k = choose|k: int| 0 <= k < p.len() && p[k] == '"';
                assert(s[k] == '"');
            }
            if p.contains('\\') {
                let k = choose|k: int| 0 <= k < p.len() && p[k] == '\\';
                assert(s[k] == '\\');
            }
        }
        assert(c == s[s.len() - 1]);
        assert(c != '\'' && c != '"' && c != '\\');
        lemma_lex_quote_free(p);
        let f = fields(p);
        if unicode_white_space(c) {
            if p.len() > 0 && !unicode_white_space(p.last()) {
                assert(f.drop_last().push(f.last()) =~= f);
            }
        } else if p.len() > 0 && !unicode_white_space(p.last()) {
            assert(fields(s).drop_last() =~= f.drop_last());
        } else {
            assert(Seq::<char>::empty().push(c) =~= seq![c]);
            assert(fields(s).drop_last() =~= f);
        }
    } else {
        assert(lex_run(s) == lex_init());
    }
}

/// Text with no quotes or backslashes lexes to its whitespace-separated
/// pieces.
pub proof fn law_quote_free_lexes_to_fields(s: Seq<char>)
    requires
        quote_free(s),
    ensures
        lex(s) == fields(s),
{
    lemma_lex_quote_free(s);
    if s.len() > 0 && !unicode_white_space(s.last()) {
        assert(fields(s).drop_last().push(fields(s).last()) =~= fields(s));
    }
}

/// Lexing from a clean state that already holds the words `w` gives `w`
/// followed by what lexing from the start gives.
proof fn lemma_lex_after_words(w: Seq<Seq<char>>, b: Seq<char>)
    ensures
        lex_from(LexState { words: w, ..lex_init() }, b) == (LexState {
            words: w + lex_run(b).words,
            ..lex_run(b)
        }),
    decreases b.len(),
{
    if b.len() == 0 {
        assert(lex_run(b) == lex_init());
        assert(w + Seq::<Seq<char>>::empty() =~= w);
    } else {
        let p = b.drop_last();
        lemma_lex_after_words(w, p);
        let t = lex_run(p);
        assert((w + t.words).push(t.cur) =~= w + t.words.push(t.cur));
    }
}

/// The words of a quote-free text, a space and any text are the words of
/// the first followed by the words of the second.
pub proof fn law_lex_after_quote_free_prefix(s1: Seq<char>, s2: Seq<char>)
    requires
        quote_free(s1),
    ensures
        lex(s1 + seq![' '] + s2) == lex(s1) + lex(s2),
{
    let a = s1 + seq![' '];
    lemma_lex_quote_free(s1);
    law_quote_free_lexes_to_fields(s1);
    assert(a.drop_last() =~= s1);
    assert(a.last() == ' ');
    let st = lex_run(s1);
    if st.active {
        assert(st.words.push(st.cur) =~= fields(s1));
    }
    assert(lex_run(a) == (LexState { words: lex(s1), ..lex_init() }));
    lemma_lex_concat(a, s2);
    lemma_lex_after_words(lex(s1), s2);
    let t = lex_run(s2);
    assert((lex(s1) + t.words).push(t.cur) =~= lex(s1) + t.words.push(t.cur));
}

/// Outside quotes a backslash makes the next character stand for itself,
/// whatever it is (a quote, a backslash, whitespace), and is itself dropped.
pub proof fn law_backslash_escapes(c: char)
    ensures
        lex(seq!['\\', c]) == seq![seq![c]],
{
    let s = seq!['\\', c];
    let one = seq!['\\'];
    assert(one.drop_last() =~= Seq::<char>::empty());
    assert(lex_run(Seq::<char>::empty()) == lex_init());
    assert(s.drop_last() =~= one);
    assert(lex_run(one).escape && !lex_run(one).double);
    assert(lex_run(s).cur =~= seq![c]);
    assert(lex_run(s).words =~= Seq::<Seq<char>>::empty());
}

/// An escaped character after a quote-free text and a space is a word of
/// its own: `text \c` lexes to the words of `text` followed by `c`.
pub proof fn law_escaped_word_after_prefix(s1: Seq<char>, c: char)
    requires
        quote_free(s1),
    ensures
        lex(s1 + seq![' '] + seq!['\\', c]) == lex(s1).push(seq![c]),
{
    law_lex_after_quote_free_prefix(s1, seq!['\\', c]);
    law_backslash_escapes(c);
    assert(lex(s1) + seq![seq![c]] =~= lex(s1).push(seq![c]));
}

/// `cd` goes to its argument as written unless the argument is `~` or
/// begins with `~/`: a relative path stays relative to the working
/// directory, an absolute one stays as it is.
pub proof fn law_cd_target_unchanged(arg: Seq<char>, home: Seq<char>)
    requires
        arg != seq!['~'],
        !(arg.len() >= 2 && arg[0] == '~' && arg[1] == '/'),
    ensures
        cd_target_spec(arg, home) == arg,
{
}

/// `cd ~` goes to the home directory, whatever it is.
pub proof fn law_cd_tilde_is_home(home: Seq<char>)
    ensures
        cd_target_spec(seq!['~'], home) == home,
{
}

/// The words of a command line that starts with `cd` and an argument that
/// is neither `~` nor begins with `~/` ask to change to that argument as
/// written, keeping the command's redirection.
pub proof fn law_cd_command_target(command: Seq<char>, home: Seq<char>)
    requires
        split_redirect_spec(lex(trim(command))) matches Ok((args, _)) && args.len() > 1 && args[0]
            == "cd"@ && args[1] != seq!['~'] && !(args[1].len() >= 2 && args[1][0] == '~'
            && args[1][1] == '/'),
    ensures
        split_redirect_spec(lex(trim(command))) matches Ok((args, red)) && command_step(command, home)
            == (StepView::Cd { arg: args[1], target: args[1], redirect: red }),
{
    reveal_strlit("cd");
    reveal_strlit("exit");
    reveal_strlit("echo");
    reveal_strlit("type");
    reveal_strlit("pwd");
    assert("cd"@.len() == 2 && "exit"@.len() == 4 && "echo"@.len() == 4 && "type"@.len() == 4
        && "pwd"@.len() == 3);
}

/// The redirection a step carries: its result's, or its request's.
pub open spec fn step_redirect(step: StepView) -> Option<RedirectView> {
    match step {
        StepView::Done(r) => r.redirect,
        StepView::Type { redirect, .. } => redirect,
        StepView::Pwd { redirect } => redirect,
        StepView::Cd { redirect, .. } => redirect,
        StepView::External { redirect, .. } => redirect,
    }
}

/// Every well-formed command line keeps the redirection split off its
/// words, stream, file and append flag alike, whatever command it names
/// (builtin or not, even an empty one); a misplaced operator leaves none.
pub proof fn law_command_keeps_redirection(command: Seq<char>, home: Seq<char>)
    ensures
        match split_redirect_spec(lex(trim(command))) {
            Ok((_, red)) => step_redirect(command_step(command, home)) == red,
            Err(_) => step_redirect(command_step(command, home)) is None,
        },
{
}

} // verus!
