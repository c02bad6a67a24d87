//! The command-line lexer: splits a line into words, honouring single
//! quotes, double quotes and backslash escapes.

use vstd::prelude::*;
use crate::text::{chars_of, is_whitespace, unicode_white_space};

verus! {

/// The lexer's state after some prefix of the line.
pub struct LexState {
    /// The words completed so far.
    pub words: Seq<Seq<char>>,
    /// The word being built.
    pub cur: Seq<char>,
    /// Inside single quotes.
    pub single: bool,
    /// Inside double quotes.
    pub double: bool,
    /// A word has been started (possibly empty, as with `''`).
    pub active: bool,
    /// The previous character was an escaping backslash.
    pub escape: bool,
}

/// The state before any character.
pub open spec fn lex_init() -> LexState {
    LexState { words: seq![], cur: seq![], single: false, double: false, active: false, escape: false }
}

/// Inside double quotes a backslash keeps its escaping meaning only before
/// these characters; before any other it stands for itself.
pub open spec fn escapable_in_double(c: char) -> bool {
    c == '\\' || c == '$' || c == '"' || c == '\n'
}

/// One character of input.
pub open spec fn lex_step(st: LexState, c: char) -> LexState {
    if st.escape {
        let cur = if st.double && !escapable_in_double(c) { st.cur.push('\\') } else { st.cur };
        LexState { cur: cur.push(c), active: true, escape: false, ..st }
    } else if c == '\\' && !st.single {
        LexState { escape: true, ..st }
    } else if c == '"' && !st.single {
        LexState { double: !st.double, active: true, ..st }
    } else if c == '\'' && !st.double {
        LexState { single: !st.single, active: true, ..st }
    } else if unicode_white_space(c) && !st.single && !st.double {
        if st.active {
            LexState { words: st.words.push(st.cur), cur: seq![], active: false, ..st }
        } else {
            st
        }
    } else {
        LexState { cur: st.cur.push(c), active: true, ..st }
    }
}

/// The state after the whole of `s`.
pub open spec fn lex_run(s: Seq<char>) -> LexState
    decreases s.len(),
{
    if s.len() == 0 {
        lex_init()
    } else {
        lex_step(lex_run(s.drop_last()), s.last())
    }
}

/// The words of a finished run: a started word at the end counts.
pub open spec fn lex_finish(st: LexState) -> Seq<Seq<char>> {
    if st.active {
        st.words.push(st.cur)
    } else {
        st.words
    }
}

/// The words of a command line.
pub open spec fn lex(s: Seq<char>) -> Seq<Seq<char>> {
    lex_finish(lex_run(s))
}

/// The words of `cs[start..end]`.
pub fn lex_range(cs: &Vec<char>, start: usize, end: usize) -> (args: Vec<String>)
    requires
        start <= end <= cs@.len(),
    ensures
        args.deep_view() == lex(cs@.subrange(start as int, end as int)),
{
    let mut args: Vec<String> = Vec::new();
    let mut cur = String::new();
    let mut single = false;
    let mut double = false;
    let mut active = false;
    let mut escape = false;
    let mut i = start;
    assert(cs@.subrange(start as int, start as int) =~= Seq::<char>::empty());
    assert(args.deep_view() =~= Seq::<Seq<char>>::empty());
    while i < end
        invariant
            start <= i <= end <= cs@.len(),
            lex_run(cs@.subrange(start as int, i as int)) == (LexState {
                words: args.deep_view(),
                cur: cur@,
                single,
                double,
                active,
                escape,
            }),
        decreases end - i,
    {
        let c = cs[i];
        proof {
            assert(cs@.subrange(start as int, i + 1).drop_last() =~= cs@.subrange(
                start as int,
                i as int,
            ));
        }
        let ghost before_words = args.deep_view();
        if escape {
            if double && !(c == '\\' || c == '$' || c == '"' || c == '\n') {
                cur.push('\\');
            }
            cur.push(c);
            active = true;
            escape = false;
        } else if c == '\\' && !single {
            escape = true;
        } else if c == '"' && !single {
            double = !double;
            active = true;
        } else if c == '\'' && !double {
            single = !single;
            active = true;
        } else if !single && !double && is_whitespace(c) {
            if active {
                args.push(cur);
                cur = String::new();
                active = false;
                assert(args.deep_view() =~= before_words.push(
                    lex_run(cs@.subrange(start as int, i as int)).cur,
                ));
            }
        } else {
            cur.push(c);
            active = true;
        }
        i = i + 1;
    }
    if active {
        let ghost before_words = args.deep_view();
        args.push(cur);
        assert(args.deep_view() =~= before_words.push(
            lex_run(cs@.subrange(start as int, end as int)).cur,
        ));
    }
    args
}

/// Splits a command line into words.
pub fn parse(input: &str) -> (args: Vec<String>)
    ensures
        args.deep_view() == lex(input@),
{
    let cs = chars_of(input);
    let n = cs.len();
    let args = lex_range(&cs, 0, n);
    assert(cs@.subrange(0, n as int) =~= input@);
    args
}

} // verus!
