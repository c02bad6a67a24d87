//! Output redirections (`>`, `>>`, `1>`, `1>>`, `2>`, `2>>`) and where each
//! output stream goes.

use vstd::prelude::*;
use vstd::string::*;
use crate::text::same_text;

verus! {

/// Which output stream a redirection applies to.
#[derive(Debug, PartialEq, Eq, Structural, Clone, Copy)]
pub enum RedirectKind {
    Stdout,
    Stderr,
}

/// A redirection of one output stream to a file.
#[derive(Debug, PartialEq)]
pub struct Redirect {
    pub kind: RedirectKind,
    pub path: String,
    /// Append to the file rather than replace it.
    pub append: bool,
}

/// What a redirection says, as plain values.
pub struct RedirectView {
    pub kind: RedirectKind,
    pub path: Seq<char>,
    pub append: bool,
}

impl View for Redirect {
    type V = RedirectView;

    open spec fn view(&self) -> RedirectView {
        RedirectView { kind: self.kind, path: self.path@, append: self.append }
    }
}

/// The view of an optional redirection.
pub open spec fn redirect_view(r: Option<Redirect>) -> Option<RedirectView> {
    match r {
        Some(r) => Some(r@),
        None => None,
    }
}

/// The stream and mode that a word names when it is a redirection operator.
pub open spec fn redirect_op(tok: Seq<char>) -> Option<(RedirectKind, bool)> {
    if tok == ">"@ || tok == "1>"@ {
        Some((RedirectKind::Stdout, false))
    } else if tok == "2>"@ {
        Some((RedirectKind::Stderr, false))
    } else if tok == ">>"@ || tok == "1>>"@ {
        Some((RedirectKind::Stdout, true))
    } else if tok == "2>>"@ {
        Some((RedirectKind::Stderr, true))
    } else {
        None
    }
}

/// `toks[i]` is the first redirection operator among `toks`.
pub open spec fn is_first_op(toks: Seq<Seq<char>>, i: int) -> bool {
    &&& 0 <= i < toks.len()
    &&& redirect_op(toks[i]) is Some
    &&& forall|j: int| 0 <= j < i ==> redirect_op(#[trigger] toks[j]) is None
}

/// The message for an operator with no file after it.
pub open spec fn syntax_error_message(tok: Seq<char>) -> Seq<char> {
    "syntax error near unexpected token `"@ + tok + "`\n"@
}

/// The command words and the redirection of a word list: the first operator
/// and the word after it are the redirection, and the words before the
/// operator are the command; what follows the file is dropped. An operator in
/// the last place is an error.
pub open spec fn split_redirect_spec(toks: Seq<Seq<char>>) -> Result<
    (Seq<Seq<char>>, Option<RedirectView>),
    Seq<char>,
> {
    if exists|i: int| is_first_op(toks, i) {
        let i = choose|i: int| is_first_op(toks, i);
        let (kind, append) = redirect_op(toks[i]).unwrap();
        if i + 1 < toks.len() {
            Ok((toks.take(i), Some(RedirectView { kind, path: toks[i + 1], append })))
        } else {
            Err(syntax_error_message(toks[i]))
        }
    } else {
        Ok((toks, None))
    }
}

/// The stream and mode of a redirection operator, if `tok` is one.
pub fn redirect_op_of(tok: &str) -> (r: Option<(RedirectKind, bool)>)
    ensures
        r == redirect_op(tok@),
{
    if same_text(tok, ">") || same_text(tok, "1>") {
        Some((RedirectKind::Stdout, false))
    } else if same_text(tok, "2>") {
        Some((RedirectKind::Stderr, false))
    } else if same_text(tok, ">>") || same_text(tok, "1>>") {
        Some((RedirectKind::Stdout, true))
    } else if same_text(tok, "2>>") {
        Some((RedirectKind::Stderr, true))
    } else {
        None
    }
}

/// Separates the redirection from the command words.
pub fn split_redirect(tokens: Vec<String>) -> (r: Result<(Vec<String>, Option<Redirect>), String>)
    ensures
        match r {
            Ok((cmd, redirect)) => split_redirect_spec(tokens.deep_view()) == Ok::<
                (Seq<Seq<char>>, Option<RedirectView>),
                Seq<char>,
            >((cmd.deep_view(), redirect_view(redirect))),
            Err(msg) => split_redirect_spec(tokens.deep_view()) == Err::<
                (Seq<Seq<char>>, Option<RedirectView>),
                Seq<char>,
            >(msg@),
        },
{
    let ghost toks = tokens.deep_view();
    let n = tokens.len();
    let mut i: usize = 0;
    while i < n
        invariant
            n == tokens@.len(),
            toks == tokens.deep_view(),
            i <= n,
            forall|j: int| 0 <= j < i ==> redirect_op(#[trigger] toks[j]) is None,
        decreases n - i,
    {
        let op = redirect_op_of(tokens[i].as_str());
        assert(toks[i as int] == tokens@[i as int]@);
        if let Some((kind, append)) = op {
            proof {
                assert(is_first_op(toks, i as int));
                let k = choose|k: int| is_first_op(toks, k);
                if k < i {
                    assert(redirect_op(toks[k]) is None);
                } else if k > i {
                    assert(redirect_op(toks[i as int]) is None);
                }
                assert(k == i);
            }
            if i + 1 < n {
                let path = tokens[i + 1].clone();
                assert(path@ == toks[i + 1]);
                let mut cmd = tokens;
                cmd.truncate(i);
                assert(cmd.deep_view() =~= toks.take(i as int));
                return Ok((cmd, Some(Redirect { kind, path, append })));
            } else {
                let mut msg = String::from_str("syntax error near unexpected token `");
                msg.append(tokens[i].as_str());
                msg.append("`\n");
                return Err(msg);
            }
        }
        i = i + 1;
    }
    Ok((tokens, None))
}

/// Where one output stream goes: to the file of the redirection when the
/// redirection names this stream (with its append flag), else to the console.
pub fn route_stream(redirect: Option<&Redirect>, stream: RedirectKind) -> (r: Option<(String, bool)>)
    ensures
        match redirect {
            Some(red) if red.kind == stream => r matches Some((path, append)) && path@ == red.path@
                && append == red.append,
            _ => r is None,
        },
{
    match redirect {
        Some(red) => {
            if red.kind == stream {
                Some((red.path.clone(), red.append))
            } else {
                None
            }
        },
        None => None,
    }
}

} // verus!
