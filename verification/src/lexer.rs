//! The markup tokenizer. It turns source text into a flat token stream:
//! opening tags with their attributes, self-closing tags, closing tags, and
//! raw text runs. Comments (`<!-- ... -->`) are consumed and produce no
//! token. Any text the grammar rejects (an unterminated tag, a missing `=`
//! or quote, an empty name) makes the whole tokenization fail, which the
//! loader reports as malformed markup.

use vstd::prelude::*;
use crate::markup::{attrs_view, Attr, AttrV};
use crate::text::{
    is_name_char_x, lemma_scan_text, lemma_skip_ws, scan_name, scan_name_x, scan_quote,
    scan_quote_x, scan_text, scan_text_x, skip_ws, skip_ws_x,
};

verus! {

/// One markup token.
pub enum Token {
    Open { tag: String, attrs: Vec<Attr> },
    SelfClose { tag: String, attrs: Vec<Attr> },
    Close { tag: String },
    Text { raw: String },
}

/// Mathematical image of a token.
pub enum TokenV {
    Open { tag: Seq<char>, attrs: Seq<AttrV> },
    SelfClose { tag: Seq<char>, attrs: Seq<AttrV> },
    Close { tag: Seq<char> },
    Text { raw: Seq<char> },
}

impl View for Token {
    type V = TokenV;

    open spec fn view(&self) -> TokenV {
        match self {
            Token::Open { tag, attrs } => TokenV::Open { tag: tag@, attrs: attrs_view(attrs@) },
            Token::SelfClose { tag, attrs } => TokenV::SelfClose {
                tag: tag@,
                attrs: attrs_view(attrs@),
            },
            Token::Close { tag } => TokenV::Close { tag: tag@ },
            Token::Text { raw } => TokenV::Text { raw: raw@ },
        }
    }
}

/// Image of a token sequence.
pub open spec fn tokens_view(ts: Seq<Token>) -> Seq<TokenV> {
    ts.map_values(|t: Token| t@)
}

/// The position after `i` that a scan ending at `j` hands the next step:
/// `j` itself when it advanced, else one past `i`. Every complete token or
/// comment occupies at least one character, so for positions produced by the
/// grammar this is always `j`; the clamp only keeps the recursion measures
/// of the specification functions decreasing on arbitrary arguments.
pub open spec fn clamp_after(i: int, j: int) -> int {
    if j > i {
        j
    } else {
        i + 1
    }
}

/// First position at or after `i` where a comment terminator `-->` starts,
/// or the end of the text if there is none.
pub open spec fn scan_comment(s: Seq<char>, i: int) -> int
    decreases s.len() - i,
{
    if i < 0 {
        0
    } else if i + 3 > s.len() {
        s.len() as int
    } else if s[i] == '-' && s[i + 1] == '-' && s[i + 2] == '>' {
        i
    } else {
        scan_comment(s, i + 1)
    }
}

pub proof fn lemma_scan_comment(s: Seq<char>, i: int)
    requires
        0 <= i <= s.len(),
    ensures
        i <= scan_comment(s, i) <= s.len(),
        scan_comment(s, i) + 3 <= s.len() ==> {
            &&& s[scan_comment(s, i)] == '-'
            &&& s[scan_comment(s, i) + 1] == '-'
            &&& s[scan_comment(s, i) + 2] == '>'
        },
    decreases s.len() - i,
{
    if i + 3 <= s.len() && !(s[i] == '-' && s[i + 1] == '-' && s[i + 2] == '>') {
        lemma_scan_comment(s, i + 1);
    }
}

/// Executable mirror of `scan_comment`.
pub fn scan_comment_x(s: &str, n: usize, i: usize) -> (r: usize)
    requires
        n == s@.len(),
        i <= n,
    ensures
        r == scan_comment(s@, i as int),
        i <= r <= n,
    decreases n - i,
{
    if n - i < 3 {
        n
    } else if s.get_char(i) == '-' && s.get_char(i + 1) == '-' && s.get_char(i + 2) == '>' {
        i
    } else {
        scan_comment_x(s, n, i + 1)
    }
}

/// Result of reading an attribute list: the attributes, the position just
/// past the closing `>` or `/>`, and whether the tag was self-closing.
pub enum AttrsRes {
    Done { attrs: Seq<AttrV>, end: int, self_close: bool },
    Fail,
}

/// Read the attribute list of a tag starting at `i` (just past the tag
/// name): whitespace-separated `name="value"` pairs, ended by `>` or `/>`.
pub open spec fn spec_attrs(s: Seq<char>, i: int) -> AttrsRes
    decreases s.len() - i,
{
    if i < 0 || i >= s.len() {
        AttrsRes::Fail
    } else {
        let j = skip_ws(s, i);
        if j >= s.len() {
            AttrsRes::Fail
        } else if s[j] == '>' {
            AttrsRes::Done { attrs: Seq::empty(), end: j + 1, self_close: false }
        } else if s[j] == '/' {
            if j + 1 < s.len() && s[j + 1] == '>' {
                AttrsRes::Done { attrs: Seq::empty(), end: j + 2, self_close: true }
            } else {
                AttrsRes::Fail
            }
        } else {
            let k = scan_name(s, j);
            if k <= j {
                AttrsRes::Fail
            } else {
                let name = s.subrange(j, k);
                let k2 = skip_ws(s, k);
                if k2 >= s.len() || s[k2] != '=' {
                    AttrsRes::Fail
                } else {
                    let k3 = skip_ws(s, k2 + 1);
                    if k3 >= s.len() || s[k3] != '"' {
                        AttrsRes::Fail
                    } else {
                        let v_end = scan_quote(s, k3 + 1);
                        if v_end >= s.len() {
                            AttrsRes::Fail
                        } else {
                            let value = s.subrange(k3 + 1, v_end);
                            let next = clamp_after(i, v_end + 1);
                            if next > s.len() {
                                AttrsRes::Fail
                            } else {
                                match spec_attrs(s, next) {
                                    AttrsRes::Fail => AttrsRes::Fail,
                                    AttrsRes::Done { attrs, end, self_close } => AttrsRes::Done {
                                        attrs: seq![AttrV { name, value }] + attrs,
                                        end,
                                        self_close,
                                    },
                                }
                            }
                        }
                    }
                }
            }
        }
    }
}

/// Executable mirror of `spec_attrs`.
pub fn lex_attrs(s: &str, n: usize, i: usize) -> (r: Result<(Vec<Attr>, usize, bool), ()>)
    requires
        n == s@.len(),
        i <= n,
    ensures
        match r {
            Ok((attrs, end, self_close)) => {
                &&& spec_attrs(s@, i as int) == (AttrsRes::Done {
                    attrs: attrs_view(attrs@),
                    end: end as int,
                    self_close,
                })
                &&& i < end <= n
            },
            Err(()) => spec_attrs(s@, i as int) is Fail,
        },
    decreases n - i,
{
    if i >= n {
        return Err(());
    }
    let j = skip_ws_x(s, n, i);
    proof {
        lemma_skip_ws(s@, i as int);
    }
    if j >= n {
        return Err(());
    }
    let cj = s.get_char(j);
    if cj == '>' {
        let attrs: Vec<Attr> = Vec::new();
        proof {
            assert(attrs_view(attrs@) =~= Seq::<AttrV>::empty());
        }
        Ok((attrs, j + 1, false))
    } else if cj == '/' {
        if j + 1 < n && s.get_char(j + 1) == '>' {
            let attrs: Vec<Attr> = Vec::new();
            proof {
                assert(attrs_view(attrs@) =~= Seq::<AttrV>::empty());
            }
            Ok((attrs, j + 2, true))
        } else {
            Err(())
        }
    } else {
        let k = scan_name_x(s, n, j);
        if k <= j {
            return Err(());
        }
        let name = s.substring_char(j, k).to_owned();
        let k2 = skip_ws_x(s, n, k);
        if k2 >= n || s.get_char(k2) != '=' {
            return Err(());
        }
        let k3 = skip_ws_x(s, n, k2 + 1);
        if k3 >= n || s.get_char(k3) != '"' {
            return Err(());
        }
        let v_end = scan_quote_x(s, n, k3 + 1);
        if v_end >= n {
            return Err(());
        }
        let value = s.substring_char(k3 + 1, v_end).to_owned();
        match lex_attrs(s, n, v_end + 1) {
            Err(()) => Err(()),
            Ok((mut attrs, end, self_close)) => {
                let ghost old_attrs = attrs@;
                attrs.insert(0, Attr { name, value });
                proof {
                    assert(attrs_view(attrs@) =~= seq![
                        AttrV { name: s@.subrange(j as int, k as int), value: s@.subrange(
                            k3 as int + 1,
                            v_end as int,
                        ) },
                    ] + attrs_view(old_attrs));
                }
                Ok((attrs, end, self_close))
            },
        }
    }
}

/// One step of tokenization: the next token and the position after it, a
/// position to skip to (a comment), the end of the text, or a failure.
pub enum NextRes {
    Tok(TokenV, int),
    SkipTo(int),
    End,
    Fail,
}

/// Read one token at position `i`.
pub open spec fn spec_next(s: Seq<char>, i: int) -> NextRes {
    if i < 0 {
        NextRes::Fail
    } else if i >= s.len() {
        NextRes::End
    } else if s[i] != '<' {
        let e = clamp_after(i, scan_text(s, i));
        NextRes::Tok(TokenV::Text { raw: s.subrange(i, e) }, e)
    } else if i + 1 >= s.len() {
        NextRes::Fail
    } else if s[i + 1] == '!' {
        if i + 4 <= s.len() && s[i + 2] == '-' && s[i + 3] == '-' {
            let c = scan_comment(s, i + 4);
            if c + 3 <= s.len() {
                NextRes::SkipTo(clamp_after(i, c + 3))
            } else {
                NextRes::Fail
            }
        } else {
            NextRes::Fail
        }
    } else if s[i + 1] == '/' {
        let k = scan_name(s, i + 2);
        if k <= i + 2 {
            NextRes::Fail
        } else {
            let j = skip_ws(s, k);
            if j < s.len() && s[j] == '>' {
                NextRes::Tok(
                    TokenV::Close { tag: s.subrange(i + 2, k) },
                    clamp_after(i, j + 1),
                )
            } else {
                NextRes::Fail
            }
        }
    } else {
        let k = scan_name(s, i + 1);
        if k <= i + 1 {
            NextRes::Fail
        } else {
            match spec_attrs(s, k) {
                AttrsRes::Fail => NextRes::Fail,
                AttrsRes::Done { attrs, end, self_close } => {
                    let tag = s.subrange(i + 1, k);
                    if self_close {
                        NextRes::Tok(TokenV::SelfClose { tag, attrs }, clamp_after(i, end))
                    } else {
                        NextRes::Tok(TokenV::Open { tag, attrs }, clamp_after(i, end))
                    }
                },
            }
        }
    }
}

/// Executable result of one tokenization step.
pub enum LexStep {
    Tok(Token, usize),
    SkipTo(usize),
    End,
    Fail,
}

/// Executable mirror of `spec_next`.
pub fn next_token(s: &str, n: usize, i: usize) -> (r: LexStep)
    requires
        n == s@.len(),
        i <= n,
    ensures
        match r {
            LexStep::Tok(t, j) => spec_next(s@, i as int) == NextRes::Tok(t@, j as int) && i < j
                <= n,
            LexStep::SkipTo(j) => spec_next(s@, i as int) == NextRes::SkipTo(j as int) && i < j
                <= n,
            LexStep::End => spec_next(s@, i as int) is End,
            LexStep::Fail => spec_next(s@, i as int) is Fail,
        },
{
    if i >= n {
        return LexStep::End;
    }
    if s.get_char(i) != '<' {
        let e = scan_text_x(s, n, i);
        proof {
            lemma_scan_text(s@, i as int);
        }
        let e2 = if e > i {
            e
        } else {
            i + 1
        };
        let raw = s.substring_char(i, e2).to_owned();
        return LexStep::Tok(Token::Text { raw }, e2);
    }
    if i + 1 >= n {
        return LexStep::Fail;
    }
    let c1 = s.get_char(i + 1);
    if c1 == '!' {
        if n - i >= 4 && s.get_char(i + 2) == '-' && s.get_char(i + 3) == '-' {
            let c = scan_comment_x(s, n, i + 4);
            proof {
                lemma_scan_comment(s@, i as int + 4);
            }
            if n - c >= 3 {
                LexStep::SkipTo(c + 3)
            } else {
                LexStep::Fail
            }
        } else {
            LexStep::Fail
        }
    } else if c1 == '/' {
        let k = scan_name_x(s, n, i + 2);
        if k <= i + 2 {
            return LexStep::Fail;
        }
        let j = skip_ws_x(s, n, k);
        if j < n && s.get_char(j) == '>' {
            let tag = s.substring_char(i + 2, k).to_owned();
            LexStep::Tok(Token::Close { tag }, j + 1)
        } else {
            LexStep::Fail
        }
    } else {
        let k = scan_name_x(s, n, i + 1);
        if k <= i + 1 {
            return LexStep::Fail;
        }
        match lex_attrs(s, n, k) {
            Err(()) => LexStep::Fail,
            Ok((attrs, end, self_close)) => {
                let tag = s.substring_char(i + 1, k).to_owned();
                if self_close {
                    LexStep::Tok(Token::SelfClose { tag, attrs }, end)
                } else {
                    LexStep::Tok(Token::Open { tag, attrs }, end)
                }
            },
        }
    }
}

/// The token stream of the text from position `i` on; `None` when the text
/// cannot be tokenized.
pub open spec fn spec_tokenize(s: Seq<char>, i: int) -> Option<Seq<TokenV>>
    decreases s.len() - i,
{
    if i < 0 {
        None
    } else {
        match spec_next(s, i) {
            NextRes::End => Some(Seq::empty()),
            NextRes::Fail => None,
            NextRes::SkipTo(j) => {
                let jj = clamp_after(i, j);
                if jj > s.len() {
                    None
                } else {
                    spec_tokenize(s, jj)
                }
            },
            NextRes::Tok(t, j) => {
                let jj = clamp_after(i, j);
                if jj > s.len() {
                    None
                } else {
                    match spec_tokenize(s, jj) {
                        None => None,
                        Some(rest) => Some(seq![t] + rest),
                    }
                }
            },
        }
    }
}

/// Executable mirror of `spec_tokenize`.
pub fn tokenize_from(s: &str, n: usize, i: usize) -> (r: Result<Vec<Token>, ()>)
    requires
        n == s@.len(),
        i <= n,
    ensures
        match r {
            Ok(toks) => spec_tokenize(s@, i as int) == Some(tokens_view(toks@)),
            Err(()) => spec_tokenize(s@, i as int) is None,
        },
    decreases n - i,
{
    match next_token(s, n, i) {
        LexStep::End => {
            let toks: Vec<Token> = Vec::new();
            proof {
                assert(tokens_view(toks@) =~= Seq::<TokenV>::empty());
            }
            Ok(toks)
        },
        LexStep::Fail => Err(()),
        LexStep::SkipTo(j) => tokenize_from(s, n, j),
        LexStep::Tok(t, j) => match tokenize_from(s, n, j) {
            Err(()) => Err(()),
            Ok(mut toks) => {
                let ghost old_toks = toks@;
                let ghost tv = t@;
                toks.insert(0, t);
                proof {
                    assert(tokens_view(toks@) =~= seq![tv] + tokens_view(old_toks));
                }
                Ok(toks)
            },
        },
    }
}

/// Tokenize a whole source text; `Err` exactly on text the token grammar
/// rejects.
pub fn tokenize(s: &str) -> (r: Result<Vec<Token>, ()>)
    ensures
        match r {
            Ok(toks) => spec_tokenize(s@, 0) == Some(tokens_view(toks@)),
            Err(()) => spec_tokenize(s@, 0) is None,
        },
{
    let n = s.unicode_len();
    tokenize_from(s, n, 0)
}

} // verus!
