//! The filter notation: a nested `field: value { child }` text that expands to
//! a block that evaluates to a chain of builder calls on `Filter::new()`.
//!
//! ```text
//! Entry := [ Field ':' ] Value [ { Entry? } ] [ ',' ]
//! Value := Literal | Path | Path ( tokens ) | Ident { tokens }
//! ```
//! The field may be left out only before a qualified path (`Type::method`);
//! it is then `append`.
use vstd::prelude::*;

verus! {

pub open spec fn is_ident_start(c: char) -> bool {
    ('a' <= c && c <= 'z') || ('A' <= c && c <= 'Z') || c == '_'
}

pub open spec fn is_ident_continue(c: char) -> bool {
    is_ident_start(c) || ('0' <= c && c <= '9')
}

pub open spec fn is_digit(c: char) -> bool {
    '0' <= c && c <= '9'
}

pub open spec fn is_space(c: char) -> bool {
    c == ' ' || c == '\t' || c == '\n' || c == '\r'
}

pub open spec fn is_open(c: char) -> bool {
    c == '\x28' || c == '\x5b' || c == '\x7b'
}

pub open spec fn is_close(c: char) -> bool {
    c == '\x29' || c == '\x5d' || c == '\x7d'
}

/// A printable ASCII character that starts no other kind of token.
pub open spec fn is_punct(c: char) -> bool {
    '!' <= c && c <= '~' && !is_ident_continue(c) && !is_open(c) && !is_close(c) && c != '\x22'
}

#[derive(Clone, Copy, Debug, PartialEq, Eq)]
pub enum TokenKind {
    Ident,
    Literal,
    Punct,
    Open,
    Close,
}

/// A token and the character offset where it starts.
#[derive(Clone, Debug, PartialEq, Eq)]
pub struct Token {
    pub kind: TokenKind,
    pub text: String,
    pub start: usize,
}

#[derive(Clone, Copy, Debug, PartialEq, Eq)]
pub enum ErrorKind {
    /// A character that starts no token.
    InvalidCharacter,
    /// A string literal without its closing quote, or with a backslash.
    InvalidString,
    /// A field name was expected.
    ExpectedIdent,
    /// The `:` after a field name is missing.
    ExpectedColon,
    /// A value was expected.
    ExpectedValue,
    /// An opening delimiter without its match.
    UnclosedDelimiter,
    /// A token after the end of an entry.
    UnexpectedToken,
    /// A value or call that the builder does not know.
    Unsupported,
}

/// A syntax error and where it stands: a character offset for the lexer's
/// errors, a token index for the parser's.
#[derive(Clone, Copy, Debug, PartialEq, Eq)]
pub struct DslError {
    pub kind: ErrorKind,
    pub pos: usize,
}

pub open spec fn all_ident_continue(t: Seq<char>) -> bool {
    forall|k: int| 0 <= k < t.len() ==> is_ident_continue(#[trigger] t[k])
}

pub open spec fn is_keyword_literal(t: Seq<char>) -> bool {
    t == seq!['t', 'r', 'u', 'e'] || t == seq!['f', 'a', 'l', 's', 'e']
}

/// A string literal: quotes around characters that hold no quote and no
/// backslash.
pub open spec fn is_string_literal(t: Seq<char>) -> bool {
    &&& t.len() >= 2
    &&& t[0] == '\x22'
    &&& t[t.len() - 1] == '\x22'
    &&& forall|k: int| 1 <= k < t.len() - 1 ==> #[trigger] t[k] != '\x22' && t[k] != '\\'
}

/// The text of a token has the shape that its kind asks for.
pub open spec fn token_shape(kind: TokenKind, t: Seq<char>) -> bool {
    match kind {
        TokenKind::Ident => t.len() >= 1 && is_ident_start(t[0]) && all_ident_continue(t)
            && !is_keyword_literal(t),
        TokenKind::Literal => (t.len() >= 1 && is_digit(t[0]) && all_ident_continue(t))
            || is_keyword_literal(t) || is_string_literal(t),
        TokenKind::Punct => t == seq![':', ':'] || (t.len() == 1 && is_punct(t[0])),
        TokenKind::Open => t.len() == 1 && is_open(t[0]),
        TokenKind::Close => t.len() == 1 && is_close(t[0]),
    }
}

pub open spec fn token_end(tok: Token) -> int {
    tok.start + tok.text@.len()
}

/// A word or `:` token from `a` to `b` is not followed by a character that
/// would have extended it.
pub open spec fn maximal_at(s: Seq<char>, kind: TokenKind, a: int, b: int) -> bool {
    b < s.len() ==> {
        &&& (kind == TokenKind::Ident || (kind == TokenKind::Literal && s[a] != '\x22'))
            ==> !is_ident_continue(s[b])
        &&& s.subrange(a, b) == seq![':'] ==> s[b] != ':'
    }
}

pub open spec fn token_maximal(s: Seq<char>, tok: Token) -> bool {
    maximal_at(s, tok.kind, tok.start as int, token_end(tok))
}

/// Character `j` of `s` lies inside one of the tokens.
pub open spec fn covered(toks: Seq<Token>, j: int) -> bool {
    exists|i: int| 0 <= i < toks.len() && #[trigger] toks[i].start <= j < token_end(toks[i])
}

/// `toks` is the token sequence of `s`: each token is the text of `s` at its
/// offset, has its kind's shape and is maximal, the tokens stand in order
/// without overlap, and every character outside them is white space.
#[verifier::opaque]
pub open spec fn tokenizes(s: Seq<char>, toks: Seq<Token>) -> bool {
    &&& forall|i: int| 0 <= i < toks.len() ==> {
        &&& token_end(#[trigger] toks[i]) <= s.len()
        &&& toks[i].text@ == s.subrange(toks[i].start as int, token_end(toks[i]))
        &&& token_shape(toks[i].kind, toks[i].text@)
        &&& token_maximal(s, toks[i])
    }
    &&& forall|a: int, b: int|
        0 <= a < b < toks.len() ==> token_end(#[trigger] toks[a]) <= #[trigger] toks[b].start
    &&& forall|j: int| 0 <= j < s.len() ==> covered(toks, j) || is_space(#[trigger] s[j])
}

/// A string literal opened at `p` does not close: before any closing quote
/// comes a backslash or the end of the text.
pub open spec fn unclosed_string_at(s: Seq<char>, p: int) -> bool {
    &&& s[p] == '\x22'
    &&& forall|m: int|
        p < m < s.len() && #[trigger] s[m] == '\x22' ==> exists|k: int|
            p < k < m && #[trigger] s[k] == '\\'
}

/// Where the lexer stops: a character that starts no token, or a quote whose
/// literal does not close. Either way no token sequence of the text exists.
pub open spec fn lex_error_at(s: Seq<char>, e: DslError) -> bool {
    &&& 0 <= e.pos < s.len()
    &&& match e.kind {
        ErrorKind::InvalidCharacter => {
            let c = s[e.pos as int];
            !is_space(c) && !is_ident_continue(c) && !is_open(c) && !is_close(c) && !is_punct(c)
                && c != '\x22'
        },
        ErrorKind::InvalidString => unclosed_string_at(s, e.pos as int),
        _ => false,
    }
}

fn ident_start(c: char) -> (r: bool)
    ensures
        r == is_ident_start(c),
{
    ('a' <= c && c <= 'z') || ('A' <= c && c <= 'Z') || c == '_'
}

fn ident_continue(c: char) -> (r: bool)
    ensures
        r == is_ident_continue(c),
{
    ident_start(c) || ('0' <= c && c <= '9')
}

fn space(c: char) -> (r: bool)
    ensures
        r == is_space(c),
{
    c == ' ' || c == '\t' || c == '\n' || c == '\r'
}

fn open_delim(c: char) -> (r: bool)
    ensures
        r == is_open(c),
{
    c == '\x28' || c == '\x5b' || c == '\x7b'
}

fn close_delim(c: char) -> (r: bool)
    ensures
        r == is_close(c),
{
    c == '\x29' || c == '\x5d' || c == '\x7d'
}

fn punct(c: char) -> (r: bool)
    ensures
        r == is_punct(c),
{
    '!' <= c && c <= '~' && !ident_continue(c) && !open_delim(c) && !close_delim(c) && c != '\x22'
}

fn keyword_literal(chars: &Vec<char>, a: usize, b: usize) -> (r: bool)
    requires
        a <= b <= chars@.len(),
    ensures
        r == is_keyword_literal(chars@.subrange(a as int, b as int)),
{
    let t = Ghost(chars@.subrange(a as int, b as int));
    proof {
        assert(seq!['t', 'r', 'u', 'e'].len() == 4);
        assert(seq!['f', 'a', 'l', 's', 'e'].len() == 5);
    }
    if b - a == 4 {
        let r = chars[a] == 't' && chars[a + 1] == 'r' && chars[a + 2] == 'u' && chars[a + 3] == 'e';
        proof {
            if r {
                assert(t@ =~= seq!['t', 'r', 'u', 'e']);
            }
            if t@ == seq!['t', 'r', 'u', 'e'] {
                assert(t@[0] == 't' && t@[1] == 'r' && t@[2] == 'u' && t@[3] == 'e');
            }
        }
        r
    } else if b - a == 5 {
        let r = chars[a] == 'f' && chars[a + 1] == 'a' && chars[a + 2] == 'l' && chars[a + 3] == 's'
            && chars[a + 4] == 'e';
        proof {
            if r {
                assert(t@ =~= seq!['f', 'a', 'l', 's', 'e']);
            }
            if t@ == seq!['f', 'a', 'l', 's', 'e'] {
                assert(t@[0] == 'f' && t@[1] == 'a' && t@[2] == 'l' && t@[3] == 's' && t@[4] == 'e');
            }
        }
        r
    } else {
        proof {
            assert(seq!['t', 'r', 'u', 'e'].len() == 4);
            assert(seq!['f', 'a', 'l', 's', 'e'].len() == 5);
        }
        false
    }
}

/// The characters of `s`, in order.
fn chars_of(s: &str) -> (r: Vec<char>)
    ensures
        r@ == s@,
{
    let n = s.unicode_len();
    let mut r: Vec<char> = Vec::new();
    let mut i: usize = 0;
    while i < n
        invariant
            n == s@.len(),
            i <= n,
            r@ == s@.subrange(0, i as int),
        decreases n - i,
    {
        r.push(s.get_char(i));
        i = i + 1;
        proof {
            assert(r@ =~= s@.subrange(0, i as int));
        }
    }
    proof {
        assert(r@ =~= s@);
    }
    r
}

/// The end of the run of identifier characters that starts at `i`.
fn scan_word(chars: &Vec<char>, i: usize) -> (j: usize)
    requires
        i < chars@.len(),
    ensures
        i < j <= chars@.len() || (j == i && !is_ident_continue(chars@[i as int])),
        forall|k: int| i <= k < j ==> is_ident_continue(#[trigger] chars@[k]),
        j < chars@.len() ==> !is_ident_continue(chars@[j as int]),
{
    let mut j = i;
    while j < chars.len() && ident_continue(chars[j])
        invariant
            i <= j <= chars@.len(),
            forall|k: int| i <= k < j ==> is_ident_continue(#[trigger] chars@[k]),
        decreases chars@.len() - j,
    {
        j = j + 1;
    }
    j
}

/// The index of the first quote or backslash after `i`, or the length.
fn scan_string(chars: &Vec<char>, i: usize) -> (j: usize)
    requires
        i < chars@.len(),
    ensures
        i < j <= chars@.len(),
        forall|k: int| i < k < j ==> #[trigger] chars@[k] != '\x22' && chars@[k] != '\\',
        j < chars@.len() ==> chars@[j as int] == '\x22' || chars@[j as int] == '\\',
{
    let n = chars.len();
    let mut j = i + 1;
    while j < n && chars[j] != '\x22' && chars[j] != '\\'
        invariant
            n == chars@.len(),
            i < j <= chars@.len(),
            forall|k: int| i < k < j ==> #[trigger] chars@[k] != '\x22' && chars@[k] != '\\',
        decreases chars@.len() - j,
    {
        j = j + 1;
    }
    j
}

proof fn lemma_unclosed_string(s: Seq<char>, i: int, j: int)
    requires
        0 <= i < j <= s.len(),
        s[i] == '\x22',
        forall|k: int| i < k < j ==> #[trigger] s[k] != '\x22' && s[k] != '\\',
        j < s.len() ==> s[j] == '\\',
    ensures
        unclosed_string_at(s, i),
{
    assert forall|m: int| i < m < s.len() && #[trigger] s[m] == '\x22' implies exists|k: int|
        i < k < m && #[trigger] s[k] == '\\' by {
        assert(j < m);
        assert(s[j] == '\\');
    }
}

/// The kind and end of the token that starts at `i`.
fn next_token(s: &str, chars: &Vec<char>, i: usize) -> (r: Result<(TokenKind, usize), DslError>)
    requires
        chars@ == s@,
        i < s@.len(),
        !is_space(s@[i as int]),
    ensures
        match r {
            Ok((kind, end)) => {
                &&& i < end <= s@.len()
                &&& token_shape(kind, s@.subrange(i as int, end as int))
                &&& maximal_at(s@, kind, i as int, end as int)
            },
            Err(e) => lex_error_at(s@, e) && e.pos == i,
        },
{
    let n = chars.len();
    let c = chars[i];
    let ghost ss = s@;
    proof {
        assert(ss.subrange(i as int, i + 1) =~= seq![c]);
        assert forall|e: int| i < e <= ss.len() implies #[trigger] ss.subrange(i as int, e)[0] == c by {}
    }
    if ident_continue(c) {
        let end = scan_word(chars, i);
        let kind = if keyword_literal(chars, i, end) || !ident_start(c) {
            TokenKind::Literal
        } else {
            TokenKind::Ident
        };
        proof {
            let t = ss.subrange(i as int, end as int);
            assert forall|k: int| 0 <= k < t.len() implies is_ident_continue(#[trigger] t[k]) by {
                assert(t[k] == ss[i + k]);
            }
            assert(token_shape(kind, ss.subrange(i as int, end as int)));
            assert(maximal_at(ss, kind, i as int, end as int));
        }
        Ok((kind, end))
    } else if c == '\x22' {
        let j = scan_string(chars, i);
        if j == n || chars[j] == '\\' {
            proof {
                lemma_unclosed_string(ss, i as int, j as int);
            }
            return Err(DslError { kind: ErrorKind::InvalidString, pos: i });
        }
        proof {
            let t = ss.subrange(i as int, j + 1);
            assert forall|k: int| 1 <= k < t.len() - 1 implies #[trigger] t[k] != '\x22' && t[k]
                != '\\' by {
                assert(t[k] == ss[i + k]);
            }
            assert(token_shape(TokenKind::Literal, ss.subrange(i as int, (j + 1) as int)));
            assert(maximal_at(ss, TokenKind::Literal, i as int, (j + 1) as int));
        }
        Ok((TokenKind::Literal, j + 1))
    } else if open_delim(c) {
        proof {
            assert(token_shape(TokenKind::Open, ss.subrange(i as int, i + 1)));
            assert(maximal_at(ss, TokenKind::Open, i as int, i + 1));
        }
        Ok((TokenKind::Open, i + 1))
    } else if close_delim(c) {
        proof {
            assert(token_shape(TokenKind::Close, ss.subrange(i as int, i + 1)));
            assert(maximal_at(ss, TokenKind::Close, i as int, i + 1));
        }
        Ok((TokenKind::Close, i + 1))
    } else if c == ':' && i + 1 < n && chars[i + 1] == ':' {
        proof {
            assert(ss.subrange(i as int, i + 2) =~= seq![':', ':']);
            assert(token_shape(TokenKind::Punct, ss.subrange(i as int, (i + 2) as int)));
            assert(maximal_at(ss, TokenKind::Punct, i as int, (i + 2) as int));
        }
        Ok((TokenKind::Punct, i + 2))
    } else if punct(c) {
        proof {
            let t = ss.subrange(i as int, i + 1);
            assert(t.len() == 1 && t[0] == c);
            if t == seq![':'] {
                assert(c == ':');
            }
            assert(token_shape(TokenKind::Punct, ss.subrange(i as int, (i + 1) as int)));
            assert(maximal_at(ss, TokenKind::Punct, i as int, (i + 1) as int));
        }
        Ok((TokenKind::Punct, i + 1))
    } else {
        Err(DslError { kind: ErrorKind::InvalidCharacter, pos: i })
    }
}

/// `toks` are the tokens of `s` that end by offset `i`: `tokenizes` up to
/// `i`, every character before `i` lies in a token or is white space.
#[verifier::opaque]
pub open spec fn lexed_prefix(s: Seq<char>, toks: Seq<Token>, i: int) -> bool {
    &&& forall|t: int| 0 <= t < toks.len() ==> {
        &&& token_end(#[trigger] toks[t]) <= i
        &&& toks[t].text@ == s.subrange(toks[t].start as int, token_end(toks[t]))
        &&& token_shape(toks[t].kind, toks[t].text@)
        &&& token_maximal(s, toks[t])
    }
    &&& forall|a: int, b: int|
        0 <= a < b < toks.len() ==> token_end(#[trigger] toks[a]) <= #[trigger] toks[b].start
    &&& forall|j: int| 0 <= j < i ==> covered(toks, j) || is_space(#[trigger] s[j])
}

proof fn lemma_lexed_start(s: Seq<char>)
    ensures
        lexed_prefix(s, Seq::empty(), 0),
{
    reveal(lexed_prefix);
}

proof fn lemma_lexed_space(s: Seq<char>, toks: Seq<Token>, i: int)
    requires
        lexed_prefix(s, toks, i),
        0 <= i < s.len(),
        is_space(s[i]),
    ensures
        lexed_prefix(s, toks, i + 1),
{
    reveal(lexed_prefix);
    assert forall|j: int| 0 <= j < i + 1 implies covered(toks, j) || is_space(#[trigger] s[j]) by {}
}

proof fn lemma_lexed_token(s: Seq<char>, toks: Seq<Token>, tok: Token, i: int)
    requires
        lexed_prefix(s, toks, i),
        tok.start == i,
        i < token_end(tok) <= s.len(),
        tok.text@ == s.subrange(i, token_end(tok)),
        token_shape(tok.kind, tok.text@),
        token_maximal(s, tok),
    ensures
        lexed_prefix(s, toks.push(tok), token_end(tok)),
{
    reveal(lexed_prefix);
    lemma_push_token(s, toks, tok, i);
    let ts = toks.push(tok);
    assert forall|a: int, b: int| 0 <= a < b < ts.len() implies token_end(#[trigger] ts[a])
        <= #[trigger] ts[b].start by {
        assert(ts[a] == toks[a]);
        if b < toks.len() {
            assert(ts[b] == toks[b]);
        }
    }
    assert forall|t: int| 0 <= t < ts.len() implies token_end(#[trigger] ts[t]) <= token_end(tok)
        && ts[t].text@ == s.subrange(ts[t].start as int, token_end(ts[t])) && token_shape(
        ts[t].kind,
        ts[t].text@,
    ) && token_maximal(s, ts[t]) by {
        if t < toks.len() {
            assert(ts[t] == toks[t]);
        }
    }
}

proof fn lemma_lexed_done(s: Seq<char>, toks: Seq<Token>)
    requires
        lexed_prefix(s, toks, s.len() as int),
    ensures
        tokenizes(s, toks),
{
    reveal(lexed_prefix);
    reveal(tokenizes);
}

/// Splits `s` into tokens; white space only separates them. An error is
/// the first place where lexing stops: the text before it is lexed.
pub fn tokenize(s: &str) -> (r: Result<Vec<Token>, DslError>)
    ensures
        match r {
            Ok(toks) => tokenizes(s@, toks@),
            Err(e) => lex_error_at(s@, e) && exists|toks: Seq<Token>| lexed_prefix(s@, toks, e.pos as int),
        },
{
    let chars = chars_of(s);
    let n = chars.len();
    let mut toks: Vec<Token> = Vec::new();
    let mut i: usize = 0;
    proof {
        lemma_lexed_start(s@);
    }
    while i < n
        invariant
            n == s@.len(),
            chars@ == s@,
            i <= n,
            lexed_prefix(s@, toks@, i as int),
        decreases n - i,
    {
        if space(chars[i]) {
            proof {
                lemma_lexed_space(s@, toks@, i as int);
            }
            i = i + 1;
            continue;
        }
        let (kind, end) = match next_token(s, &chars, i) {
            Ok(p) => p,
            Err(e) => {
                proof {
                    assert(lexed_prefix(s@, toks@, e.pos as int));
                }
                return Err(e);
            },
        };
        let text = s.substring_char(i, end).to_owned();
        let tok = Token { kind, text, start: i };
        let ghost old_toks = toks@;
        toks.push(tok);
        proof {
            assert(toks@ == old_toks.push(tok));
            assert(tok.text@ == s@.subrange(i as int, end as int));
            assert(token_end(tok) == end);
            assert(token_maximal(s@, tok));
            assert(token_shape(tok.kind, tok.text@));
            lemma_lexed_token(s@, old_toks, tok, i as int);
        }
        i = end;
    }
    proof {
        lemma_lexed_done(s@, toks@);
    }
    Ok(toks)
}

proof fn lemma_push_token(s: Seq<char>, toks: Seq<Token>, tok: Token, i: int)
    requires
        forall|t: int| 0 <= t < toks.len() ==> token_end(#[trigger] toks[t]) <= i,
        forall|j: int| 0 <= j < i ==> covered(toks, j) || is_space(#[trigger] s[j]),
        tok.start == i,
    ensures
        forall|j: int|
            0 <= j < token_end(tok) ==> covered(toks.push(tok), j) || is_space(#[trigger] s[j]),
        forall|t: int| 0 <= t < toks.len() ==> token_end(#[trigger] toks[t]) <= tok.start,
{
    let ts = toks.push(tok);
    assert forall|j: int| 0 <= j < token_end(tok) implies covered(ts, j) || is_space(
        #[trigger] s[j],
    ) by {
        if j >= i {
            assert(ts[toks.len() as int] == tok);
            assert(ts[toks.len() as int].start <= j < token_end(ts[toks.len() as int]));
        } else if !is_space(s[j]) {
            assert(covered(toks, j));
            let w = choose|w: int| 0 <= w < toks.len() && #[trigger] toks[w].start <= j < token_end(
                toks[w],
            );
            assert(ts[w] == toks[w]);
            assert(ts[w].start <= j < token_end(ts[w]));
        }
    }
}

/// Every token has its kind's shape.
pub open spec fn tokens_wf(toks: Seq<Token>) -> bool {
    forall|i: int| 0 <= i < toks.len() ==> token_shape(#[trigger] toks[i].kind, toks[i].text@)
}

pub open spec fn is_tok(t: Token, kind: TokenKind, c: char) -> bool {
    t.kind == kind && t.text@ == seq![c]
}

pub open spec fn is_path_sep(t: Token) -> bool {
    t.kind == TokenKind::Punct && t.text@ == seq![':', ':']
}

pub open spec fn closes(open: char, close: char) -> bool {
    (open == '\x28' && close == '\x29') || (open == '\x5b' && close == '\x5d') || (open == '\x7b'
        && close == '\x7d')
}

/// Scanning from `j` with the open delimiters `stack`, the index of the token
/// that closes the first of them; `None` when the text ends first or a close
/// does not match.
pub open spec fn scan_close(toks: Seq<Token>, j: int, end: int, stack: Seq<char>) -> Option<int>
    decreases end - j,
{
    if j >= end || j < 0 || stack.len() == 0 {
        None
    } else if toks[j].kind == TokenKind::Open {
        scan_close(toks, j + 1, end, stack.push(toks[j].text@[0]))
    } else if toks[j].kind == TokenKind::Close {
        if !closes(stack.last(), toks[j].text@[0]) {
            None
        } else if stack.len() == 1 {
            Some(j)
        } else {
            scan_close(toks, j + 1, end, stack.drop_last())
        }
    } else {
        scan_close(toks, j + 1, end, stack)
    }
}

/// The index of the token before `end` that closes the group opened at `open`.
pub open spec fn close_of(toks: Seq<Token>, open: int, end: int) -> Option<int> {
    scan_close(toks, open + 1, end, seq![toks[open].text@[0]])
}

/// The end of the `:: Ident` pairs that follow from `j`.
pub open spec fn path_rest(toks: Seq<Token>, j: int, end: int) -> int
    decreases end - j,
{
    if 0 <= j && j + 1 < end && is_path_sep(toks[j]) && toks[j + 1].kind == TokenKind::Ident {
        path_rest(toks, j + 2, end)
    } else {
        j
    }
}

/// A path `[::] Ident (:: Ident)*` at `j`, and where it ends.
pub open spec fn path_end(toks: Seq<Token>, j: int, end: int) -> Option<int> {
    if 0 <= j < end && toks[j].kind == TokenKind::Ident {
        Some(path_rest(toks, j + 1, end))
    } else if 0 <= j && j + 1 < end && is_path_sep(toks[j]) && toks[j + 1].kind
        == TokenKind::Ident {
        Some(path_rest(toks, j + 2, end))
    } else {
        None
    }
}

/// Which method an entry calls.
#[derive(Clone, Copy, Debug, PartialEq, Eq)]
pub enum Field {
    /// Left out before a qualified path: `append`.
    Append,
    /// Named by the identifier token at this index.
    Named(usize),
}

/// A value, by token indices.
#[derive(Clone, Copy, Debug, PartialEq, Eq)]
pub enum Value {
    /// The literal token at this index.
    Lit(usize),
    /// A path over the tokens `[a, b)`.
    Path(usize, usize),
    /// A call: the path `[a, p)`, `(` at `p`, its arguments, `)` at `c`.
    Call(usize, usize, usize),
    /// A struct literal: the type at `a`, `{` at `a + 1`, its body, `}` at `c`.
    Struct(usize, usize),
}

/// One builder call: `.field(value ...)`.
#[derive(Clone, Copy, Debug, PartialEq, Eq)]
pub struct Step {
    pub field: Field,
    pub value: Value,
}

pub open spec fn err<T>(kind: ErrorKind, pos: int) -> Result<T, DslError> {
    Err(DslError { kind, pos: pos as usize })
}

/// The value at `j`, and the index after it.
pub open spec fn parse_value(toks: Seq<Token>, j: int, end: int) -> Result<(Value, int), DslError> {
    if j < 0 || j >= end {
        err(ErrorKind::ExpectedValue, j)
    } else if toks[j].kind == TokenKind::Literal {
        Ok((Value::Lit(j as usize), j + 1))
    } else if j + 1 < end && is_tok(toks[j + 1], TokenKind::Open, '\x7b') {
        if toks[j].kind != TokenKind::Ident {
            err(ErrorKind::ExpectedValue, j)
        } else {
            match close_of(toks, j + 1, end) {
                None => err(ErrorKind::UnclosedDelimiter, j + 1),
                Some(c) => Ok((Value::Struct(j as usize, c as usize), c + 1)),
            }
        }
    } else {
        match path_end(toks, j, end) {
            None => err(ErrorKind::ExpectedValue, j),
            Some(p) => if p < end && is_tok(toks[p], TokenKind::Open, '\x28') {
                match close_of(toks, p, end) {
                    None => err(ErrorKind::UnclosedDelimiter, p),
                    Some(c) => Ok((Value::Call(j as usize, p as usize, c as usize), c + 1)),
                }
            } else {
                Ok((Value::Path(j as usize, p as usize), p))
            },
        }
    }
}

/// The field of the entry at `pos`, and where its value starts.
pub open spec fn parse_field(toks: Seq<Token>, pos: int, end: int) -> Result<(Field, int), DslError> {
    if 0 <= pos && pos + 1 < end && is_path_sep(toks[pos + 1]) {
        Ok((Field::Append, pos))
    } else if pos < 0 || pos >= end || toks[pos].kind != TokenKind::Ident {
        err(ErrorKind::ExpectedIdent, pos)
    } else if pos + 1 >= end || !is_tok(toks[pos + 1], TokenKind::Punct, ':') {
        err(ErrorKind::ExpectedColon, pos + 1)
    } else {
        Ok((Field::Named(pos as usize), pos + 2))
    }
}

/// The entry that spans the tokens `[pos, end)` exactly, as the builder calls
/// from the outermost to the innermost.
pub open spec fn parse_entry(toks: Seq<Token>, pos: int, end: int) -> Result<Seq<Step>, DslError>
    decreases end - pos,
{
    match parse_field(toks, pos, end) {
        Err(e) => Err(e),
        Ok((field, vpos)) => match parse_value(toks, vpos, end) {
            Err(e) => Err(e),
            Ok((value, q)) => {
                let step = Step { field, value };
                let inner: Result<(Seq<Step>, int), DslError> = if q < end && is_tok(
                    toks[q],
                    TokenKind::Open,
                    '\x7b',
                ) {
                    match close_of(toks, q, end) {
                        None => err(ErrorKind::UnclosedDelimiter, q),
                        Some(c) => if c == q + 1 {
                            Ok((Seq::empty(), c + 1))
                        } else if pos <= q && q < c && c < end {
                            // The test always holds; it shows that the recursion ends.
                            match parse_entry(toks, q + 1, c) {
                                Err(e) => Err(e),
                                Ok(steps) => Ok((steps, c + 1)),
                            }
                        } else {
                            err(ErrorKind::UnclosedDelimiter, q)
                        },
                    }
                } else {
                    Ok((Seq::empty(), q))
                };
                match inner {
                    Err(e) => Err(e),
                    Ok((steps, after)) => {
                        let last = if after < end && is_tok(toks[after], TokenKind::Punct, ',') {
                            after + 1
                        } else {
                            after
                        };
                        if last != end {
                            err(ErrorKind::UnexpectedToken, last)
                        } else {
                            Ok(seq![step] + steps)
                        }
                    },
                }
            },
        },
    }
}

pub(crate) fn tok_is(t: &Token, kind: TokenKind, c: char) -> (r: bool)
    ensures
        r == is_tok(*t, kind, c),
{
    let same_kind = match (t.kind, kind) {
        (TokenKind::Ident, TokenKind::Ident) => true,
        (TokenKind::Literal, TokenKind::Literal) => true,
        (TokenKind::Punct, TokenKind::Punct) => true,
        (TokenKind::Open, TokenKind::Open) => true,
        (TokenKind::Close, TokenKind::Close) => true,
        _ => false,
    };
    let text = t.text.as_str();
    if same_kind && text.unicode_len() == 1 {
        let r = text.get_char(0) == c;
        proof {
            if r {
                assert(t.text@ =~= seq![c]);
            }
        }
        r
    } else {
        proof {
            assert(seq![c].len() == 1);
        }
        false
    }
}

pub(crate) fn path_sep(t: &Token) -> (r: bool)
    ensures
        r == is_path_sep(*t),
{
    let text = t.text.as_str();
    if matches!(t.kind, TokenKind::Punct) && text.unicode_len() == 2 {
        let r = text.get_char(0) == ':' && text.get_char(1) == ':';
        proof {
            if r {
                assert(t.text@ =~= seq![':', ':']);
            }
            if t.text@ == seq![':', ':'] {
                assert(t.text@[0] == ':' && t.text@[1] == ':');
            }
        }
        r
    } else {
        proof {
            assert(seq![':', ':'].len() == 2);
        }
        false
    }
}

fn closes_exec(open: char, close: char) -> (r: bool)
    ensures
        r == closes(open, close),
{
    (open == '\x28' && close == '\x29') || (open == '\x5b' && close == '\x5d') || (open == '\x7b'
        && close == '\x7d')
}

/// The first character of a token's text.
fn first_char(t: &Token) -> (r: char)
    requires
        token_shape(t.kind, t.text@),
    ensures
        r == t.text@[0],
{
    proof {
        if t.kind == TokenKind::Literal && is_keyword_literal(t.text@) {
            assert(seq!['t', 'r', 'u', 'e'].len() == 4);
            assert(seq!['f', 'a', 'l', 's', 'e'].len() == 5);
        }
        if t.kind == TokenKind::Punct && t.text@ == seq![':', ':'] {
            assert(seq![':', ':'].len() == 2);
        }
    }
    t.text.as_str().get_char(0)
}

/// The index of the token that closes the group opened at `open`.
fn find_close(toks: &Vec<Token>, open: usize, end: usize) -> (r: Option<usize>)
    requires
        tokens_wf(toks@),
        open < end <= toks@.len(),
    ensures
        match close_of(toks@, open as int, end as int) {
            Some(c) => open < c < end && r == Some(c as usize),
            None => r is None,
        },
{
    let mut stack: Vec<char> = Vec::new();
    stack.push(first_char(&toks[open]));
    let mut j = open + 1;
    proof {
        assert(stack@ =~= seq![toks@[open as int].text@[0]]);
    }
    while j < end
        invariant
            tokens_wf(toks@),
            open < j <= end <= toks@.len(),
            stack@.len() >= 1,
            close_of(toks@, open as int, end as int) == scan_close(toks@, j as int, end as int, stack@),
        decreases end - j,
    {
        let t = &toks[j];
        match t.kind {
            TokenKind::Open => {
                stack.push(first_char(t));
            },
            TokenKind::Close => {
                let top = stack[stack.len() - 1];
                if !closes_exec(top, first_char(t)) {
                    return None;
                }
                if stack.len() == 1 {
                    return Some(j);
                }
                let ghost before = stack@;
                stack.pop();
                proof {
                    assert(stack@ =~= before.drop_last());
                }
            },
            _ => {},
        }
        j = j + 1;
    }
    None
}

fn path_end_exec(toks: &Vec<Token>, j: usize, end: usize) -> (r: Option<usize>)
    requires
        end <= toks@.len(),
    ensures
        match path_end(toks@, j as int, end as int) {
            Some(p) => j < p <= end && r == Some(p as usize),
            None => r is None,
        },
{
    let mut k: usize;
    if j < end && matches!(toks[j].kind, TokenKind::Ident) {
        k = j + 1;
    } else if j < end && j + 1 < end && path_sep(&toks[j]) && matches!(toks[j + 1].kind, TokenKind::Ident) {
        k = j + 2;
    } else {
        return None;
    }
    let ghost k0 = k;
    while k < end && k + 1 < end && path_sep(&toks[k]) && matches!(toks[k + 1].kind, TokenKind::Ident)
        invariant
            j < k <= end <= toks@.len(),
            path_rest(toks@, k0 as int, end as int) == path_rest(toks@, k as int, end as int),
        decreases end - k,
    {
        k = k + 2;
    }
    Some(k)
}

fn value_at(toks: &Vec<Token>, j: usize, end: usize) -> (r: Result<(Value, usize), DslError>)
    requires
        tokens_wf(toks@),
        end <= toks@.len(),
    ensures
        match r {
            Ok((v, q)) => parse_value(toks@, j as int, end as int) == Ok::<(Value, int), DslError>(
                (v, q as int),
            ) && j < q <= end,
            Err(e) => parse_value(toks@, j as int, end as int) == Err::<(Value, int), DslError>(e),
        },
{
    if j >= end {
        return Err(DslError { kind: ErrorKind::ExpectedValue, pos: j });
    }
    if matches!(toks[j].kind, TokenKind::Literal) {
        return Ok((Value::Lit(j), j + 1));
    }
    if j + 1 < end && tok_is(&toks[j + 1], TokenKind::Open, '\x7b') {
        if !matches!(toks[j].kind, TokenKind::Ident) {
            return Err(DslError { kind: ErrorKind::ExpectedValue, pos: j });
        }
        return match find_close(toks, j + 1, end) {
            None => Err(DslError { kind: ErrorKind::UnclosedDelimiter, pos: j + 1 }),
            Some(c) => Ok((Value::Struct(j, c), c + 1)),
        };
    }
    match path_end_exec(toks, j, end) {
        None => Err(DslError { kind: ErrorKind::ExpectedValue, pos: j }),
        Some(p) => {
            if p < end && tok_is(&toks[p], TokenKind::Open, '\x28') {
                match find_close(toks, p, end) {
                    None => Err(DslError { kind: ErrorKind::UnclosedDelimiter, pos: p }),
                    Some(c) => Ok((Value::Call(j, p, c), c + 1)),
                }
            } else {
                Ok((Value::Path(j, p), p))
            }
        },
    }
}

fn field_at(toks: &Vec<Token>, pos: usize, end: usize) -> (r: Result<(Field, usize), DslError>)
    requires
        end <= toks@.len(),
    ensures
        match r {
            Ok((f, q)) => parse_field(toks@, pos as int, end as int) == Ok::<(Field, int), DslError>(
                (f, q as int),
            ) && pos <= q <= pos + 2,
            Err(e) => parse_field(toks@, pos as int, end as int) == Err::<(Field, int), DslError>(e),
        },
{
    if pos < end && pos + 1 < end && path_sep(&toks[pos + 1]) {
        Ok((Field::Append, pos))
    } else if pos >= end || !matches!(toks[pos].kind, TokenKind::Ident) {
        Err(DslError { kind: ErrorKind::ExpectedIdent, pos })
    } else if pos + 1 >= end || !tok_is(&toks[pos + 1], TokenKind::Punct, ':') {
        Err(DslError { kind: ErrorKind::ExpectedColon, pos: pos + 1 })
    } else {
        Ok((Field::Named(pos), pos + 2))
    }
}

fn entry_at(toks: &Vec<Token>, pos: usize, end: usize) -> (r: Result<Vec<Step>, DslError>)
    requires
        tokens_wf(toks@),
        end <= toks@.len(),
    ensures
        match r {
            Ok(steps) => parse_entry(toks@, pos as int, end as int) == Ok::<Seq<Step>, DslError>(
                steps@,
            ),
            Err(e) => parse_entry(toks@, pos as int, end as int) == Err::<Seq<Step>, DslError>(e),
        },
    decreases end - pos,
{
    let (field, vpos) = match field_at(toks, pos, end) {
        Ok(p) => p,
        Err(e) => {
            return Err(e);
        },
    };
    let (value, q) = match value_at(toks, vpos, end) {
        Ok(p) => p,
        Err(e) => {
            return Err(e);
        },
    };
    let mut steps: Vec<Step> = Vec::new();
    steps.push(Step { field, value });
    let mut after = q;
    if q < end && tok_is(&toks[q], TokenKind::Open, '\x7b') {
        match find_close(toks, q, end) {
            None => {
                return Err(DslError { kind: ErrorKind::UnclosedDelimiter, pos: q });
            },
            Some(c) => {
                if c != q + 1 {
                    let mut inner = match entry_at(toks, q + 1, c) {
                        Ok(v) => v,
                        Err(e) => {
                            return Err(e);
                        },
                    };
                    steps.append(&mut inner);
                }
                after = c + 1;
            },
        }
    }
    if after < end && tok_is(&toks[after], TokenKind::Punct, ',') {
        after = after + 1;
    }
    if after != end {
        return Err(DslError { kind: ErrorKind::UnexpectedToken, pos: after });
    }
    Ok(steps)
}

/// Parses a whole token sequence as one entry.
pub fn parse(toks: &Vec<Token>) -> (r: Result<Vec<Step>, DslError>)
    requires
        tokens_wf(toks@),
    ensures
        match r {
            Ok(steps) => parse_entry(toks@, 0, toks@.len() as int) == Ok::<Seq<Step>, DslError>(
                steps@,
            ),
            Err(e) => parse_entry(toks@, 0, toks@.len() as int) == Err::<Seq<Step>, DslError>(e),
        },
{
    entry_at(toks, 0, toks.len())
}

pub open spec fn is_word(t: Token) -> bool {
    t.kind == TokenKind::Ident || t.kind == TokenKind::Literal
}

pub open spec fn tok_text(toks: Seq<Token>, i: int) -> Seq<char> {
    if 0 <= i < toks.len() {
        toks[i].text@
    } else {
        Seq::empty()
    }
}

/// Two tokens that would read as one if written side by side: two words,
/// or two punctuation marks (`&` `&` would read as `&&`, `:` `:` as `::`).
pub open spec fn could_merge(t: Token, u: Token) -> bool {
    (is_word(t) && is_word(u)) || (t.kind == TokenKind::Punct && u.kind == TokenKind::Punct)
}

/// The tokens `[a, b)` written out verbatim, in order, with a space between
/// two adjacent tokens that could merge, so that the text reads back as the
/// same tokens.
pub open spec fn join_tokens(toks: Seq<Token>, a: int, b: int) -> Seq<char>
    decreases b - a,
{
    if a < 0 || a >= b || a >= toks.len() {
        Seq::empty()
    } else if a + 1 < b && a + 1 < toks.len() && could_merge(toks[a], toks[a + 1]) {
        toks[a].text@ + seq![' '] + join_tokens(toks, a + 1, b)
    } else {
        toks[a].text@ + join_tokens(toks, a + 1, b)
    }
}

pub open spec fn field_text(toks: Seq<Token>, f: Field) -> Seq<char> {
    match f {
        Field::Append => "append"@,
        Field::Named(i) => tok_text(toks, i as int),
    }
}

pub open spec fn value_text(toks: Seq<Token>, v: Value) -> Seq<char> {
    match v {
        Value::Lit(i) => tok_text(toks, i as int),
        Value::Path(a, b) => join_tokens(toks, a as int, b as int),
        Value::Call(a, p, c) => join_tokens(toks, a as int, p as int) + "("@ + join_tokens(
            toks,
            p + 1,
            c as int,
        ) + ")"@,
        Value::Struct(a, c) => tok_text(toks, a as int) + " { "@ + join_tokens(toks, a + 2, c as int)
            + " }"@,
    }
}

/// The calls from step `k` inward: `.field(value .field(value ...))`.
pub open spec fn calls_text(toks: Seq<Token>, steps: Seq<Step>, k: int) -> Seq<char>
    decreases steps.len() - k,
{
    if k < 0 || k >= steps.len() {
        Seq::empty()
    } else {
        "."@ + field_text(toks, steps[k].field) + "("@ + value_text(toks, steps[k].value)
            + calls_text(toks, steps, k + 1) + ")"@
    }
}

/// The builder expression that the steps stand for: a block that imports
/// the filter and time types of this crate and evaluates to the chain of
/// calls on `Filter::new()`, so that it reads the same wherever it stands.
pub open spec fn expansion(toks: Seq<Token>, steps: Seq<Step>) -> Seq<char> {
    "{ use kaldav::filter::*; use kaldav::time::*; Filter::new()"@ + calls_text(toks, steps, 0)
        + " }"@
}

fn tok_text_exec(toks: &Vec<Token>, i: usize) -> (r: String)
    ensures
        r@ == tok_text(toks@, i as int),
{
    if i < toks.len() {
        toks[i].text.clone()
    } else {
        String::new()
    }
}

fn join_exec(toks: &Vec<Token>, a: usize, b: usize) -> (r: String)
    ensures
        r@ == join_tokens(toks@, a as int, b as int),
{
    let n = toks.len();
    let mut k = if b < n {
        b
    } else {
        n
    };
    let mut acc = String::new();
    if k <= a {
        return acc;
    }
    while k > a
        invariant
            n == toks@.len(),
            a <= k <= n,
            k <= b,
            acc@ == join_tokens(toks@, k as int, b as int),
        decreases k - a,
    {
        let j = k - 1;
        let mut piece = toks[j].text.clone();
        if k < b && k < n && ((matches!(toks[j].kind, TokenKind::Ident | TokenKind::Literal)
            && matches!(toks[k].kind, TokenKind::Ident | TokenKind::Literal)) || (matches!(
            toks[j].kind,
            TokenKind::Punct,
        ) && matches!(toks[k].kind, TokenKind::Punct))) {
            piece.append(" ");
            proof {
                reveal_strlit(" ");
            }
        }
        piece.append(acc.as_str());
        acc = piece;
        k = j;
    }
    acc
}

fn field_text_exec(toks: &Vec<Token>, f: Field) -> (r: String)
    ensures
        r@ == field_text(toks@, f),
{
    match f {
        Field::Append => String::from_str("append"),
        Field::Named(i) => tok_text_exec(toks, i),
    }
}

fn value_text_exec(toks: &Vec<Token>, v: Value) -> (r: String)
    ensures
        r@ == value_text(toks@, v),
{
    match v {
        Value::Lit(i) => tok_text_exec(toks, i),
        Value::Path(a, b) => join_exec(toks, a, b),
        Value::Call(a, p, c) => {
            let mut s = join_exec(toks, a, p);
            s.append("(");
            if p < usize::MAX {
                let args = join_exec(toks, p + 1, c);
                s.append(args.as_str());
            } else {
                proof {
                    assert(join_tokens(toks@, p + 1, c as int) == Seq::<char>::empty());
                }
            }
            s.append(")");
            s
        },
        Value::Struct(a, c) => {
            let mut s = tok_text_exec(toks, a);
            s.append(" { ");
            if a < usize::MAX - 1 {
                let body = join_exec(toks, a + 2, c);
                s.append(body.as_str());
            } else {
                proof {
                    assert(join_tokens(toks@, a + 2, c as int) == Seq::<char>::empty());
                }
            }
            s.append(" }");
            s
        },
    }
}

/// Writes the builder expression that `steps` stand for.
pub fn emit(toks: &Vec<Token>, steps: &Vec<Step>) -> (r: String)
    ensures
        r@ == expansion(toks@, steps@),
{
    let mut acc = String::new();
    let mut k = steps.len();
    while k > 0
        invariant
            k <= steps@.len(),
            acc@ == calls_text(toks@, steps@, k as int),
        decreases k,
    {
        let j = k - 1;
        let mut s = String::from_str(".");
        let f = field_text_exec(toks, steps[j].field);
        s.append(f.as_str());
        s.append("(");
        let v = value_text_exec(toks, steps[j].value);
        s.append(v.as_str());
        s.append(acc.as_str());
        s.append(")");
        acc = s;
        k = j;
    }
    let mut r = String::from_str("{ use kaldav::filter::*; use kaldav::time::*; Filter::new()");
    r.append(acc.as_str());
    r.append(" }");
    r
}

/// The character offset of the token at index `pos`, or the text's length
/// past the last token.
pub open spec fn token_offset(toks: Seq<Token>, len: int, pos: int) -> int {
    if 0 <= pos < toks.len() {
        toks[pos].start as int
    } else {
        len
    }
}

proof fn lemma_tokenizes_wf(s: Seq<char>, toks: Seq<Token>)
    requires
        tokenizes(s, toks),
    ensures
        tokens_wf(toks),
{
    reveal(tokenizes);
    assert forall|i: int| 0 <= i < toks.len() implies token_shape(
        #[trigger] toks[i].kind,
        toks[i].text@,
    ) by {
        assert(token_shape(toks[i].kind, toks[i].text@));
    }
}

/// `steps` are what the notation `src` parses to, through its tokens `toks`.
pub open spec fn parses_to(src: Seq<char>, toks: Seq<Token>, steps: Seq<Step>) -> bool {
    &&& tokenizes(src, toks)
    &&& parse_entry(toks, 0, toks.len() as int) == Ok::<Seq<Step>, DslError>(steps)
}

/// `e` is the syntax error of the notation `src`, at a character offset.
pub open spec fn syntax_error(src: Seq<char>, e: DslError) -> bool {
    ||| lex_error_at(src, e) && exists|toks: Seq<Token>| lexed_prefix(src, toks, e.pos as int)
    ||| exists|toks: Seq<Token>, pe: DslError|
        {
            &&& tokenizes(src, toks)
            &&& parse_entry(toks, 0, toks.len() as int) == Err::<Seq<Step>, DslError>(pe)
            &&& e.kind == pe.kind
            &&& e.pos as int == token_offset(toks, src.len() as int, pe.pos as int)
        }
}

/// The parser's error `pe`, placed at the character offset of its token.
fn locate(src: &str, toks: &Vec<Token>, pe: DslError) -> (e: DslError)
    ensures
        e.kind == pe.kind,
        e.pos as int == token_offset(toks@, src@.len() as int, pe.pos as int),
{
    let pos = if pe.pos < toks.len() {
        toks[pe.pos].start
    } else {
        src.unicode_len()
    };
    DslError { kind: pe.kind, pos }
}

/// Tokenizes and parses the notation in `src`.
pub fn parse_notation(src: &str) -> (r: Result<(Vec<Token>, Vec<Step>), DslError>)
    ensures
        match r {
            Ok((toks, steps)) => parses_to(src@, toks@, steps@) && tokens_wf(toks@),
            Err(e) => syntax_error(src@, e),
        },
{
    let toks = match tokenize(src) {
        Ok(t) => t,
        Err(e) => {
            return Err(e);
        },
    };
    proof {
        lemma_tokenizes_wf(src@, toks@);
    }
    match parse(&toks) {
        Ok(steps) => Ok((toks, steps)),
        Err(pe) => {
            let e = locate(src, &toks, pe);
            proof {
                let t = toks@;
                assert(tokenizes(src@, t));
                assert(parse_entry(t, 0, t.len() as int) == Err::<Seq<Step>, DslError>(pe));
            }
            Err(e)
        },
    }
}

/// Expands the filter notation in `src` into its builder expression.
pub fn expand(src: &str) -> (r: Result<String, DslError>)
    ensures
        match r {
            Ok(code) => exists|toks: Seq<Token>, steps: Seq<Step>|
                parses_to(src@, toks, steps) && code@ == expansion(toks, steps),
            Err(e) => syntax_error(src@, e),
        },
{
    let (toks, steps) = match parse_notation(src) {
        Ok(p) => p,
        Err(e) => {
            return Err(e);
        },
    };
    let code = emit(&toks, &steps);
    proof {
        assert(parses_to(src@, toks@, steps@));
    }
    Ok(code)
}

} // verus!
